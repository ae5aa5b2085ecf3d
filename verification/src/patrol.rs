//! Patrol grids and the progress of an NPC along one. Coordinates are
//! carried as the bit patterns of the `f32` values stored for them.
use vstd::prelude::*;

verus! {

/// Where an NPC is on its patrol grid.
#[derive(Debug, Clone, Copy, PartialEq, Eq)]
pub struct PatrolState {
    pub grid_id: i32,
    pub current_waypoint: usize,
    pub pause_remaining_ticks: u64,
    pub moving: bool,
}

impl PatrolState {
    /// At the first waypoint of `grid_id`, not pausing, not moving.
    pub fn new(grid_id: i32) -> (s: Self)
        ensures
            s == (PatrolState {
                grid_id,
                current_waypoint: 0,
                pause_remaining_ticks: 0,
                moving: false,
            }),
    {
        PatrolState { grid_id, current_waypoint: 0, pause_remaining_ticks: 0, moving: false }
    }

    /// Moves on to the next waypoint of a grid of `waypoint_count`
    /// waypoints, wrapping to the first after the last. A grid without
    /// waypoints leaves the state as it is.
    pub fn advance(&mut self, waypoint_count: usize)
        requires
            waypoint_count == 0 || old(self).current_waypoint < usize::MAX,
        ensures
            *final(self) == if waypoint_count == 0 {
                *old(self)
            } else {
                PatrolState {
                    current_waypoint: ((old(self).current_waypoint + 1) % (waypoint_count as int)) as usize,
                    ..*old(self)
                }
            },
    {
        if waypoint_count == 0 {
            return;
        }
        self.current_waypoint = (self.current_waypoint + 1) % waypoint_count;
    }
}

/// One stop of a patrol grid.
#[derive(Debug, Clone, Copy, PartialEq, Eq)]
pub struct Waypoint {
    pub x_bits: u32,
    pub y_bits: u32,
    pub z_bits: u32,
    pub heading_bits: u32,
    pub pause_secs: i32,
}

/// A stored waypoint row: its grid, its number on the grid, and the stop.
#[derive(Debug, Clone, Copy, PartialEq, Eq)]
pub struct GridEntryRow {
    pub gridid: i32,
    pub number: i32,
    pub x_bits: u32,
    pub y_bits: u32,
    pub z_bits: u32,
    pub heading_bits: u32,
    pub pause: i32,
}

/// A patrol grid: its id and its waypoints in order.
#[derive(Debug, Clone)]
pub struct PatrolGrid {
    pub grid_id: i32,
    pub waypoints: Vec<Waypoint>,
}

/// The stop a row describes.
pub open spec fn waypoint_of(r: GridEntryRow) -> Waypoint {
    Waypoint {
        x_bits: r.x_bits,
        y_bits: r.y_bits,
        z_bits: r.z_bits,
        heading_bits: r.heading_bits,
        pause_secs: r.pause,
    }
}

/// The grids made from rows in order: each run of consecutive rows with
/// the same grid id forms one grid, whose waypoints are the run's rows.
pub open spec fn grids_from_rows(rows: Seq<GridEntryRow>) -> Seq<(i32, Seq<Waypoint>)>
    decreases rows.len(),
{
    if rows.len() == 0 {
        Seq::empty()
    } else {
        let g = grids_from_rows(rows.drop_last());
        let r = rows.last();
        if g.len() > 0 && g.last().0 == r.gridid {
            g.update(g.len() - 1, (r.gridid, g.last().1.push(waypoint_of(r))))
        } else {
            g.push((r.gridid, seq![waypoint_of(r)]))
        }
    }
}

/// A list of grids as ids and waypoint sequences.
pub open spec fn grids_view(v: Seq<PatrolGrid>) -> Seq<(i32, Seq<Waypoint>)> {
    v.map_values(|p: PatrolGrid| (p.grid_id, p.waypoints@))
}

fn waypoint_from(r: &GridEntryRow) -> (w: Waypoint)
    ensures
        w == waypoint_of(*r),
{
    Waypoint {
        x_bits: r.x_bits,
        y_bits: r.y_bits,
        z_bits: r.z_bits,
        heading_bits: r.heading_bits,
        pause_secs: r.pause,
    }
}

/// Builds a zone's patrol grids from its waypoint rows, ordered by grid
/// and by number: a new grid starts at each change of grid id.
pub fn group_patrol_grids(rows: &[GridEntryRow]) -> (grids: Vec<PatrolGrid>)
    ensures
        grids_view(grids@) == grids_from_rows(rows@),
{
    let mut grids: Vec<PatrolGrid> = Vec::new();
    let mut cur_id: i32 = 0;
    let mut cur: Vec<Waypoint> = Vec::new();
    let mut has_cur = false;
    let mut i: usize = 0;
    while i < rows.len()
        invariant
            i <= rows@.len(),
            grids_from_rows(rows@.take(i as int)) == if has_cur {
                grids_view(grids@).push((cur_id, cur@))
            } else {
                grids_view(grids@)
            },
            !has_cur ==> i == 0,
        decreases rows@.len() - i,
    {
        let r = &rows[i];
        let w = waypoint_from(r);
        proof {
            assert(rows@.take(i + 1).drop_last() =~= rows@.take(i as int));
            assert(rows@.take(i + 1).last() == rows@[i as int]);
        }
        let ghost before = grids_view(grids@);
        let ghost cur_before = cur@;
        if has_cur && cur_id == r.gridid {
            cur.push(w);
            proof {
                let g = before.push((cur_id, cur_before));
                assert(before.push((cur_id, cur@)) =~= g.update(g.len() - 1, (cur_id, g.last().1.push(w))));
            }
        } else {
            if has_cur {
                let done = PatrolGrid { grid_id: cur_id, waypoints: cur };
                grids.push(done);
                proof {
                    assert(grids_view(grids@) =~= before.push((cur_id, done.waypoints@)));
                }
            }
            cur = Vec::new();
            cur.push(w);
            cur_id = r.gridid;
            has_cur = true;
            proof {
                assert(cur@ =~= seq![w]);
            }
        }
        i = i + 1;
    }
    if has_cur {
        let ghost before = grids_view(grids@);
        let done = PatrolGrid { grid_id: cur_id, waypoints: cur };
        grids.push(done);
        proof {
            assert(grids_view(grids@) =~= before.push((cur_id, done.waypoints@)));
        }
    }
    proof {
        assert(rows@.take(i as int) =~= rows@);
    }
    grids
}

/// All waypoints of a list of grids, grid after grid.
pub open spec fn all_waypoints(g: Seq<(i32, Seq<Waypoint>)>) -> Seq<Waypoint>
    decreases g.len(),
{
    if g.len() == 0 {
        Seq::empty()
    } else {
        all_waypoints(g.drop_last()) + g.last().1
    }
}

/// Law: grouping loses, adds and reorders no waypoint; every grid has a
/// waypoint; and neighbouring grids have different ids.
pub proof fn law_grouping_keeps_rows(rows: Seq<GridEntryRow>)
    ensures
        all_waypoints(grids_from_rows(rows)) == rows.map_values(|r: GridEntryRow| waypoint_of(r)),
        forall|j: int|
            0 <= j < grids_from_rows(rows).len() ==> #[trigger] grids_from_rows(rows)[j].1.len() > 0,
        forall|j: int|
            0 <= j < grids_from_rows(rows).len() - 1 ==> #[trigger] grids_from_rows(rows)[j].0
                != grids_from_rows(rows)[j + 1].0,
    decreases rows.len(),
{
    if rows.len() > 0 {
        let d = rows.drop_last();
        law_grouping_keeps_rows(d);
        let g = grids_from_rows(d);
        let r = rows.last();
        let w = waypoint_of(r);
        assert(rows.map_values(|r: GridEntryRow| waypoint_of(r)) =~= d.map_values(
            |r: GridEntryRow| waypoint_of(r),
        ).push(w));
        if g.len() > 0 && g.last().0 == r.gridid {
            let n = g.update(g.len() - 1, (r.gridid, g.last().1.push(w)));
            assert(n.drop_last() =~= g.drop_last());
            assert(all_waypoints(g) == all_waypoints(g.drop_last()) + g.last().1);
            assert(all_waypoints(n) =~= all_waypoints(g) + seq![w]);
        } else {
            let n = g.push((r.gridid, seq![w]));
            assert(n.drop_last() =~= g);
            assert(all_waypoints(n) =~= all_waypoints(g) + seq![w]);
        }
    }
}

/// Law: from a waypoint on the grid, advancing stays on the grid.
pub proof fn law_advance_stays_on_grid(current: usize, waypoint_count: usize)
    requires
        waypoint_count > 0,
        current < waypoint_count,
    ensures
        (current + 1) % (waypoint_count as int) < waypoint_count,
        current + 1 < waypoint_count ==> (current + 1) % (waypoint_count as int) == current + 1,
        current + 1 == waypoint_count ==> (current + 1) % (waypoint_count as int) == 0,
{
    vstd::arithmetic::div_mod::lemma_mod_pos_bound((current + 1) as int, waypoint_count as int);
    vstd::arithmetic::div_mod::lemma_mod_self_0(waypoint_count as int);
    if current + 1 < waypoint_count {
        vstd::arithmetic::div_mod::lemma_small_mod((current + 1) as nat, waypoint_count as nat);
    }
}

} // verus!
