//! Choosing which NPC appears at a spawn point.
use vstd::prelude::*;

verus! {

/// One NPC a spawn group can produce, with its weight.
#[derive(Debug, Clone, Copy, PartialEq, Eq)]
pub struct SpawnEntry {
    pub spawngroupid: i32,
    pub npcid: i32,
    pub chance: i32,
}

/// Sum of the weights of a spawn group's entries.
pub open spec fn total_chance(s: Seq<SpawnEntry>) -> int
    decreases s.len(),
{
    if s.len() == 0 {
        0
    } else {
        total_chance(s.drop_last()) + s.last().chance
    }
}

/// Index of the entry with the greatest weight; the last such one when
/// several share it. Meaningless for an empty group.
pub open spec fn top_chance_index(s: Seq<SpawnEntry>) -> int
    decreases s.len(),
{
    if s.len() <= 1 {
        0
    } else {
        let k = top_chance_index(s.drop_last());
        if s.last().chance >= s[k].chance {
            s.len() - 1
        } else {
            k
        }
    }
}

/// Whether every partial sum of the weights fits in `i32`.
pub open spec fn chance_sum_in_range(s: Seq<SpawnEntry>) -> bool {
    forall|k: int| 0 <= k <= s.len() ==> i32::MIN <= #[trigger] total_chance(s.take(k)) <= i32::MAX
}

/// The NPC chosen for a spawn point: none for an empty group; the first
/// entry when there is only one or the weights sum to at most zero; else
/// the most likely entry (the last among equals).
pub open spec fn pick_npc_spec(s: Seq<SpawnEntry>) -> Option<i32> {
    if s.len() == 0 {
        None
    } else if s.len() == 1 || total_chance(s) <= 0 {
        Some(s[0].npcid)
    } else {
        Some(s[top_chance_index(s)].npcid)
    }
}

/// Chooses the NPC for a spawn point from its group's entries.
pub fn pick_npc(entries: &[&SpawnEntry]) -> (npc: Option<i32>)
    requires
        entries@.len() <= 1 || chance_sum_in_range(entries@.map_values(|e: &SpawnEntry| *e)),
    ensures
        npc == pick_npc_spec(entries@.map_values(|e: &SpawnEntry| *e)),
{
    let ghost s = entries@.map_values(|e: &SpawnEntry| *e);
    if entries.len() == 0 {
        return None;
    }
    if entries.len() == 1 {
        return Some(entries[0].npcid);
    }
    let mut total: i32 = 0;
    let mut i: usize = 0;
    proof {
        assert(s.take(0) =~= Seq::<SpawnEntry>::empty());
    }
    while i < entries.len()
        invariant
            i <= s.len(),
            s.len() == entries@.len(),
            s == entries@.map_values(|e: &SpawnEntry| *e),
            chance_sum_in_range(s),
            total == total_chance(s.take(i as int)),
        decreases s.len() - i,
    {
        proof {
            assert(s.take(i + 1).drop_last() =~= s.take(i as int));
            assert(total_chance(s.take(i + 1)) == total + s[i as int].chance);
            assert(i32::MIN <= total_chance(s.take(i + 1)) <= i32::MAX);
        }
        total = total + entries[i].chance;
        i = i + 1;
    }
    proof {
        assert(s.take(i as int) =~= s);
    }
    if total <= 0 {
        return Some(entries[0].npcid);
    }
    let mut best: usize = 0;
    let mut j: usize = 1;
    while j < entries.len()
        invariant
            1 <= j <= s.len(),
            s.len() == entries@.len(),
            s == entries@.map_values(|e: &SpawnEntry| *e),
            best == top_chance_index(s.take(j as int)),
            best < j,
        decreases s.len() - j,
    {
        proof {
            assert(s.take(j + 1).drop_last() =~= s.take(j as int));
        }
        if entries[j].chance >= entries[best].chance {
            best = j;
        }
        j = j + 1;
    }
    proof {
        assert(s.take(j as int) =~= s);
    }
    Some(entries[best].npcid)
}

/// Law: the entry picked from a group with positive total weight has the
/// greatest weight in the group.
pub proof fn law_pick_is_most_likely(s: Seq<SpawnEntry>)
    requires
        s.len() > 0,
    ensures
        0 <= top_chance_index(s) < s.len(),
        forall|j: int| 0 <= j < s.len() ==> #[trigger] s[j].chance <= s[top_chance_index(s)].chance,
    decreases s.len(),
{
    if s.len() > 1 {
        let d = s.drop_last();
        law_pick_is_most_likely(d);
        assert(forall|j: int| 0 <= j < d.len() ==> d[j] == s[j]);
    }
}

/// The entries of spawn group `g`, in the order they were loaded.
pub open spec fn group_entries(entries: Seq<SpawnEntry>, g: i32) -> Seq<SpawnEntry>
    decreases entries.len(),
{
    if entries.len() == 0 {
        Seq::empty()
    } else {
        let rest = group_entries(entries.drop_last(), g);
        if entries.last().spawngroupid == g {
            rest.push(entries.last())
        } else {
            rest
        }
    }
}

/// Whether picking from every spawn group stays within `i32` when it sums
/// the group's weights.
pub open spec fn groups_pickable(entries: Seq<SpawnEntry>) -> bool {
    forall|g: i32|
        #![trigger group_entries(entries, g)]
        group_entries(entries, g).len() <= 1 || chance_sum_in_range(group_entries(entries, g))
}

/// Whether, entry by entry, the weights loaded so far for the entry's group
/// sum to a value within `i32`.
pub open spec fn groups_fit(entries: Seq<SpawnEntry>) -> bool
    decreases entries.len(),
{
    if entries.len() == 0 {
        true
    } else {
        &&& groups_fit(entries.drop_last())
        &&& i32::MIN <= total_chance(group_entries(entries, entries.last().spawngroupid)) <= i32::MAX
    }
}

proof fn lemma_short_sum_in_range(s: Seq<SpawnEntry>)
    requires
        s.len() <= 1,
    ensures
        chance_sum_in_range(s),
{
    assert(s.take(0) =~= Seq::<SpawnEntry>::empty());
    assert(total_chance(s.take(0)) == 0);
    if s.len() == 1 {
        assert(s.take(1) =~= s);
        assert(s.drop_last() =~= Seq::<SpawnEntry>::empty());
        assert(total_chance(s.take(1)) == s[0].chance);
    }
    assert forall|k: int| 0 <= k <= s.len() implies i32::MIN <= #[trigger] total_chance(s.take(k))
        <= i32::MAX by {
        if k == 0 {
        } else {
            assert(k == 1);
        }
    }
}

proof fn lemma_sum_in_range_push(s: Seq<SpawnEntry>, x: SpawnEntry)
    ensures
        chance_sum_in_range(s.push(x)) <==> (chance_sum_in_range(s) && i32::MIN <= total_chance(s.push(x))
            <= i32::MAX),
{
    let t = s.push(x);
    assert(t.take(t.len() as int) =~= t);
    assert forall|k: int| 0 <= k <= s.len() implies #[trigger] t.take(k) == s.take(k) by {
        assert(t.take(k) =~= s.take(k));
    }
    if chance_sum_in_range(s) && i32::MIN <= total_chance(t) <= i32::MAX {
        assert forall|k: int| 0 <= k <= t.len() implies i32::MIN <= #[trigger] total_chance(t.take(k))
            <= i32::MAX by {
            if k <= s.len() {
                assert(t.take(k) == s.take(k));
            }
        }
    }
    if chance_sum_in_range(t) {
        assert forall|k: int| 0 <= k <= s.len() implies i32::MIN <= #[trigger] total_chance(s.take(k))
            <= i32::MAX by {
            assert(t.take(k) == s.take(k));
            assert(i32::MIN <= total_chance(t.take(k)) <= i32::MAX);
        }
        assert(i32::MIN <= total_chance(t.take(t.len() as int)) <= i32::MAX);
    }
}

proof fn lemma_groups_fit_pickable(entries: Seq<SpawnEntry>)
    ensures
        groups_fit(entries) <==> groups_pickable(entries),
    decreases entries.len(),
{
    if entries.len() == 0 {
        assert forall|g: i32| #[trigger] group_entries(entries, g).len() <= 1 by {}
    } else {
        let d = entries.drop_last();
        let x = entries.last();
        lemma_groups_fit_pickable(d);
        lemma_sum_in_range_push(group_entries(d, x.spawngroupid), x);
        if groups_pickable(entries) {
            assert forall|g: i32|
                #![trigger group_entries(d, g)]
                group_entries(d, g).len() <= 1 || chance_sum_in_range(group_entries(d, g)) by {
                assert(group_entries(entries, g).len() <= 1 || chance_sum_in_range(group_entries(entries, g)));
                if g == x.spawngroupid {
                    if group_entries(d, g).len() <= 1 {
                    } else {
                        lemma_sum_in_range_push(group_entries(d, g), x);
                    }
                }
            }
            let gx = group_entries(entries, x.spawngroupid);
            if gx.len() <= 1 {
                lemma_short_sum_in_range(gx);
            }
            assert(gx.take(gx.len() as int) =~= gx);
        }
        if groups_fit(entries) {
            assert forall|g: i32|
                #![trigger group_entries(entries, g)]
                group_entries(entries, g).len() <= 1 || chance_sum_in_range(group_entries(entries, g)) by {
                assert(group_entries(d, g).len() <= 1 || chance_sum_in_range(group_entries(d, g)));
                if group_entries(d, g).len() <= 1 {
                    lemma_short_sum_in_range(group_entries(d, g));
                }
                if g == x.spawngroupid {
                    lemma_sum_in_range_push(group_entries(d, g), x);
                }
            }
        }
    }
}

proof fn lemma_groups_fit_prefix(entries: Seq<SpawnEntry>, k: int)
    requires
        0 <= k <= entries.len(),
        groups_fit(entries),
    ensures
        groups_fit(entries.take(k)),
    decreases entries.len(),
{
    if k < entries.len() {
        let d = entries.drop_last();
        lemma_groups_fit_prefix(d, k);
        assert(d.take(k) =~= entries.take(k));
    } else {
        assert(entries.take(k) =~= entries);
    }
}

/// Whether every spawn group's weights, summed in load order, stay within
/// `i32`: exactly when `plan_spawns` can pick from every group.
pub fn spawn_groups_pickable(entries: &[SpawnEntry]) -> (ok: bool)
    ensures
        ok == groups_pickable(entries@),
{
    proof {
        lemma_groups_fit_pickable(entries@);
    }
    let mut i: usize = 0;
    while i < entries.len()
        invariant
            i <= entries@.len(),
            groups_fit(entries@.take(i as int)),
        decreases entries@.len() - i,
    {
        let g = entries[i].spawngroupid;
        let mut sum: i128 = 0;
        let mut j: usize = 0;
        while j <= i
            invariant
                i < entries@.len(),
                j <= i + 1,
                g == entries@[i as int].spawngroupid,
                sum == total_chance(group_entries(entries@.take(j as int), g)),
                -(j as int) * 0x8000_0000 <= sum <= (j as int) * 0x8000_0000,
            decreases i + 1 - j,
        {
            proof {
                let t = entries@.take(j + 1);
                assert(t.drop_last() =~= entries@.take(j as int));
                assert(t.last() == entries@[j as int]);
                let r = group_entries(entries@.take(j as int), g);
                if entries@[j as int].spawngroupid == g {
                    assert(r.push(entries@[j as int]).drop_last() =~= r);
                }
            }
            if entries[j].spawngroupid == g {
                sum = sum + entries[j].chance as i128;
            }
            j = j + 1;
        }
        proof {
            let t = entries@.take(i + 1);
            assert(t.drop_last() =~= entries@.take(i as int));
            assert(t.last() == entries@[i as int]);
        }
        if sum < -0x8000_0000i128 || sum > 0x7fff_ffffi128 {
            proof {
                assert(!groups_fit(entries@.take(i + 1)));
                if groups_fit(entries@) {
                    lemma_groups_fit_prefix(entries@, i + 1);
                }
                lemma_groups_fit_pickable(entries@);
            }
            return false;
        }
        i = i + 1;
    }
    proof {
        assert(entries@.take(i as int) =~= entries@);
    }
    true
}

/// Position of the NPC type with id `id` among the loaded ones: the last
/// one when the id occurs more than once.
pub open spec fn npc_index(ids: Seq<i32>, id: i32) -> Option<int>
    decreases ids.len(),
{
    if ids.len() == 0 {
        None
    } else if ids.last() == id {
        Some(ids.len() - 1)
    } else {
        npc_index(ids.drop_last(), id)
    }
}

/// What spawns at a point of spawn group `g`: the NPC type picked from the
/// group, when the group has entries and the picked type was loaded.
pub open spec fn point_npc(g: i32, entries: Seq<SpawnEntry>, ids: Seq<i32>) -> Option<int> {
    match pick_npc_spec(group_entries(entries, g)) {
        Some(id) => npc_index(ids, id),
        None => None,
    }
}

/// An NPC placed at a spawn point: indexes into the loaded spawn points
/// and NPC types.
#[derive(Debug, Clone, Copy, PartialEq, Eq)]
pub struct SpawnPlacement {
    pub point: usize,
    pub npc: usize,
}

/// The placements for spawn points of the given groups, in point order.
pub open spec fn placements(point_groups: Seq<i32>, entries: Seq<SpawnEntry>, ids: Seq<i32>) -> Seq<
    SpawnPlacement,
>
    decreases point_groups.len(),
{
    if point_groups.len() == 0 {
        Seq::empty()
    } else {
        let rest = placements(point_groups.drop_last(), entries, ids);
        match point_npc(point_groups.last(), entries, ids) {
            Some(k) => rest.push(SpawnPlacement { point: (point_groups.len() - 1) as usize, npc: k as usize }),
            None => rest,
        }
    }
}

/// Counts of a zone's spawning.
#[derive(Debug, Clone, Copy, PartialEq, Eq)]
pub struct SpawnResult {
    pub npcs_spawned: usize,
    pub spawn_points_total: usize,
    pub spawn_points_empty: usize,
}

/// Which NPC spawns at which point, and the counts.
pub struct SpawnPlan {
    pub placements: Vec<SpawnPlacement>,
    pub result: SpawnResult,
}

fn entries_of_group<'a>(entries: &'a [SpawnEntry], g: i32) -> (group: Vec<&'a SpawnEntry>)
    ensures
        group@.map_values(|e: &SpawnEntry| *e) == group_entries(entries@, g),
{
    let mut group: Vec<&SpawnEntry> = Vec::new();
    let mut j: usize = 0;
    while j < entries.len()
        invariant
            j <= entries@.len(),
            group@.map_values(|e: &SpawnEntry| *e) == group_entries(entries@.take(j as int), g),
        decreases entries@.len() - j,
    {
        proof {
            assert(entries@.take(j + 1).drop_last() =~= entries@.take(j as int));
        }
        if entries[j].spawngroupid == g {
            group.push(&entries[j]);
        }
        j = j + 1;
    }
    proof {
        assert(entries@.take(j as int) =~= entries@);
    }
    group
}

fn find_npc_index(ids: &[i32], id: i32) -> (k: Option<usize>)
    ensures
        match k {
            Some(i) => npc_index(ids@, id) == Some(i as int),
            None => npc_index(ids@, id) is None,
        },
{
    let mut i: usize = ids.len();
    proof {
        assert(ids@.take(i as int) =~= ids@);
    }
    while i > 0
        invariant
            i <= ids@.len(),
            npc_index(ids@, id) == npc_index(ids@.take(i as int), id),
        decreases i,
    {
        proof {
            assert(ids@.take(i as int).drop_last() =~= ids@.take(i - 1));
        }
        if ids[i - 1] == id {
            return Some(i - 1);
        }
        i = i - 1;
    }
    None
}

/// Decides a zone's spawns: for each spawn point (given by its spawn
/// group), the NPC picked from the group's entries, looked up among the
/// loaded NPC types (`npc_type_ids`). Points whose group has no entries, or
/// whose picked NPC type was not loaded, stay empty.
pub fn plan_spawns(point_groups: &[i32], entries: &[SpawnEntry], npc_type_ids: &[i32]) -> (plan: SpawnPlan)
    requires
        groups_pickable(entries@),
    ensures
        plan.placements@ == placements(point_groups@, entries@, npc_type_ids@),
        plan.result.npcs_spawned == plan.placements@.len(),
        plan.result.spawn_points_total == point_groups@.len(),
        plan.result.spawn_points_empty == point_groups@.len() - plan.placements@.len(),
{
    let mut out: Vec<SpawnPlacement> = Vec::new();
    let mut i: usize = 0;
    while i < point_groups.len()
        invariant
            i <= point_groups@.len(),
            groups_pickable(entries@),
            out@ == placements(point_groups@.take(i as int), entries@, npc_type_ids@),
            out@.len() <= i,
        decreases point_groups@.len() - i,
    {
        let g = point_groups[i];
        proof {
            assert(point_groups@.take(i + 1).drop_last() =~= point_groups@.take(i as int));
            assert(group_entries(entries@, g).len() <= 1 || chance_sum_in_range(group_entries(entries@, g)));
        }
        let group = entries_of_group(entries, g);
        let picked = pick_npc(group.as_slice());
        match picked {
            Some(id) => {
                match find_npc_index(npc_type_ids, id) {
                    Some(k) => {
                        out.push(SpawnPlacement { point: i, npc: k });
                    },
                    None => {},
                }
            },
            None => {},
        }
        i = i + 1;
    }
    proof {
        assert(point_groups@.take(i as int) =~= point_groups@);
    }
    let n = out.len();
    SpawnPlan {
        placements: out,
        result: SpawnResult {
            npcs_spawned: n,
            spawn_points_total: point_groups.len(),
            spawn_points_empty: point_groups.len() - n,
        },
    }
}

/// Law: every placement puts, at a point, an NPC type whose id is the one
/// picked from that point's spawn group; placements follow the point order.
pub proof fn law_placements_match_picks(point_groups: Seq<i32>, entries: Seq<SpawnEntry>, ids: Seq<i32>)
    requires
        point_groups.len() <= usize::MAX,
        ids.len() <= usize::MAX,
    ensures
        ({
            let p = placements(point_groups, entries, ids);
            &&& p.len() <= point_groups.len()
            &&& forall|j: int|
                0 <= j < p.len() ==> {
                    let pl = #[trigger] p[j];
                    &&& pl.point < point_groups.len()
                    &&& pl.npc < ids.len()
                    &&& pick_npc_spec(group_entries(entries, point_groups[pl.point as int])) == Some(
                        ids[pl.npc as int],
                    )
                }
            &&& forall|j: int, k: int| 0 <= j < k < p.len() ==> p[j].point < p[k].point
        }),
    decreases point_groups.len(),
{
    if point_groups.len() > 0 {
        let d = point_groups.drop_last();
        law_placements_match_picks(d, entries, ids);
        let r = placements(d, entries, ids);
        let p = placements(point_groups, entries, ids);
        assert forall|j: int| 0 <= j < d.len() implies d[j] == point_groups[j] by {}
        match point_npc(point_groups.last(), entries, ids) {
            Some(k) => {
                let id = pick_npc_spec(group_entries(entries, point_groups.last()))->0;
                lemma_npc_index(ids, id);
                assert(p == r.push(SpawnPlacement { point: (point_groups.len() - 1) as usize, npc: k as usize }));
                assert forall|j: int| 0 <= j < p.len() implies ({
                    let pl = #[trigger] p[j];
                    &&& pl.point < point_groups.len()
                    &&& pl.npc < ids.len()
                    &&& pick_npc_spec(group_entries(entries, point_groups[pl.point as int])) == Some(
                        ids[pl.npc as int],
                    )
                }) by {
                    if j < r.len() {
                        assert(p[j] == r[j]);
                        assert(r[j].point < d.len());
                        assert(point_groups[r[j].point as int] == d[r[j].point as int]);
                    }
                }
                assert forall|j: int, m: int| 0 <= j < m < p.len() implies p[j].point < p[m].point by {
                    if m < r.len() {
                        assert(p[j] == r[j] && p[m] == r[m]);
                    } else {
                        assert(p[j] == r[j]);
                        assert(r[j].point < d.len());
                    }
                }
            },
            None => {
                assert(p == r);
                assert forall|j: int| 0 <= j < p.len() implies ({
                    let pl = #[trigger] p[j];
                    pick_npc_spec(group_entries(entries, point_groups[pl.point as int])) == Some(
                        ids[pl.npc as int],
                    )
                }) by {
                    assert(r[j].point < d.len());
                    assert(point_groups[r[j].point as int] == d[r[j].point as int]);
                }
            },
        }
    }
}

proof fn lemma_npc_index(ids: Seq<i32>, id: i32)
    ensures
        match npc_index(ids, id) {
            Some(k) => 0 <= k < ids.len() && ids[k] == id,
            None => true,
        },
    decreases ids.len(),
{
    if ids.len() > 0 && ids.last() != id {
        lemma_npc_index(ids.drop_last(), id);
    }
}

} // verus!
