//! An NPC's hate list: how much each attacker is hated, and how much damage
//! each has dealt. The most hated entity is the NPC's target.
use vstd::prelude::*;

verus! {

/// One entity on a hate list.
#[derive(Debug, Clone, Copy, PartialEq, Eq)]
pub struct HateEntry {
    pub entity_id: u32,
    pub hate: i64,
    pub damage: i64,
}

/// The entities an NPC hates, in the order they were first added.
#[derive(Debug)]
pub struct HateList {
    entries: Vec<HateEntry>,
}

impl View for HateList {
    type V = Seq<HateEntry>;

    closed spec fn view(&self) -> Seq<HateEntry> {
        self.entries@
    }
}

/// Index of the first entry for `id`, or -1 when there is none.
pub open spec fn position_of(s: Seq<HateEntry>, id: u32) -> int
    decreases s.len(),
{
    if s.len() == 0 {
        -1
    } else {
        let p = position_of(s.drop_last(), id);
        if p >= 0 {
            p
        } else if s.last().entity_id == id {
            s.len() - 1
        } else {
            -1
        }
    }
}

/// Index of the entry with the greatest hate; the last such one when
/// several share it. Meaningless for an empty list.
pub open spec fn top_index(s: Seq<HateEntry>) -> int
    decreases s.len(),
{
    if s.len() <= 1 {
        0
    } else {
        let k = top_index(s.drop_last());
        if s.last().hate >= s[k].hate {
            s.len() - 1
        } else {
            k
        }
    }
}

/// The list without any entry for `id`, others kept in order.
pub open spec fn without(s: Seq<HateEntry>, id: u32) -> Seq<HateEntry>
    decreases s.len(),
{
    if s.len() == 0 {
        s
    } else if s.last().entity_id == id {
        without(s.drop_last(), id)
    } else {
        without(s.drop_last(), id).push(s.last())
    }
}

/// The list after `amount` hate (and, with `with_damage`, as much damage)
/// is added for `id`: added to its entry, or appended as a new entry.
pub open spec fn with_hate(s: Seq<HateEntry>, id: u32, amount: i64, with_damage: bool) -> Seq<HateEntry> {
    let p = position_of(s, id);
    if p >= 0 {
        s.update(
            p,
            HateEntry {
                entity_id: id,
                hate: (s[p].hate + amount) as i64,
                damage: if with_damage {
                    (s[p].damage + amount) as i64
                } else {
                    s[p].damage
                },
            },
        )
    } else {
        s.push(HateEntry { entity_id: id, hate: amount, damage: if with_damage { amount } else { 0 } })
    }
}

/// The hate recorded for `id`; 0 when it is not on the list.
pub open spec fn hate_of(s: Seq<HateEntry>, id: u32) -> i64 {
    let p = position_of(s, id);
    if p >= 0 {
        s[p].hate
    } else {
        0
    }
}

/// Whether adding `amount` for `id` keeps hate (and damage) within `i64`.
pub open spec fn add_in_range(s: Seq<HateEntry>, id: u32, amount: i64, with_damage: bool) -> bool {
    let p = position_of(s, id);
    p >= 0 ==> {
        &&& i64::MIN <= s[p].hate + amount <= i64::MAX
        &&& with_damage ==> i64::MIN <= s[p].damage + amount <= i64::MAX
    }
}

proof fn lemma_position_bounds(s: Seq<HateEntry>, id: u32)
    ensures
        -1 <= position_of(s, id) < s.len(),
        position_of(s, id) >= 0 ==> s[position_of(s, id)].entity_id == id,
        position_of(s, id) >= 0 ==> forall|j: int|
            0 <= j < position_of(s, id) ==> s[j].entity_id != id,
        position_of(s, id) < 0 ==> forall|j: int| 0 <= j < s.len() ==> s[j].entity_id != id,
    decreases s.len(),
{
    if s.len() > 0 {
        let d = s.drop_last();
        lemma_position_bounds(d, id);
        assert(forall|j: int| 0 <= j < d.len() ==> d[j] == s[j]);
    }
}

proof fn lemma_position_prefix(s: Seq<HateEntry>, id: u32, k: int)
    requires
        0 <= k <= s.len(),
        position_of(s.take(k), id) >= 0,
    ensures
        position_of(s, id) == position_of(s.take(k), id),
    decreases s.len() - k,
{
    if k < s.len() {
        assert(s.take(k + 1).drop_last() =~= s.take(k));
        lemma_position_prefix(s, id, k + 1);
    } else {
        assert(s.take(k) =~= s);
    }
}

proof fn lemma_position_step(s: Seq<HateEntry>, id: u32, i: int)
    requires
        0 <= i < s.len(),
        position_of(s.take(i), id) < 0,
    ensures
        s[i].entity_id == id ==> position_of(s.take(i + 1), id) == i,
        s[i].entity_id != id ==> position_of(s.take(i + 1), id) < 0,
{
    assert(s.take(i + 1).drop_last() =~= s.take(i));
}

proof fn lemma_top_index_bounds(s: Seq<HateEntry>)
    requires
        s.len() > 0,
    ensures
        0 <= top_index(s) < s.len(),
        forall|j: int| 0 <= j < s.len() ==> #[trigger] s[j].hate <= s[top_index(s)].hate,
        forall|j: int| top_index(s) < j < s.len() ==> #[trigger] s[j].hate < s[top_index(s)].hate,
    decreases s.len(),
{
    if s.len() > 1 {
        let d = s.drop_last();
        lemma_top_index_bounds(d);
        assert(forall|j: int| 0 <= j < d.len() ==> d[j] == s[j]);
    }
}

impl HateList {
    fn find(&self, entity_id: u32) -> (p: Option<usize>)
        ensures
            match p {
                Some(i) => position_of(self@, entity_id) == i,
                None => position_of(self@, entity_id) == -1,
            },
    {
        let mut i: usize = 0;
        proof {
            assert(self@.take(0) =~= Seq::<HateEntry>::empty());
        }
        while i < self.entries.len()
            invariant
                i <= self@.len(),
                position_of(self@.take(i as int), entity_id) < 0,
            decreases self@.len() - i,
        {
            proof {
                lemma_position_step(self@, entity_id, i as int);
            }
            if self.entries[i].entity_id == entity_id {
                proof {
                    lemma_position_prefix(self@, entity_id, i + 1);
                }
                return Some(i);
            }
            i = i + 1;
        }
        proof {
            assert(self@.take(i as int) =~= self@);
            lemma_position_bounds(self@, entity_id);
        }
        None
    }

    /// Adds `amount` hate for `entity_id`, adding it to the list when absent.
    pub fn add_hate(&mut self, entity_id: u32, amount: i64)
        requires
            add_in_range(old(self)@, entity_id, amount, false),
        ensures
            final(self)@ == with_hate(old(self)@, entity_id, amount, false),
    {
        proof {
            lemma_position_bounds(self@, entity_id);
        }
        match self.find(entity_id) {
            Some(i) => {
                let e = self.entries[i];
                let updated = HateEntry { entity_id, hate: e.hate + amount, damage: e.damage };
                self.entries.set(i, updated);
            },
            None => {
                self.entries.push(HateEntry { entity_id, hate: amount, damage: 0 });
            },
        }
    }

    /// Adds `amount` damage, and as much hate, for `entity_id`, adding it
    /// to the list when absent.
    pub fn add_damage(&mut self, entity_id: u32, amount: i64)
        requires
            add_in_range(old(self)@, entity_id, amount, true),
        ensures
            final(self)@ == with_hate(old(self)@, entity_id, amount, true),
    {
        proof {
            lemma_position_bounds(self@, entity_id);
        }
        match self.find(entity_id) {
            Some(i) => {
                let e = self.entries[i];
                let updated = HateEntry {
                    entity_id,
                    hate: e.hate + amount,
                    damage: e.damage + amount,
                };
                self.entries.set(i, updated);
            },
            None => {
                self.entries.push(HateEntry { entity_id, hate: amount, damage: amount });
            },
        }
    }

    /// Removes every entry for `entity_id`.
    pub fn remove(&mut self, entity_id: u32)
        ensures
            final(self)@ == without(old(self)@, entity_id),
    {
        let mut kept: Vec<HateEntry> = Vec::new();
        let mut i: usize = 0;
        while i < self.entries.len()
            invariant
                i <= self@.len(),
                self@ == old(self)@,
                kept@ == without(self@.take(i as int), entity_id),
            decreases self@.len() - i,
        {
            let e = self.entries[i];
            proof {
                assert(self@.take(i + 1).drop_last() =~= self@.take(i as int));
            }
            if e.entity_id != entity_id {
                kept.push(e);
            }
            i = i + 1;
        }
        proof {
            assert(self@.take(i as int) =~= self@);
        }
        self.entries = kept;
    }

    /// The most hated entity; the latest added among equals.
    pub fn top_target(&self) -> (t: Option<u32>)
        ensures
            self@.len() == 0 ==> t is None,
            self@.len() > 0 ==> t == Some(self@[top_index(self@)].entity_id),
    {
        if self.entries.len() == 0 {
            return None;
        }
        let mut best: usize = 0;
        let mut i: usize = 1;
        proof {
            assert(self@.take(1).drop_last().len() == 0);
        }
        while i < self.entries.len()
            invariant
                1 <= i <= self@.len(),
                best == top_index(self@.take(i as int)),
                best < i,
            decreases self@.len() - i,
        {
            proof {
                assert(self@.take(i + 1).drop_last() =~= self@.take(i as int));
            }
            if self.entries[i].hate >= self.entries[best].hate {
                best = i;
            }
            i = i + 1;
        }
        proof {
            assert(self@.take(i as int) =~= self@);
        }
        Some(self.entries[best].entity_id)
    }

    /// Whether nobody is on the list.
    pub fn is_empty(&self) -> (b: bool)
        ensures
            b == (self@.len() == 0),
    {
        self.entries.len() == 0
    }

    /// Forgets everybody.
    pub fn clear(&mut self)
        ensures
            final(self)@ == Seq::<HateEntry>::empty(),
    {
        self.entries.clear();
    }

    /// Number of entries.
    pub fn len(&self) -> (n: usize)
        ensures
            n == self@.len(),
    {
        self.entries.len()
    }

    /// Whether `entity_id` is on the list.
    pub fn contains(&self, entity_id: u32) -> (b: bool)
        ensures
            b == (position_of(self@, entity_id) >= 0),
    {
        self.find(entity_id).is_some()
    }

    /// The hate recorded for `entity_id`, 0 when absent.
    pub fn total_hate_for(&self, entity_id: u32) -> (h: i64)
        ensures
            h == hate_of(self@, entity_id),
    {
        proof {
            lemma_position_bounds(self@, entity_id);
        }
        match self.find(entity_id) {
            Some(i) => self.entries[i].hate,
            None => 0,
        }
    }
}

impl Default for HateList {
    fn default() -> (list: Self)
        ensures
            list@ == Seq::<HateEntry>::empty(),
    {
        HateList { entries: Vec::new() }
    }
}

/// Law: hate added for an entity accumulates on its entry, and nobody
/// else's hate changes.
pub proof fn law_hate_accumulates(s: Seq<HateEntry>, id: u32, amount: i64, other: u32)
    requires
        add_in_range(s, id, amount, false),
        other != id,
    ensures
        hate_of(with_hate(s, id, amount, false), id) == hate_of(s, id) + amount,
        hate_of(with_hate(s, id, amount, false), other) == hate_of(s, other),
        position_of(with_hate(s, id, amount, false), id) >= 0,
{
    lemma_position_bounds(s, id);
    lemma_position_bounds(s, other);
    let t = with_hate(s, id, amount, false);
    let p = position_of(s, id);
    if p >= 0 {
        lemma_same_ids_same_positions(s, t, id);
        lemma_same_ids_same_positions(s, t, other);
    } else {
        lemma_push_position(s, t.last(), id);
        lemma_push_position(s, t.last(), other);
    }
}

/// Law: damage counts as hate.
pub proof fn law_damage_is_hate(s: Seq<HateEntry>, id: u32, amount: i64)
    requires
        add_in_range(s, id, amount, true),
    ensures
        hate_of(with_hate(s, id, amount, true), id) == hate_of(s, id) + amount,
{
    lemma_position_bounds(s, id);
    let t = with_hate(s, id, amount, true);
    if position_of(s, id) >= 0 {
        lemma_same_ids_same_positions(s, t, id);
    } else {
        lemma_push_position(s, t.last(), id);
    }
}

/// Law: the top target is hated at least as much as anyone on the list.
pub proof fn law_top_is_most_hated(s: Seq<HateEntry>, j: int)
    requires
        0 <= j < s.len(),
    ensures
        s[j].hate <= s[top_index(s)].hate,
        0 <= top_index(s) < s.len(),
{
    lemma_top_index_bounds(s);
}

/// Law: after removal the entity is no longer on the list, and every other
/// entry keeps its order.
pub proof fn law_removed_is_gone(s: Seq<HateEntry>, id: u32)
    ensures
        position_of(without(s, id), id) < 0,
        forall|k: int|
            0 <= k < without(s, id).len() ==> without(s, id)[k].entity_id != id,
    decreases s.len(),
{
    if s.len() > 0 {
        law_removed_is_gone(s.drop_last(), id);
    }
    lemma_position_bounds(without(s, id), id);
    lemma_without_ids(s, id);
}

proof fn lemma_without_ids(s: Seq<HateEntry>, id: u32)
    ensures
        forall|k: int| 0 <= k < without(s, id).len() ==> without(s, id)[k].entity_id != id,
    decreases s.len(),
{
    if s.len() > 0 {
        let d = s.drop_last();
        lemma_without_ids(d, id);
        let w = without(d, id);
        if s.last().entity_id != id {
            assert(forall|k: int| 0 <= k < w.len() ==> w.push(s.last())[k] == w[k]);
        }
    }
}

proof fn lemma_same_ids_same_positions(s: Seq<HateEntry>, t: Seq<HateEntry>, id: u32)
    requires
        s.len() == t.len(),
        forall|k: int| 0 <= k < s.len() ==> s[k].entity_id == t[k].entity_id,
    ensures
        position_of(s, id) == position_of(t, id),
    decreases s.len(),
{
    if s.len() > 0 {
        lemma_same_ids_same_positions(s.drop_last(), t.drop_last(), id);
    }
}

proof fn lemma_push_position(s: Seq<HateEntry>, e: HateEntry, id: u32)
    requires
        position_of(s, id) < 0 || e.entity_id != id,
    ensures
        position_of(s, id) >= 0 ==> position_of(s.push(e), id) == position_of(s, id),
        position_of(s, id) < 0 ==> position_of(s.push(e), id) == if e.entity_id == id {
            s.len() as int
        } else {
            -1
        },
{
    assert(s.push(e).drop_last() =~= s);
}

} // verus!
