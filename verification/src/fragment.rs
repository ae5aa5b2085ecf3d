//! Reassembly of application messages sent in several fragment datagrams.
//!
//! The first fragment of a message starts with its total size (four bytes,
//! big-endian); later fragments carry the rest. Pending messages are keyed
//! by the sequence number of their first fragment.
use std::collections::HashMap;

use vstd::prelude::*;

use crate::bytes::be32_value_at;

verus! {

broadcast use vstd::std_specs::hash::group_hash_axioms;

struct FragmentState {
    total_size: u32,
    data: Vec<u8>,
    received: u32,
}

/// The content of a pending message.
pub struct PendingMessage {
    /// Size announced by the first fragment.
    pub total_size: u32,
    /// Bytes gathered so far.
    pub data: Seq<u8>,
    /// Count of bytes gathered so far, as the reassembler tracks it.
    pub received: u32,
}

impl FragmentState {
    spec fn model(self) -> PendingMessage {
        PendingMessage { total_size: self.total_size, data: self.data@, received: self.received }
    }
}

/// Collects fragments until each message is complete.
pub struct FragmentAssembler {
    fragments: HashMap<u16, FragmentState>,
}

/// How far back from a continuation fragment the first fragment is sought.
pub const FRAGMENT_SEARCH_WINDOW: u16 = 100;

/// `current - dist` with wrap-around.
pub open spec fn seq_back(current: u16, dist: nat) -> u16 {
    if current >= dist {
        (current - dist) as u16
    } else {
        (current + 65536 - dist) as u16
    }
}

/// The nearest pending first-fragment sequence among `current - 1`,
/// `current - 2`, ... `current - 100` (with wrap-around), starting the
/// search at distance `dist`; `current` itself when there is none.
pub open spec fn first_pending_from(pending: Set<u16>, current: u16, dist: nat) -> u16
    decreases 101 - dist,
{
    if dist > 100 {
        current
    } else if pending.contains(seq_back(current, dist)) {
        seq_back(current, dist)
    } else {
        first_pending_from(pending, current, dist + 1)
    }
}

/// The first-fragment sequence a continuation fragment `current` belongs to.
pub open spec fn first_pending(pending: Set<u16>, current: u16) -> u16 {
    first_pending_from(pending, current, 1)
}

/// `data` cut to `len` bytes when it is longer.
pub open spec fn truncated(data: Seq<u8>, len: u32) -> Seq<u8> {
    if len <= data.len() {
        data.take(len as int)
    } else {
        data
    }
}

/// The pending messages after a fragment arrives, and the message it
/// completes, if any.
pub open spec fn add_fragment_spec(
    pending: Map<u16, PendingMessage>,
    sequence: u16,
    data: Seq<u8>,
    is_first: bool,
) -> (Map<u16, PendingMessage>, Option<Seq<u8>>) {
    if is_first && data.len() >= 4 {
        let total_size = be32_value_at(data, 0);
        let payload = data.skip(4);
        if (payload.len() as u32) >= total_size {
            (pending, Some(payload.take(total_size as int)))
        } else {
            (
                pending.insert(
                    sequence,
                    PendingMessage {
                        total_size,
                        data: payload,
                        received: payload.len() as u32,
                    },
                ),
                None,
            )
        }
    } else {
        let first = first_pending(pending.dom(), sequence);
        if !pending.contains_key(first) {
            (pending, None)
        } else {
            let st = pending[first];
            let gathered = st.data + data;
            let received = (st.received + (data.len() as u32)) as u32;
            if received >= st.total_size {
                (pending.remove(first), Some(truncated(gathered, st.total_size)))
            } else {
                (
                    pending.insert(
                        first,
                        PendingMessage { total_size: st.total_size, data: gathered, received },
                    ),
                    None,
                )
            }
        }
    }
}

/// Whether adding the fragment keeps the byte count of its message within
/// 32 bits (the count would overflow otherwise).
pub open spec fn add_fragment_in_range(
    pending: Map<u16, PendingMessage>,
    sequence: u16,
    data: Seq<u8>,
    is_first: bool,
) -> bool {
    !(is_first && data.len() >= 4) ==> {
        let first = first_pending(pending.dom(), sequence);
        pending.contains_key(first) ==> pending[first].received + (data.len() as u32) <= u32::MAX
    }
}

impl View for FragmentAssembler {
    type V = Map<u16, PendingMessage>;

    closed spec fn view(&self) -> Map<u16, PendingMessage> {
        self.fragments@.map_values(|s: FragmentState| s.model())
    }
}

fn copy_range(s: &[u8], start: usize, end: usize) -> (out: Vec<u8>)
    requires
        start <= end <= s@.len(),
    ensures
        out@ == s@.subrange(start as int, end as int),
{
    let mut out: Vec<u8> = Vec::new();
    let mut i = start;
    while i < end
        invariant
            start <= i <= end,
            end <= s@.len(),
            out@ == s@.subrange(start as int, i as int),
        decreases end - i,
    {
        out.push(s[i]);
        i = i + 1;
        assert(out@ =~= s@.subrange(start as int, i as int));
    }
    out
}

impl FragmentAssembler {
    /// An assembler with no pending message.
    pub fn new() -> (a: Self)
        ensures
            a@ == Map::<u16, PendingMessage>::empty(),
    {
        let a = FragmentAssembler { fragments: HashMap::new() };
        assert(a@ =~= Map::<u16, PendingMessage>::empty());
        a
    }

    /// Adds a fragment. A first fragment whose payload already holds the
    /// announced size completes at once; otherwise it opens a pending
    /// message. A continuation fragment is appended to the nearest pending
    /// message at most 100 sequence numbers back, and completes it once the
    /// announced size is reached. Returns the completed message, cut to its
    /// announced size.
    pub fn add_fragment(&mut self, sequence: u16, data: &[u8], is_first: bool) -> (res: Option<
        Vec<u8>,
    >)
        requires
            add_fragment_in_range(old(self)@, sequence, data@, is_first),
        ensures
            final(self)@ == add_fragment_spec(old(self)@, sequence, data@, is_first).0,
            match (res, add_fragment_spec(old(self)@, sequence, data@, is_first).1) {
                (Some(v), Some(w)) => v@ == w,
                (None, None) => true,
                _ => false,
            },
    {
        if is_first && data.len() >= 4 {
            let total_size = (data[0] as u32) * 0x1000000 + (data[1] as u32) * 0x10000
                + (data[2] as u32) * 0x100 + (data[3] as u32);
            let payload = copy_range(data, 4, data.len());
            assert(payload@ =~= data@.skip(4));
            if payload.len() as u32 >= total_size {
                let out = copy_range(payload.as_slice(), 0, total_size as usize);
                assert(out@ =~= payload@.take(total_size as int));
                return Some(out);
            }
            let received = payload.len() as u32;
            let st = FragmentState { total_size, data: payload, received };
            self.fragments.insert(sequence, st);
            proof {
                assert(self@ =~= old(self)@.insert(sequence, st.model()));
            }
            None
        } else {
            let first_seq = self.find_first_sequence(sequence);
            let removed = self.fragments.remove(&first_seq);
            match removed {
                None => {
                    assert(self@ =~= old(self)@);
                    None
                },
                Some(state) => {
                    let mut state = state;
                    let ghost before = state.model();
                    let mut i: usize = 0;
                    while i < data.len()
                        invariant
                            i <= data@.len(),
                            state.data@ == before.data + data@.take(i as int),
                            state.total_size == before.total_size,
                            state.received == before.received,
                        decreases data@.len() - i,
                    {
                        state.data.push(data[i]);
                        i = i + 1;
                        assert(state.data@ =~= before.data + data@.take(i as int));
                    }
                    assert(data@.take(i as int) =~= data@);
                    state.received = state.received + data.len() as u32;
                    if state.received >= state.total_size {
                        let total = state.total_size;
                        let mut result = state.data;
                        result.truncate(total as usize);
                        proof {
                            assert(self@ =~= old(self)@.remove(first_seq));
                            if total as int <= before.data.len() + data@.len() {
                                assert(result@ =~= (before.data + data@).take(total as int));
                            }
                        }
                        Some(result)
                    } else {
                        let ghost m = state.model();
                        self.fragments.insert(first_seq, state);
                        assert(self@ =~= old(self)@.insert(first_seq, m));
                        None
                    }
                },
            }
        }
    }

    fn find_first_sequence(&self, current: u16) -> (first: u16)
        ensures
            first == first_pending(self@.dom(), current),
    {
        let mut dist: u16 = 1;
        while dist <= FRAGMENT_SEARCH_WINDOW
            invariant
                1 <= dist <= 101,
                first_pending_from(self@.dom(), current, 1) == first_pending_from(
                    self@.dom(),
                    current,
                    dist as nat,
                ),
            decreases 101 - dist,
        {
            let candidate = current.wrapping_sub(dist);
            assert(candidate == seq_back(current, dist as nat));
            if self.fragments.contains_key(&candidate) {
                assert(self@.dom().contains(candidate));
                return candidate;
            }
            assert(!self@.dom().contains(candidate));
            dist = dist + 1;
        }
        current
    }

    /// Whether the reassembler can take `data` under `sequence` without its
    /// byte count overflowing.
    pub fn accepts(&self, sequence: u16, data: &[u8], is_first: bool) -> (ok: bool)
        ensures
            ok == add_fragment_in_range(self@, sequence, data@, is_first),
    {
        if is_first && data.len() >= 4 {
            return true;
        }
        let first = self.find_first_sequence(sequence);
        match self.fragments.get(&first) {
            Some(st) => {
                assert(self@.contains_key(first));
                assert(self@[first] == st.model());
                let dl = data.len() as u32;
                (st.received as u64) + (dl as u64) <= 0xFFFF_FFFF
            },
            None => {
                assert(!self@.contains_key(first));
                true
            },
        }
    }

    /// Number of messages still waiting for fragments.
    pub fn pending_count(&self) -> (n: usize)
        ensures
            n == self@.len(),
    {
        assert(self@.dom() =~= self.fragments@.dom());
        self.fragments.len()
    }
}

/// Law: a first fragment that already carries its whole message completes
/// it, and leaves the pending messages as they were.
pub proof fn law_single_fragment_completes(
    pending: Map<u16, PendingMessage>,
    sequence: u16,
    payload: Seq<u8>,
    total_size: u32,
)
    requires
        payload.len() == total_size,
    ensures
        add_fragment_spec(pending, sequence, crate::bytes::be32(total_size) + payload, true)
            == (pending, Some(payload)),
{
    let data = crate::bytes::be32(total_size) + payload;
    crate::bytes::lemma_be32_round_trip(total_size);
    assert(data.skip(4) =~= payload);
    assert(be32_value_at(data, 0) == be32_value_at(crate::bytes::be32(total_size), 0));
    assert(payload.take(total_size as int) =~= payload);
}

/// Law: when no message is pending, a first fragment carrying part of a
/// message and the continuation that follows it yield the whole message,
/// and nothing stays pending.
pub proof fn law_two_fragment_assembly(
    sequence: u16,
    head: Seq<u8>,
    tail: Seq<u8>,
    total_size: u32,
)
    requires
        head.len() < total_size,
        head.len() + tail.len() == total_size,
    ensures
        ({
            let (m1, r1) = add_fragment_spec(
                Map::empty(),
                sequence,
                crate::bytes::be32(total_size) + head,
                true,
            );
            let (m2, r2) = add_fragment_spec(m1, seq_back(sequence, 65535), tail, false);
            r1 is None && r2 == Some(head + tail) && m2 == Map::<u16, PendingMessage>::empty()
        }),
{
    let data = crate::bytes::be32(total_size) + head;
    crate::bytes::lemma_be32_round_trip(total_size);
    assert(data.skip(4) =~= head);
    assert(be32_value_at(data, 0) == be32_value_at(crate::bytes::be32(total_size), 0));
    let m1 = Map::<u16, PendingMessage>::empty().insert(
        sequence,
        PendingMessage { total_size, data: head, received: head.len() as u32 },
    );
    let next = seq_back(sequence, 65535);
    assert(seq_back(next, 1) == sequence);
    assert(m1.dom().contains(seq_back(next, 1)));
    assert(first_pending(m1.dom(), next) == sequence);
    assert(truncated(head + tail, total_size) =~= head + tail);
    assert(m1.remove(sequence) =~= Map::<u16, PendingMessage>::empty());
}

/// The sequence number `k` places after `s`, wrapping around.
pub open spec fn seq_ahead(s: u16, k: nat) -> u16 {
    ((s as int + k) % 65536) as u16
}

/// All bytes of a list of fragments, in order.
pub open spec fn concat_all(parts: Seq<Seq<u8>>) -> Seq<u8>
    decreases parts.len(),
{
    if parts.len() == 0 {
        Seq::empty()
    } else {
        concat_all(parts.drop_last()) + parts.last()
    }
}

/// Feeds continuation fragments, the `j`-th (from 0) under the sequence
/// number `j + 1` places after `first`: the pending messages afterwards,
/// and what each fragment completed.
pub open spec fn feed_continuations(
    pending: Map<u16, PendingMessage>,
    first: u16,
    tails: Seq<Seq<u8>>,
) -> (Map<u16, PendingMessage>, Seq<Option<Seq<u8>>>)
    decreases tails.len(),
{
    if tails.len() == 0 {
        (pending, Seq::empty())
    } else {
        let (m, outs) = feed_continuations(pending, first, tails.drop_last());
        let (m2, r) = add_fragment_spec(m, seq_ahead(first, tails.len()), tails.last(), false);
        (m2, outs.push(r))
    }
}

proof fn lemma_back_to_first(first: u16, k: nat, d: nat)
    requires
        1 <= d <= k <= 100,
    ensures
        first_pending_from(set![first], seq_ahead(first, k), d) == first,
    decreases k - d,
{
    let cur = seq_ahead(first, k);
    if d == k {
        assert(seq_back(cur, d) == first);
    } else {
        assert(seq_back(cur, d) != first);
        lemma_back_to_first(first, k, d + 1);
    }
}

/// What is pending while a message started under `first` has gathered
/// `data`.
pub open spec fn gathering(first: u16, total_size: u32, data: Seq<u8>) -> Map<u16, PendingMessage> {
    Map::<u16, PendingMessage>::empty().insert(
        first,
        PendingMessage { total_size, data, received: data.len() as u32 },
    )
}

proof fn lemma_feed_prefix(first: u16, head: Seq<u8>, tails: Seq<Seq<u8>>, total_size: u32, j: nat)
    requires
        j < tails.len() <= 100,
        forall|k: int| 0 <= k < tails.len() ==> head.len() + #[trigger] concat_all(tails.take(k)).len() < total_size,
    ensures
        feed_continuations(gathering(first, total_size, head), first, tails.take(j as int)) == (
            gathering(first, total_size, head + concat_all(tails.take(j as int))),
            Seq::new(j, |i: int| None::<Seq<u8>>),
        ),
    decreases j,
{
    let m1 = gathering(first, total_size, head);
    if j == 0 {
        assert(tails.take(0) =~= Seq::<Seq<u8>>::empty());
        assert(head + concat_all(tails.take(0)) =~= head);
        assert(Seq::new(0, |i: int| None::<Seq<u8>>) =~= Seq::<Option<Seq<u8>>>::empty());
    } else {
        let t = tails.take(j as int);
        assert(t.drop_last() =~= tails.take(j - 1));
        lemma_feed_prefix(first, head, tails, total_size, (j - 1) as nat);
        let before = head + concat_all(tails.take(j - 1));
        let m = gathering(first, total_size, before);
        lemma_back_to_first(first, j, 1);
        assert(m.dom() =~= set![first]);
        assert(first_pending(m.dom(), seq_ahead(first, j)) == first);
        assert(concat_all(t) == concat_all(tails.take(j - 1)) + t.last());
        assert(before + t.last() =~= head + concat_all(t));
        assert(head.len() + concat_all(tails.take(j - 1)).len() < total_size);
        assert(head.len() + concat_all(t).len() < total_size);
        assert(Seq::new((j - 1) as nat, |i: int| None::<Seq<u8>>).push(None) =~= Seq::new(
            j,
            |i: int| None::<Seq<u8>>,
        ));
        assert(m.insert(
            first,
            PendingMessage {
                total_size,
                data: before + t.last(),
                received: (before.len() as u32 + (t.last().len() as u32)) as u32,
            },
        ) =~= gathering(first, total_size, head + concat_all(t)));
    }
}

/// Law: a message sent as a first fragment (announcing its size) followed
/// by up to a hundred continuation fragments under the next sequence
/// numbers comes out whole, cut to its announced size, exactly when its
/// last fragment arrives; nothing is pending afterwards.
pub proof fn law_fragments_reassemble(first: u16, head: Seq<u8>, tails: Seq<Seq<u8>>, total_size: u32)
    requires
        1 <= tails.len() <= 100,
        forall|k: int| 0 <= k < tails.len() ==> head.len() + #[trigger] concat_all(tails.take(k)).len() < total_size,
        head.len() + concat_all(tails).len() >= total_size,
        head.len() + concat_all(tails).len() <= u32::MAX,
    ensures
        ({
            let (m1, r1) = add_fragment_spec(
                Map::empty(),
                first,
                crate::bytes::be32(total_size) + head,
                true,
            );
            let (m, outs) = feed_continuations(m1, first, tails);
            &&& r1 is None
            &&& outs.len() == tails.len()
            &&& forall|k: int| 0 <= k < tails.len() - 1 ==> #[trigger] outs[k] is None
            &&& outs.last() == Some((head + concat_all(tails)).take(total_size as int))
            &&& m == Map::<u16, PendingMessage>::empty()
        }),
{
    let data = crate::bytes::be32(total_size) + head;
    crate::bytes::lemma_be32_round_trip(total_size);
    assert(data.skip(4) =~= head);
    assert(be32_value_at(data, 0) == be32_value_at(crate::bytes::be32(total_size), 0));
    assert(concat_all(tails.take(0)) =~= Seq::<u8>::empty()) by {
        assert(tails.take(0) =~= Seq::<Seq<u8>>::empty());
    }
    assert(head.len() < total_size);
    let m1 = gathering(first, total_size, head);
    assert(add_fragment_spec(Map::empty(), first, data, true).0 =~= m1);
    let n = tails.len();
    lemma_feed_prefix(first, head, tails, total_size, (n - 1) as nat);
    assert(tails.take(n as int) =~= tails);
    assert(tails.drop_last() =~= tails.take(n - 1));
    let before = head + concat_all(tails.take(n - 1));
    let m = gathering(first, total_size, before);
    lemma_back_to_first(first, n, 1);
    assert(m.dom() =~= set![first]);
    assert(concat_all(tails) == concat_all(tails.take(n - 1)) + tails.last());
    assert(before + tails.last() =~= head + concat_all(tails));
    assert(m.remove(first) =~= Map::<u16, PendingMessage>::empty());
    assert(truncated(before + tails.last(), total_size) == (head + concat_all(tails)).take(total_size as int));
}

/// Law: while one message, started under `first`, is pending, a
/// continuation fragment arriving `k` sequence numbers later (at most a
/// hundred) is added to it; it completes the message, cut to the announced
/// size, once the announced size is reached, and is otherwise kept.
pub proof fn law_continuation_extends(
    first: u16,
    total_size: u32,
    before: Seq<u8>,
    k: nat,
    tail: Seq<u8>,
)
    requires
        1 <= k <= 100,
        before.len() < total_size,
        before.len() + tail.len() <= u32::MAX,
    ensures
        add_fragment_in_range(gathering(first, total_size, before), seq_ahead(first, k), tail, false),
        add_fragment_spec(gathering(first, total_size, before), seq_ahead(first, k), tail, false) == if before.len()
            + tail.len() >= total_size {
            (Map::<u16, PendingMessage>::empty(), Some((before + tail).take(total_size as int)))
        } else {
            (gathering(first, total_size, before + tail), None::<Seq<u8>>)
        },
{
    let m = gathering(first, total_size, before);
    lemma_back_to_first(first, k, 1);
    assert(m.dom() =~= set![first]);
    assert(first_pending(m.dom(), seq_ahead(first, k)) == first);
    if before.len() + tail.len() >= total_size {
        assert(m.remove(first) =~= Map::<u16, PendingMessage>::empty());
    } else {
        assert(m.insert(
            first,
            PendingMessage {
                total_size,
                data: before + tail,
                received: (before.len() as u32 + (tail.len() as u32)) as u32,
            },
        ) =~= gathering(first, total_size, before + tail));
    }
}

} // verus!
