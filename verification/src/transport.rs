//! How the bridge frames outgoing application messages into session
//! datagrams (whole or in fragments), unpacks combined application
//! messages, and describes datagrams and money amounts for logs and loot.
use vstd::prelude::*;
use vstd::string::StringExecFns;

use crate::bytes::{be16, be32, le16_value_at, push_all, push_u16_be, push_u16_le, push_u32_be, le16};
use crate::codec::{append_crc, compress, compressed_frame, crc_appended};
use crate::opcodes::{messages_view, AppMessage, OP_APP_COMBINED};
use crate::packet::{OP_FRAGMENT, OP_PACKET, OP_SESSION_DISCONNECT};
use crate::session::{seq_next, EqSession};

verus! {

/// The hexadecimal digit for `n` (upper case).
pub open spec fn hex_char(n: int) -> char {
    if n < 10 {
        (48 + n) as char
    } else {
        (55 + n) as char
    }
}

/// The two hexadecimal digits of a byte.
pub open spec fn hex_pair(b: u8) -> Seq<char> {
    seq![hex_char(b as int / 16), hex_char(b as int % 16)]
}

/// The bytes of `s` in hexadecimal, separated by spaces.
pub open spec fn hex_join(s: Seq<u8>) -> Seq<char>
    decreases s.len(),
{
    if s.len() == 0 {
        Seq::empty()
    } else if s.len() == 1 {
        hex_pair(s[0])
    } else {
        hex_join(s.drop_last()) + seq![' '] + hex_pair(s.last())
    }
}

fn hex_digit(n: u8) -> (s: &'static str)
    requires
        n < 16,
    ensures
        s@ == seq![hex_char(n as int)],
{
    proof {
        reveal_strlit("0");
        reveal_strlit("1");
        reveal_strlit("2");
        reveal_strlit("3");
        reveal_strlit("4");
        reveal_strlit("5");
        reveal_strlit("6");
        reveal_strlit("7");
        reveal_strlit("8");
        reveal_strlit("9");
        reveal_strlit("A");
        reveal_strlit("B");
        reveal_strlit("C");
        reveal_strlit("D");
        reveal_strlit("E");
        reveal_strlit("F");
    }
    if n == 0 {
        "0"
    } else if n == 1 {
        "1"
    } else if n == 2 {
        "2"
    } else if n == 3 {
        "3"
    } else if n == 4 {
        "4"
    } else if n == 5 {
        "5"
    } else if n == 6 {
        "6"
    } else if n == 7 {
        "7"
    } else if n == 8 {
        "8"
    } else if n == 9 {
        "9"
    } else if n == 10 {
        "A"
    } else if n == 11 {
        "B"
    } else if n == 12 {
        "C"
    } else if n == 13 {
        "D"
    } else if n == 14 {
        "E"
    } else {
        "F"
    }
}

/// The first 48 bytes of a datagram (all of it when shorter) in
/// hexadecimal, for logs.
pub fn hex_preview(data: &[u8]) -> (s: String)
    ensures
        s@ == hex_join(data@.take(if data@.len() < 48 { data@.len() as int } else { 48 })),
{
    let n: usize = if data.len() < 48 {
        data.len()
    } else {
        48
    };
    let mut s = "".to_owned();
    proof {
        reveal_strlit("");
        reveal_strlit(" ");
        assert(data@.take(0) =~= Seq::<u8>::empty());
        assert(s@ =~= Seq::<char>::empty());
    }
    let mut i: usize = 0;
    while i < n
        invariant
            i <= n,
            n <= data@.len(),
            s@ == hex_join(data@.take(i as int)),
        decreases n - i,
    {
        let b = data[i];
        let ghost before = s@;
        if i > 0 {
            s.append(" ");
        }
        let ghost mid = s@;
        s.append(hex_digit(b / 16));
        s.append(hex_digit(b % 16));
        assert(s@ =~= mid + hex_pair(b));
        proof {
            reveal_strlit(" ");
            let t = data@.take(i as int + 1);
            assert(t.drop_last() =~= data@.take(i as int));
            assert(t.last() == b);
            if i == 0 {
                assert(data@.take(0) =~= Seq::<u8>::empty());
            }
        }
        assert(s@ =~= hex_join(data@.take(i as int + 1)));
        i = i + 1;
    }
    s
}

/// A copper amount split into platinum, gold, silver and copper coins.
pub open spec fn money_split(total_copper: u32) -> (u32, u32, u32, u32) {
    (
        total_copper / 1000,
        (total_copper % 1000) / 100,
        (total_copper % 100) / 10,
        total_copper % 10,
    )
}

/// Splits a copper amount into platinum, gold, silver and copper coins.
pub fn split_money(total_copper: u32) -> (coins: (u32, u32, u32, u32))
    ensures
        coins == money_split(total_copper),
{
    let plat = total_copper / 1000;
    let gold = (total_copper % 1000) / 100;
    let silver = (total_copper % 100) / 10;
    let copper = total_copper % 10;
    (plat, gold, silver, copper)
}

/// The coins of a split are worth the amount split, and gold, silver and
/// copper each number fewer than ten.
pub proof fn law_money_split_preserves_value(total_copper: u32)
    ensures
        ({
            let (p, g, s, c) = money_split(total_copper);
            &&& p * 1000 + g * 100 + s * 10 + c == total_copper
            &&& g < 10
            &&& s < 10
            &&& c < 10
        }),
{
    let t = total_copper as int;
    assert((t % 1000) / 100 < 10) by (nonlinear_arith);
    assert((t % 100) / 10 < 10) by (nonlinear_arith);
    assert((t / 1000) * 1000 + ((t % 1000) / 100) * 100 + ((t % 100) / 10) * 10 + t % 10 == t)
        by (nonlinear_arith);
}

/// The messages packed in the body of a combined application message: each
/// is a length byte, then that many bytes holding a little-endian opcode and
/// the message data. Unpacking stops at a length under two or one that runs
/// past the end.
pub open spec fn combined_parts(data: Seq<u8>) -> Seq<(u16, Seq<u8>)>
    decreases data.len(),
{
    if data.len() == 0 {
        Seq::empty()
    } else {
        let n = data[0] as int;
        let rest = data.skip(1);
        if n > rest.len() || n < 2 {
            Seq::empty()
        } else {
            seq![(le16_value_at(rest, 0), rest.subrange(2, n))] + combined_parts(rest.skip(n))
        }
    }
}

/// The plain application messages an incoming message stands for: itself,
/// or, for a combined message, the messages it packs, each unpacked in turn.
pub open spec fn flattened_messages(opcode: u16, data: Seq<u8>) -> Seq<(u16, Seq<u8>)>
    decreases data.len(), 1int,
{
    if opcode == OP_APP_COMBINED {
        flattened_parts(combined_parts(data), data.len())
    } else {
        seq![(opcode, data)]
    }
}

/// The plain messages of a list of unpacked parts, each shorter than
/// `bound` bytes.
pub open spec fn flattened_parts(parts: Seq<(u16, Seq<u8>)>, bound: nat) -> Seq<(u16, Seq<u8>)>
    decreases bound, 0int, parts.len(),
{
    if parts.len() == 0 {
        Seq::empty()
    } else if parts.last().1.len() < bound {
        flattened_parts(parts.drop_last(), bound) + flattened_messages(parts.last().0, parts.last().1)
    } else {
        Seq::empty()
    }
}

fn copy_bytes(data: &[u8], start: usize, end: usize) -> (out: Vec<u8>)
    requires
        start <= end <= data@.len(),
    ensures
        out@ == data@.subrange(start as int, end as int),
{
    let mut out: Vec<u8> = Vec::new();
    push_all(&mut out, vstd::slice::slice_subrange(data, start, end));
    assert(out@ =~= data@.subrange(start as int, end as int));
    out
}

fn flatten_into(out: &mut Vec<AppMessage>, opcode: u16, data: &[u8])
    ensures
        messages_view(final(out)@) == messages_view(old(out)@) + flattened_messages(opcode, data@),
    decreases data@.len(),
{
    if opcode != OP_APP_COMBINED {
        let payload = copy_bytes(data, 0, data.len());
        assert(payload@ =~= data@);
        out.push(AppMessage { opcode, payload });
        assert(messages_view(out@) =~= messages_view(old(out)@) + flattened_messages(opcode, data@));
        return;
    }
    let ghost bound = data@.len();
    let ghost all = combined_parts(data@);
    let ghost mut done: Seq<(u16, Seq<u8>)> = Seq::empty();
    let mut offset: usize = 0;
    assert(data@.skip(0) =~= data@);
    while offset < data.len()
        invariant_except_break
            offset <= data@.len(),
            bound == data@.len(),
            all == combined_parts(data@),
            all == done + combined_parts(data@.skip(offset as int)),
            forall|k: int| 0 <= k < done.len() ==> (#[trigger] done[k]).1.len() < bound,
            messages_view(out@) == messages_view(old(out)@) + flattened_parts(done, bound),
        ensures
            all == done,
            forall|k: int| 0 <= k < done.len() ==> (#[trigger] done[k]).1.len() < bound,
            messages_view(out@) == messages_view(old(out)@) + flattened_parts(done, bound),
        decreases data@.len() - offset,
    {
        let ghost d = data@.skip(offset as int);
        let sub_len = data[offset] as usize;
        let start = offset + 1;
        if sub_len > data.len() - start || sub_len < 2 {
            assert(combined_parts(d) =~= Seq::<(u16, Seq<u8>)>::empty());
            assert(all =~= done);
            break;
        }
        let sub_opcode: u16 = (data[start + 1] as u16) * 256 + (data[start] as u16);
        let sub = vstd::slice::slice_subrange(data, start + 2, start + sub_len);
        proof {
            let rest = d.skip(1);
            assert(rest =~= data@.skip(start as int));
            assert(rest.skip(sub_len as int) =~= data@.skip(start + sub_len));
            assert(sub@ =~= rest.subrange(2, sub_len as int));
            assert(sub_opcode == le16_value_at(rest, 0));
            let part = (sub_opcode, sub@);
            assert(combined_parts(d) == seq![part] + combined_parts(rest.skip(sub_len as int)));
            assert(all =~= done.push(part) + combined_parts(data@.skip(start + sub_len)));
        }
        flatten_into(out, sub_opcode, sub);
        proof {
            let part = (sub_opcode, sub@);
            let nd = done.push(part);
            assert(nd.drop_last() =~= done);
            assert(nd.last() == part);
            assert(sub@.len() < bound);
            assert(messages_view(out@) =~= messages_view(old(out)@) + flattened_parts(nd, bound));
            done = nd;
        }
        offset = start + sub_len;
    }
}

/// The plain application messages that an incoming message stands for, in
/// order: the message itself, or the messages a combined message packs.
pub fn flatten_app_messages(opcode: u16, data: &[u8]) -> (msgs: Vec<AppMessage>)
    ensures
        messages_view(msgs@) == flattened_messages(opcode, data@),
{
    let mut msgs: Vec<AppMessage> = Vec::new();
    flatten_into(&mut msgs, opcode, data);
    assert(messages_view(msgs@) =~= flattened_messages(opcode, data@));
    msgs
}

/// A payload as framed on the wire: compressed-frame encoded when the
/// session compresses, as is otherwise.
pub open spec fn wire_body(x: Seq<u8>, compressing: bool) -> Seq<u8> {
    if compressing {
        compressed_frame(x)
    } else {
        x
    }
}

/// Bytes of a datagram around its payload: the two header bytes, the
/// sequence number, the compression flag when compressing, and the CRC
/// trailer.
pub open spec fn datagram_overhead(compressing: bool, crc_bytes: u8) -> int {
    2 + (if compressing { 1int } else { 0int }) + 2 + crc_bytes
}

/// The fragment datagrams that carry `payload` from `offset` on: each
/// holds the next chunk (`first_cap` bytes for the first fragment, which
/// also carries the payload's total size, `next_cap` for the others) under
/// its own sequence number.
pub open spec fn fragments_from(
    payload: Seq<u8>,
    offset: nat,
    first: bool,
    sequence: u16,
    first_cap: nat,
    next_cap: nat,
    compressing: bool,
    key: u32,
    crc_bytes: u8,
) -> Seq<Seq<u8>>
    decreases payload.len() - offset,
{
    let cap = if first {
        first_cap
    } else {
        next_cap
    };
    if offset >= payload.len() || cap == 0 {
        Seq::empty()
    } else {
        let end = if offset + cap < payload.len() {
            offset + cap
        } else {
            payload.len()
        };
        let frag = fragment_head(sequence, first, payload.len() as u32) + payload.subrange(
            offset as int,
            end as int,
        );
        seq![crc_appended(seq![0u8, OP_FRAGMENT] + wire_body(frag, compressing), key, crc_bytes)]
            + fragments_from(
            payload,
            end,
            false,
            seq_next(sequence),
            first_cap,
            next_cap,
            compressing,
            key,
            crc_bytes,
        )
    }
}

/// The datagrams that carry an application message (opcode little-endian,
/// then data) for a session whose next sequence number is `sequence`: one
/// sequenced datagram when it fits in `max_packet_size` bytes, fragments
/// otherwise.
pub open spec fn app_datagrams(
    opcode: u16,
    data: Seq<u8>,
    sequence: u16,
    max_packet_size: u32,
    compressing: bool,
    key: u32,
    crc_bytes: u8,
) -> Seq<Seq<u8>> {
    let payload = le16(opcode) + data;
    let overhead = datagram_overhead(compressing, crc_bytes);
    if overhead + payload.len() <= max_packet_size {
        seq![
            crc_appended(
                seq![0u8, OP_PACKET] + be16(sequence) + wire_body(payload, compressing),
                key,
                crc_bytes,
            ),
        ]
    } else {
        fragments_from(
            payload,
            0,
            true,
            sequence,
            (max_packet_size - overhead - 4) as nat,
            (max_packet_size - overhead) as nat,
            compressing,
            key,
            crc_bytes,
        )
    }
}

/// The sequence number `n` steps after `s`, with wrap-around.
pub open spec fn seq_advance(s: u16, n: nat) -> u16
    decreases n,
{
    if n == 0 {
        s
    } else {
        seq_advance(seq_next(s), (n - 1) as nat)
    }
}

fn frame_body(x: Vec<u8>, compressing: bool) -> (out: Vec<u8>)
    ensures
        out@ == wire_body(x@, compressing),
{
    if compressing {
        compress(x.as_slice())
    } else {
        x
    }
}

/// The views of a list of datagrams.
pub open spec fn datagrams_view(d: Seq<Vec<u8>>) -> Seq<Seq<u8>> {
    d.map_values(|v: Vec<u8>| v@)
}

fn framed_datagram(op: u8, body: Vec<u8>, compressing: bool, key: u32, crc: u8) -> (dg: Vec<u8>)
    requires
        crc <= 4,
    ensures
        dg@ == crc_appended(seq![0u8, op] + wire_body(body@, compressing), key, crc),
{
    let framed = frame_body(body, compressing);
    let mut buf: Vec<u8> = Vec::new();
    buf.push(0u8);
    buf.push(op);
    push_all(&mut buf, framed.as_slice());
    assert(buf@ =~= seq![0u8, op] + wire_body(body@, compressing));
    append_crc(&mut buf, key, crc);
    buf
}

/// The head of a fragment: its sequence number, and for the first
/// fragment the total size of the message.
pub open spec fn fragment_head(sequence: u16, first: bool, total: u32) -> Seq<u8> {
    if first {
        be16(sequence) + be32(total)
    } else {
        be16(sequence)
    }
}

fn fragment_datagram(
    sequence: u16,
    first: bool,
    total: u32,
    chunk: &[u8],
    compressing: bool,
    key: u32,
    crc: u8,
) -> (dg: Vec<u8>)
    requires
        crc <= 4,
    ensures
        dg@ == crc_appended(
            seq![0u8, OP_FRAGMENT] + wire_body(fragment_head(sequence, first, total) + chunk@, compressing),
            key,
            crc,
        ),
{
    let mut frag: Vec<u8> = Vec::new();
    push_u16_be(&mut frag, sequence);
    if first {
        push_u32_be(&mut frag, total);
    }
    push_all(&mut frag, chunk);
    assert(frag@ =~= fragment_head(sequence, first, total) + chunk@);
    framed_datagram(OP_FRAGMENT, frag, compressing, key, crc)
}

/// Frames an application message into the datagrams that carry it, taking
/// one sequence number per datagram.
pub fn send_app_packet(session: &mut EqSession, compressing: bool, app_opcode: u16, app_data: &[u8]) -> (datagrams: Vec<Vec<u8>>)
    requires
        old(session).crc_bytes <= 4,
        datagram_overhead(compressing, old(session).crc_bytes) + 2 + app_data@.len()
            <= old(session).max_packet_size || datagram_overhead(compressing, old(session).crc_bytes) + 4
            < old(session).max_packet_size,
        app_data@.len() + 2 <= usize::MAX,
    ensures
        datagrams_view(datagrams@) == app_datagrams(
            app_opcode,
            app_data@,
            old(session).sequence_out,
            old(session).max_packet_size,
            compressing,
            old(session).encode_key,
            old(session).crc_bytes,
        ),
        final(session).sequence_out == seq_advance(old(session).sequence_out, datagrams@.len()),
        final(session).sequence_in == old(session).sequence_in,
        final(session).encode_key == old(session).encode_key,
        final(session).crc_bytes == old(session).crc_bytes,
        final(session).max_packet_size == old(session).max_packet_size,
        final(session).connect_code == old(session).connect_code,
        final(session).state == old(session).state,
        final(session).last_ack_sent == old(session).last_ack_sent,
        final(session).addr == old(session).addr,
        final(session).fragment_assembler@ == old(session).fragment_assembler@,
{
    let mut payload: Vec<u8> = Vec::new();
    push_u16_le(&mut payload, app_opcode);
    push_all(&mut payload, app_data);
    let key = session.encode_key;
    let crc = session.crc_bytes;
    let max = session.max_packet_size as usize;
    let overhead: usize = 2 + (if compressing { 1usize } else { 0usize }) + 2 + crc as usize;
    let mut datagrams: Vec<Vec<u8>> = Vec::new();
    if overhead <= max && payload.len() <= max - overhead {
        let seq = session.next_sequence_out();
        let body = frame_body(payload, compressing);
        let mut buf: Vec<u8> = Vec::new();
        buf.push(0u8);
        buf.push(OP_PACKET);
        push_u16_be(&mut buf, seq);
        push_all(&mut buf, body.as_slice());
        assert(buf@ =~= seq![0u8, OP_PACKET] + be16(seq) + wire_body(payload@, compressing));
        append_crc(&mut buf, key, crc);
        datagrams.push(buf);
        proof {
            reveal_with_fuel(seq_advance, 2);
        }
        assert(datagrams_view(datagrams@) =~= app_datagrams(
            app_opcode,
            app_data@,
            old(session).sequence_out,
            old(session).max_packet_size,
            compressing,
            key,
            crc,
        ));
        return datagrams;
    }
    let total: u32 = payload.len() as u32;
    let first_cap = max - overhead - 4;
    let next_cap = max - overhead;
    let ghost all = fragments_from(
        payload@,
        0,
        true,
        old(session).sequence_out,
        first_cap as nat,
        next_cap as nat,
        compressing,
        key,
        crc,
    );
    let mut offset: usize = 0;
    while offset < payload.len()
        invariant
            offset <= payload@.len(),
            first_cap > 0,
            next_cap > 0,
            first_cap == max - overhead - 4,
            next_cap == max - overhead,
            total == payload@.len() as u32,
            key == session.encode_key,
            crc == session.crc_bytes,
            crc <= 4,
            session.sequence_in == old(session).sequence_in,
            session.encode_key == old(session).encode_key,
            session.crc_bytes == old(session).crc_bytes,
            session.max_packet_size == old(session).max_packet_size,
            session.connect_code == old(session).connect_code,
            session.state == old(session).state,
            session.last_ack_sent == old(session).last_ack_sent,
            session.addr == old(session).addr,
            session.fragment_assembler@ == old(session).fragment_assembler@,
            session.sequence_out == seq_advance(old(session).sequence_out, datagrams@.len()),
            all == datagrams_view(datagrams@) + fragments_from(
                payload@,
                offset as nat,
                offset == 0,
                session.sequence_out,
                first_cap as nat,
                next_cap as nat,
                compressing,
                key,
                crc,
            ),
        decreases payload@.len() - offset,
    {
        let is_first = offset == 0;
        let cap = if is_first {
            first_cap
        } else {
            next_cap
        };
        let end = if cap < payload.len() - offset {
            offset + cap
        } else {
            payload.len()
        };
        let ghost seq_before = session.sequence_out;
        let ghost done_before = datagrams_view(datagrams@);
        let seq = session.next_sequence_out();
        let chunk = vstd::slice::slice_subrange(payload.as_slice(), offset, end);
        let dg = fragment_datagram(seq, is_first, total, chunk, compressing, key, crc);
        let ghost dgv = dg@;
        datagrams.push(dg);
        proof {
            assert(datagrams_view(datagrams@) =~= done_before.push(dgv));
            lemma_seq_advance_step(old(session).sequence_out, done_before.len());
        }
        offset = end;
    }
    assert(fragments_from(
        payload@,
        offset as nat,
        offset == 0,
        session.sequence_out,
        first_cap as nat,
        next_cap as nat,
        compressing,
        key,
        crc,
    ) =~= Seq::<Seq<u8>>::empty());
    assert(datagrams_view(datagrams@) =~= all);
    datagrams
}

proof fn lemma_seq_advance_step(s: u16, n: nat)
    ensures
        seq_advance(s, n + 1) == seq_next(seq_advance(s, n)),
    decreases n,
{
    reveal_with_fuel(seq_advance, 2);
    if n > 0 {
        lemma_seq_advance_step(seq_next(s), (n - 1) as nat);
    }
}

/// Frames a session-layer datagram for sending: the body after the two
/// header bytes is compressed when the session compresses (and there is a
/// body), then the CRC trailer is appended.
pub open spec fn proto_datagram(data: Seq<u8>, compressing: bool, key: u32, crc_bytes: u8) -> Seq<u8> {
    let framed = if compressing && data.len() > 2 {
        data.take(2) + compressed_frame(data.skip(2))
    } else {
        data
    };
    crc_appended(framed, key, crc_bytes)
}

/// Frames a session-layer datagram (acknowledgement, keep-alive) for sending.
pub fn send_proto_packet(session: &EqSession, compressing: bool, data: &[u8]) -> (buf: Vec<u8>)
    requires
        session.crc_bytes <= 4,
    ensures
        buf@ == proto_datagram(data@, compressing, session.encode_key, session.crc_bytes),
{
    let mut buf: Vec<u8>;
    if compressing && data.len() > 2 {
        buf = copy_bytes(data, 0, 2);
        let body = compress(vstd::slice::slice_subrange(data, 2, data.len()));
        push_all(&mut buf, body.as_slice());
        assert(data@.skip(2) =~= data@.subrange(2, data@.len() as int));
    } else {
        buf = copy_bytes(data, 0, data.len());
        assert(buf@ =~= data@);
    }
    append_crc(&mut buf, session.encode_key, session.crc_bytes);
    buf
}

/// The datagram that ends a session: the disconnect header, the session's
/// connect code (big-endian) and the CRC trailer.
pub open spec fn disconnect_datagram(connect_code: u32, key: u32, crc_bytes: u8) -> Seq<u8> {
    crc_appended(seq![0u8, OP_SESSION_DISCONNECT] + be32(connect_code), key, crc_bytes)
}

/// Builds the datagram that ends a session.
pub fn build_disconnect(session: &EqSession) -> (buf: Vec<u8>)
    requires
        session.crc_bytes <= 4,
    ensures
        buf@ == disconnect_datagram(session.connect_code, session.encode_key, session.crc_bytes),
{
    let mut buf: Vec<u8> = Vec::new();
    buf.push(0u8);
    buf.push(OP_SESSION_DISCONNECT);
    push_u32_be(&mut buf, session.connect_code);
    assert(buf@ =~= seq![0u8, OP_SESSION_DISCONNECT] + be32(session.connect_code));
    append_crc(&mut buf, session.encode_key, session.crc_bytes);
    buf
}

} // verus!
