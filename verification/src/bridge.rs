//! What the bridge does with each datagram a client sends: opening a
//! session on a session request, and for an open session, checking and
//! decoding the datagram, acknowledging sequenced messages, reassembling
//! fragments and handing the application messages on.
use vstd::prelude::*;

use crate::bytes::{be16, le16_value_at, lemma_be16_round_trip, push_all};
use crate::codec::{
    crc32_ieee, crc_appended, crc_checked, crc_trailer, decoded_frame, decompress, law_crc_round_trip,
    verify_and_strip_crc,
};
use crate::fragment::{
    add_fragment_in_range, add_fragment_spec, concat_all, gathering, law_continuation_extends, seq_ahead,
    PendingMessage,
};
use crate::packet::{
    build_ack, build_keep_alive, build_session_response_with_pass, parse_protocol_packet, parse_result_view,
    parse_spec, session_response_with_pass, PacketError, PacketModel, ProtocolPacket, OP_ACK,
    OP_FRAGMENT, OP_KEEP_ALIVE, OP_PACKET,
    OP_OUT_OF_SESSION, OP_SESSION_REQUEST, OP_SESSION_RESPONSE,
};
use crate::session::{decode_spec, seq_next, EqSession, PeerAddr, MAX_DATAGRAM};
use crate::transport::{proto_datagram, send_proto_packet};

verus! {

/// Which server a client is talking to.
#[derive(Debug, Clone, Copy, PartialEq, Eq)]
pub enum ConnectionPhase {
    Login,
    World,
    Zone,
}

/// CRC trailer length of a phase: none for login, two bytes otherwise.
pub open spec fn phase_crc_bytes(phase: ConnectionPhase) -> u8 {
    if phase == ConnectionPhase::Login {
        0
    } else {
        2
    }
}

/// Encode key of a phase: all ones for the zone, zero otherwise.
pub open spec fn phase_encode_key(phase: ConnectionPhase) -> u32 {
    if phase == ConnectionPhase::Zone {
        0xFFFF_FFFF
    } else {
        0
    }
}

/// Whether a phase compresses its payloads: only the zone does.
pub open spec fn phase_compresses(phase: ConnectionPhase) -> bool {
    phase == ConnectionPhase::Zone
}

/// An open session and whether it compresses payloads.
pub struct Connection {
    pub session: EqSession,
    pub compress: bool,
}

/// The session a session request opens, with the reply to send: the
/// phase's CRC length, encode key and compression (announced as the
/// first encode pass only where the phase compresses), and the requested
/// packet size capped at [`MAX_DATAGRAM`]. Other datagrams open nothing.
pub fn open_session(phase: ConnectionPhase, addr: PeerAddr, raw: &[u8]) -> (r: Option<(Connection, Vec<u8>)>)
    ensures
        match parse_spec(raw@) {
            Ok(PacketModel::SessionRequest { protocol_version, connect_code, max_packet_size }) => {
                &&& r is Some
                &&& {
                    let (c, reply) = r->0;
                    let max = if max_packet_size < MAX_DATAGRAM {
                        max_packet_size
                    } else {
                        MAX_DATAGRAM
                    };
                    &&& c.session.addr == addr
                    &&& c.session.connect_code == connect_code
                    &&& c.session.crc_bytes == phase_crc_bytes(phase)
                    &&& c.session.encode_key == phase_encode_key(phase)
                    &&& c.session.max_packet_size == max
                    &&& c.session.sequence_in == 0
                    &&& c.session.sequence_out == 0
                    &&& c.session.fragment_assembler@ == Map::<u16, PendingMessage>::empty()
                    &&& c.compress == phase_compresses(phase)
                    &&& reply@ == session_response_with_pass(
                        connect_code,
                        phase_encode_key(phase),
                        phase_crc_bytes(phase),
                        max,
                        if phase_compresses(phase) { 1u8 } else { 0u8 },
                    )
                }
            },
            _ => r is None,
        },
{
    match parse_protocol_packet(raw) {
        Ok(ProtocolPacket::SessionRequest { protocol_version, connect_code, max_packet_size }) => {
            let mut session = EqSession::new(addr, connect_code, max_packet_size);
            let crc: u8 = match phase {
                ConnectionPhase::Login => 0,
                _ => 2,
            };
            let key: u32 = match phase {
                ConnectionPhase::Zone => 0xFFFF_FFFF,
                _ => 0,
            };
            session.crc_bytes = crc;
            session.encode_key = key;
            let compress = match phase {
                ConnectionPhase::Zone => true,
                _ => false,
            };
            let pass1: u8 = if compress { 1 } else { 0 };
            let reply = build_session_response_with_pass(connect_code, key, crc, session.max_packet_size, pass1);
            Some((Connection { session, compress }, reply))
        },
        _ => None,
    }
}

/// What a datagram asks of the bridge.
pub enum Inbound {
    /// Handle an application message.
    App { opcode: u16, data: Vec<u8> },
    /// Send this datagram back.
    Send { datagram: Vec<u8> },
    /// The client ended the session.
    Closed,
}

/// The content of an [`Inbound`].
pub enum InboundView {
    App { opcode: u16, data: Seq<u8> },
    Send { datagram: Seq<u8> },
    Closed,
}

impl View for Inbound {
    type V = InboundView;

    open spec fn view(&self) -> InboundView {
        match self {
            Inbound::App { opcode, data } => InboundView::App { opcode: *opcode, data: data@ },
            Inbound::Send { datagram } => InboundView::Send { datagram: datagram@ },
            Inbound::Closed => InboundView::Closed,
        }
    }
}

/// The contents of a list of [`Inbound`]s.
pub open spec fn inbound_view(v: Seq<Inbound>) -> Seq<InboundView> {
    v.map_values(|x: Inbound| x@)
}

/// The receiving side of a session: the next expected sequence number and
/// the messages waiting for fragments.
pub struct LinkState {
    pub sequence_in: u16,
    pub pending: Map<u16, PendingMessage>,
}

/// The receiving side of a connection.
pub open spec fn link_state(c: Connection) -> LinkState {
    LinkState { sequence_in: c.session.sequence_in, pending: c.session.fragment_assembler@ }
}

/// How a session encodes what it sends: compression, encode key and CRC length.
pub struct LinkCodec {
    pub compress: bool,
    pub key: u32,
    pub crc_bytes: u8,
}

/// The sending parameters of a connection.
pub open spec fn link_codec(c: Connection) -> LinkCodec {
    LinkCodec { compress: c.compress, key: c.session.encode_key, crc_bytes: c.session.crc_bytes }
}

/// The application message a message body holds: its opcode
/// (little-endian) and the rest, when it has at least two bytes.
pub open spec fn app_events(data: Seq<u8>) -> Seq<InboundView> {
    if data.len() >= 2 {
        seq![InboundView::App { opcode: le16_value_at(data, 0), data: data.skip(2) }]
    } else {
        Seq::empty()
    }
}

/// The acknowledgement of `sequence`, as sent.
pub open spec fn ack_event(sequence: u16, codec: LinkCodec) -> InboundView {
    InboundView::Send {
        datagram: proto_datagram(
            seq![0u8, OP_ACK] + be16(sequence),
            codec.compress,
            codec.key,
            codec.crc_bytes,
        ),
    }
}

/// The next expected sequence number after `sequence` arrives: one more
/// when it was the expected one.
pub open spec fn after_sequence(expected: u16, sequence: u16) -> u16 {
    if sequence == expected {
        seq_next(expected)
    } else {
        expected
    }
}

/// A sequenced application message arrives: it is acknowledged and handed on.
pub open spec fn on_app_packet(st: LinkState, sequence: u16, data: Seq<u8>, codec: LinkCodec) -> (
    LinkState,
    Seq<InboundView>,
) {
    (
        LinkState { sequence_in: after_sequence(st.sequence_in, sequence), pending: st.pending },
        seq![ack_event(sequence, codec)] + app_events(data),
    )
}

/// A fragment arrives: it is acknowledged and reassembled (as the first of
/// a message when nothing is pending), and a message it completes is handed
/// on. A fragment whose byte count would overflow is dropped.
pub open spec fn on_fragment(st: LinkState, sequence: u16, data: Seq<u8>, codec: LinkCodec) -> (
    LinkState,
    Seq<InboundView>,
) {
    let sequence_in = after_sequence(st.sequence_in, sequence);
    let first = st.pending.len() == 0;
    if add_fragment_in_range(st.pending, sequence, data, first) {
        let (pending, done) = add_fragment_spec(st.pending, sequence, data, first);
        (
            LinkState { sequence_in, pending },
            seq![ack_event(sequence, codec)] + match done {
                Some(c) => app_events(c),
                None => Seq::empty(),
            },
        )
    } else {
        (LinkState { sequence_in, pending: st.pending }, seq![ack_event(sequence, codec)])
    }
}

/// One sub-packet of a combined datagram, given its leading zero byte when
/// it lacks it: sequenced messages and fragments are handled, others ignored.
pub open spec fn on_sub_packet(st: LinkState, sub: Seq<u8>, codec: LinkCodec) -> (
    LinkState,
    Seq<InboundView>,
) {
    if sub.len() < 2 {
        (st, Seq::empty())
    } else {
        let full = if sub[0] == 0 {
            sub
        } else {
            seq![0u8] + sub
        };
        match parse_spec(full) {
            Ok(PacketModel::AppPacket { sequence, data }) => on_app_packet(st, sequence, data, codec),
            Ok(PacketModel::Fragment { sequence, data }) => on_fragment(st, sequence, data, codec),
            _ => (st, Seq::empty()),
        }
    }
}

/// The sub-packets of a combined datagram, in order.
pub open spec fn on_sub_packets(st: LinkState, subs: Seq<Seq<u8>>, codec: LinkCodec) -> (
    LinkState,
    Seq<InboundView>,
)
    decreases subs.len(),
{
    if subs.len() == 0 {
        (st, Seq::empty())
    } else {
        let (s1, e1) = on_sub_packets(st, subs.drop_last(), codec);
        let (s2, e2) = on_sub_packet(s1, subs.last(), codec);
        (s2, e1 + e2)
    }
}

/// A parsed session-layer datagram: keep-alives are answered, a disconnect
/// closes the session, sequenced messages, fragments and combined datagrams
/// are handled; the rest is ignored.
pub open spec fn on_packet(st: LinkState, p: PacketModel, codec: LinkCodec) -> (
    LinkState,
    Seq<InboundView>,
) {
    match p {
        PacketModel::KeepAlive => (
            st,
            seq![
                InboundView::Send {
                    datagram: proto_datagram(
                        seq![0u8, OP_KEEP_ALIVE],
                        codec.compress,
                        codec.key,
                        codec.crc_bytes,
                    ),
                },
            ],
        ),
        PacketModel::SessionDisconnect { .. } => (st, seq![InboundView::Closed]),
        PacketModel::AppPacket { sequence, data } => on_app_packet(st, sequence, data, codec),
        PacketModel::Fragment { sequence, data } => on_fragment(st, sequence, data, codec),
        PacketModel::Combined { sub_packets } => on_sub_packets(st, sub_packets, codec),
        _ => (st, Seq::empty()),
    }
}

/// What a datagram of an open session does. A datagram not starting with a
/// zero byte is a bare application message: after the CRC check (and, when
/// compressing, decoding everything after its first byte) it is handed on.
/// Others are checked and decoded (session requests, responses and
/// out-of-session datagrams excepted) and handled by kind. Datagrams that
/// fail a check, and those under two bytes, do nothing.
pub open spec fn receive_spec(st: LinkState, raw: Seq<u8>, codec: LinkCodec) -> (
    LinkState,
    Seq<InboundView>,
) {
    if raw.len() < 2 {
        (st, Seq::empty())
    } else if raw[0] != 0 {
        let (ok, stripped) = crc_checked(raw, codec.key, codec.crc_bytes);
        if !ok {
            (st, Seq::empty())
        } else if codec.compress && stripped.len() > 1 {
            match decoded_frame(stripped.skip(1)) {
                Ok(d) => (st, app_events(seq![stripped[0]] + d)),
                Err(_) => (st, Seq::empty()),
            }
        } else {
            (st, app_events(stripped))
        }
    } else {
        let (ok, decoded) = if raw[1] == OP_SESSION_REQUEST || raw[1] == OP_SESSION_RESPONSE
            || raw[1] == OP_OUT_OF_SESSION {
            (true, raw)
        } else {
            decode_spec(raw, codec.key, codec.crc_bytes)
        };
        if !ok {
            (st, Seq::empty())
        } else {
            match parse_spec(decoded) {
                Ok(p) => on_packet(st, p, codec),
                Err(_) => (st, Seq::empty()),
            }
        }
    }
}

/// An application datagram as a client sends it: header, the uncompressed
/// mark, the sequence number, the message (opcode first), and the keyed
/// CRC trailer.
pub open spec fn client_app_datagram(sequence: u16, message: Seq<u8>, key: u32, crc_bytes: u8) -> Seq<u8> {
    crc_appended(seq![0u8, OP_PACKET, 0u8] + be16(sequence) + message, key, crc_bytes)
}

/// Law: a client's application datagram is acknowledged under its sequence
/// number and its message handed on with its opcode; the expected sequence
/// number moves on when it was the expected one, and nothing else of the
/// receiving side changes.
pub proof fn law_client_message_delivered(st: LinkState, sequence: u16, message: Seq<u8>, codec: LinkCodec)
    requires
        codec.crc_bytes <= 4,
        message.len() >= 2,
    ensures
        receive_spec(st, client_app_datagram(sequence, message, codec.key, codec.crc_bytes), codec) == (
            LinkState { sequence_in: after_sequence(st.sequence_in, sequence), pending: st.pending },
            seq![
                ack_event(sequence, codec),
                InboundView::App { opcode: le16_value_at(message, 0), data: message.skip(2) },
            ],
        ),
{
    let plain = seq![0u8, OP_PACKET, 0u8] + be16(sequence) + message;
    let raw = client_app_datagram(sequence, message, codec.key, codec.crc_bytes);
    law_crc_round_trip(plain, codec.key, codec.crc_bytes);
    assert(raw.len() >= 2);
    assert(raw[0] == plain[0] && raw[1] == plain[1]) by {
        if codec.crc_bytes != 0 {
            assert(raw == plain + crc_trailer(crc32_ieee(plain) ^ codec.key, codec.crc_bytes));
        }
    }
    let body = plain.skip(2);
    assert(body[0] == 0u8);
    assert(body.skip(1) =~= be16(sequence) + message);
    let decoded = plain.take(2) + body.skip(1);
    assert(decode_spec(raw, codec.key, codec.crc_bytes) == (true, decoded));
    assert(decoded =~= seq![0u8, OP_PACKET] + be16(sequence) + message);
    assert(decoded.skip(2) =~= be16(sequence) + message);
    assert(decoded.skip(2).skip(2) =~= message);
    lemma_be16_round_trip(sequence);
    assert(parse_spec(decoded) == Ok::<PacketModel, PacketError>(
        PacketModel::AppPacket { sequence, data: message },
    ));
    assert(app_events(message) =~= seq![
        InboundView::App { opcode: le16_value_at(message, 0), data: message.skip(2) },
    ]);
    assert(seq![ack_event(sequence, codec)] + app_events(message) =~= seq![
        ack_event(sequence, codec),
        InboundView::App { opcode: le16_value_at(message, 0), data: message.skip(2) },
    ]);
}

/// A fragment datagram as a client sends it: header, the uncompressed
/// mark, the sequence number, the fragment's bytes, and the keyed CRC
/// trailer.
pub open spec fn client_fragment_datagram(sequence: u16, data: Seq<u8>, key: u32, crc_bytes: u8) -> Seq<u8> {
    crc_appended(seq![0u8, OP_FRAGMENT, 0u8] + be16(sequence) + data, key, crc_bytes)
}

/// The receiving side and everything handed on after a series of datagrams.
pub open spec fn receive_all(st: LinkState, raws: Seq<Seq<u8>>, codec: LinkCodec) -> (LinkState, Seq<InboundView>)
    decreases raws.len(),
{
    if raws.len() == 0 {
        (st, Seq::empty())
    } else {
        let (s1, e1) = receive_all(st, raws.drop_last(), codec);
        let (s2, e2) = receive_spec(s1, raws.last(), codec);
        (s2, e1 + e2)
    }
}

/// The datagrams of a message a client sends in fragments: the first under
/// `first`, announcing the size and carrying `head`, then each of `tails`
/// under the following sequence numbers.
pub open spec fn fragment_datagrams(
    first: u16,
    total_size: u32,
    head: Seq<u8>,
    tails: Seq<Seq<u8>>,
    key: u32,
    crc_bytes: u8,
) -> Seq<Seq<u8>> {
    seq![client_fragment_datagram(first, crate::bytes::be32(total_size) + head, key, crc_bytes)] + Seq::new(
        tails.len(),
        |j: int| client_fragment_datagram(seq_ahead(first, (j + 1) as nat), tails[j], key, crc_bytes),
    )
}

/// The acknowledgements of `n` datagrams numbered from `first` on.
pub open spec fn acks_from(first: u16, n: nat, codec: LinkCodec) -> Seq<InboundView> {
    Seq::new(n, |j: int| ack_event(seq_ahead(first, j as nat), codec))
}

proof fn lemma_fragment_received(st: LinkState, sequence: u16, data: Seq<u8>, codec: LinkCodec)
    requires
        codec.crc_bytes <= 4,
    ensures
        receive_spec(st, client_fragment_datagram(sequence, data, codec.key, codec.crc_bytes), codec)
            == on_fragment(st, sequence, data, codec),
{
    let plain = seq![0u8, OP_FRAGMENT, 0u8] + be16(sequence) + data;
    let raw = client_fragment_datagram(sequence, data, codec.key, codec.crc_bytes);
    law_crc_round_trip(plain, codec.key, codec.crc_bytes);
    assert(raw[0] == plain[0] && raw[1] == plain[1]) by {
        if codec.crc_bytes != 0 {
            assert(raw == plain + crc_trailer(crc32_ieee(plain) ^ codec.key, codec.crc_bytes));
        }
    }
    let body = plain.skip(2);
    assert(body[0] == 0u8);
    assert(body.skip(1) =~= be16(sequence) + data);
    let decoded = plain.take(2) + body.skip(1);
    assert(decode_spec(raw, codec.key, codec.crc_bytes) == (true, decoded));
    assert(decoded =~= seq![0u8, OP_FRAGMENT] + be16(sequence) + data);
    assert(decoded.skip(2) =~= be16(sequence) + data);
    assert(decoded.skip(2).skip(2) =~= data);
    lemma_be16_round_trip(sequence);
    assert(parse_spec(decoded) == Ok::<PacketModel, PacketError>(PacketModel::Fragment { sequence, data }));
}

proof fn lemma_seq_ahead_next(first: u16, j: nat)
    ensures
        seq_next(seq_ahead(first, j)) == seq_ahead(first, j + 1),
        seq_ahead(first, 0) == first,
{
}

proof fn lemma_first_fragment_step(st: LinkState, first: u16, head: Seq<u8>, total_size: u32, codec: LinkCodec)
    requires
        codec.crc_bytes <= 4,
        st.pending == Map::<u16, PendingMessage>::empty(),
        head.len() < total_size,
    ensures
        receive_spec(
            st,
            client_fragment_datagram(first, crate::bytes::be32(total_size) + head, codec.key, codec.crc_bytes),
            codec,
        ) == (
            LinkState {
                sequence_in: after_sequence(st.sequence_in, first),
                pending: gathering(first, total_size, head),
            },
            seq![ack_event(first, codec)],
        ),
{
    let data = crate::bytes::be32(total_size) + head;
    lemma_fragment_received(st, first, data, codec);
    crate::bytes::lemma_be32_round_trip(total_size);
    assert(data.skip(4) =~= head);
    assert(be32_value_at_zero(data) == total_size);
    assert(add_fragment_spec(st.pending, first, data, true).0 =~= gathering(first, total_size, head));
    assert(seq![ack_event(first, codec)] + Seq::<InboundView>::empty() =~= seq![ack_event(first, codec)]);
}

proof fn lemma_continuation_step(
    st: LinkState,
    first: u16,
    total_size: u32,
    before: Seq<u8>,
    k: nat,
    tail: Seq<u8>,
    codec: LinkCodec,
)
    requires
        codec.crc_bytes <= 4,
        st.pending == gathering(first, total_size, before),
        1 <= k <= 100,
        before.len() < total_size,
        before.len() + tail.len() <= u32::MAX,
    ensures
        receive_spec(st, client_fragment_datagram(seq_ahead(first, k), tail, codec.key, codec.crc_bytes), codec)
            == if before.len() + tail.len() >= total_size {
            (
                LinkState {
                    sequence_in: after_sequence(st.sequence_in, seq_ahead(first, k)),
                    pending: Map::<u16, PendingMessage>::empty(),
                },
                seq![ack_event(seq_ahead(first, k), codec)] + app_events((before + tail).take(total_size as int)),
            )
        } else {
            (
                LinkState {
                    sequence_in: after_sequence(st.sequence_in, seq_ahead(first, k)),
                    pending: gathering(first, total_size, before + tail),
                },
                seq![ack_event(seq_ahead(first, k), codec)],
            )
        },
{
    lemma_fragment_received(st, seq_ahead(first, k), tail, codec);
    assert(st.pending.dom() =~= set![first]);
    assert(st.pending.len() == 1);
    law_continuation_extends(first, total_size, before, k, tail);
    assert(seq![ack_event(seq_ahead(first, k), codec)] + Seq::<InboundView>::empty() =~= seq![
        ack_event(seq_ahead(first, k), codec),
    ]);
}

proof fn lemma_receive_all_last(st: LinkState, raws: Seq<Seq<u8>>, codec: LinkCodec)
    requires
        raws.len() > 0,
    ensures
        receive_all(st, raws, codec) == ({
            let (s1, e1) = receive_all(st, raws.drop_last(), codec);
            let (s2, e2) = receive_spec(s1, raws.last(), codec);
            (s2, e1 + e2)
        }),
{
}

proof fn lemma_fragments_prefix(
    st: LinkState,
    first: u16,
    head: Seq<u8>,
    tails: Seq<Seq<u8>>,
    total_size: u32,
    codec: LinkCodec,
    j: nat,
)
    requires
        codec.crc_bytes <= 4,
        st.pending == Map::<u16, PendingMessage>::empty(),
        j < tails.len() <= 100,
        forall|k: int| 0 <= k < tails.len() ==> head.len() + #[trigger] concat_all(tails.take(k)).len() < total_size,
        head.len() + concat_all(tails).len() <= u32::MAX,
    ensures
        ({
            let (s, ev) = receive_all(
                st,
                fragment_datagrams(first, total_size, head, tails, codec.key, codec.crc_bytes).take(j + 1 as int),
                codec,
            );
            &&& s.pending == gathering(first, total_size, head + concat_all(tails.take(j as int)))
            &&& ev == acks_from(first, j + 1, codec)
            &&& st.sequence_in == first ==> s.sequence_in == seq_ahead(first, j + 1)
        }),
    decreases j,
{
    let d = fragment_datagrams(first, total_size, head, tails, codec.key, codec.crc_bytes);
    let t = d.take(j + 1 as int);
    lemma_seq_ahead_next(first, j);
    lemma_receive_all_last(st, t, codec);
    if j == 0 {
        assert(t.drop_last() =~= Seq::<Seq<u8>>::empty());
        assert(t.last() == client_fragment_datagram(
            first,
            crate::bytes::be32(total_size) + head,
            codec.key,
            codec.crc_bytes,
        ));
        assert(tails.take(0) =~= Seq::<Seq<u8>>::empty());
        assert(head + concat_all(tails.take(0)) =~= head);
        assert(head.len() + concat_all(tails.take(0)).len() < total_size);
        lemma_first_fragment_step(st, first, head, total_size, codec);
        assert(acks_from(first, 1, codec) =~= seq![ack_event(first, codec)]);
        assert(Seq::<InboundView>::empty() + seq![ack_event(first, codec)] =~= seq![ack_event(first, codec)]);
    } else {
        lemma_fragments_prefix(st, first, head, tails, total_size, codec, (j - 1) as nat);
        assert(t.drop_last() =~= d.take(j as int));
        assert(t.last() == client_fragment_datagram(seq_ahead(first, j), tails[j - 1], codec.key, codec.crc_bytes));
        let before = head + concat_all(tails.take(j - 1));
        assert(tails.take(j as int).drop_last() =~= tails.take(j - 1));
        assert(concat_all(tails.take(j as int)) == concat_all(tails.take(j - 1)) + tails[j - 1]);
        assert(head.len() + concat_all(tails.take(j - 1)).len() < total_size);
        assert(head.len() + concat_all(tails.take(j as int)).len() < total_size);
        assert(before + tails[j - 1] =~= head + concat_all(tails.take(j as int)));
        let (s1, e1) = receive_all(st, d.take(j as int), codec);
        lemma_continuation_step(s1, first, total_size, before, j, tails[j - 1], codec);
        lemma_seq_ahead_next(first, (j - 1) as nat);
        assert(acks_from(first, j, codec) + seq![ack_event(seq_ahead(first, j), codec)] =~= acks_from(
            first,
            j + 1,
            codec,
        ));
    }
}

spec fn be32_value_at_zero(s: Seq<u8>) -> u32 {
    crate::bytes::be32_value_at(s, 0)
}

/// Law: a message a client sends as a first fragment and up to a hundred
/// continuations, numbered consecutively, is handed on whole (cut to its
/// announced size) once its last fragment arrives, after every fragment is
/// acknowledged; nothing stays pending, and when the first fragment was the
/// expected one the expected sequence number ends just past the last.
#[verifier::rlimit(40)]
pub proof fn law_client_fragments_delivered(
    st: LinkState,
    first: u16,
    head: Seq<u8>,
    tails: Seq<Seq<u8>>,
    total_size: u32,
    codec: LinkCodec,
)
    requires
        codec.crc_bytes <= 4,
        st.pending == Map::<u16, PendingMessage>::empty(),
        1 <= tails.len() <= 100,
        forall|k: int| 0 <= k < tails.len() ==> head.len() + #[trigger] concat_all(tails.take(k)).len() < total_size,
        head.len() + concat_all(tails).len() >= total_size,
        head.len() + concat_all(tails).len() <= u32::MAX,
        total_size >= 2,
    ensures
        ({
            let message = (head + concat_all(tails)).take(total_size as int);
            let (s, ev) = receive_all(
                st,
                fragment_datagrams(first, total_size, head, tails, codec.key, codec.crc_bytes),
                codec,
            );
            &&& s.pending == Map::<u16, PendingMessage>::empty()
            &&& ev == acks_from(first, tails.len() + 1, codec) + seq![
                InboundView::App { opcode: le16_value_at(message, 0), data: message.skip(2) },
            ]
            &&& st.sequence_in == first ==> s.sequence_in == seq_ahead(first, tails.len() + 1)
        }),
{
    let n = tails.len();
    let d = fragment_datagrams(first, total_size, head, tails, codec.key, codec.crc_bytes);
    lemma_fragments_prefix(st, first, head, tails, total_size, codec, (n - 1) as nat);
    lemma_receive_all_last(st, d, codec);
    assert(d.drop_last() =~= d.take(n as int));
    let (s1, e1) = receive_all(st, d.take(n as int), codec);
    assert(d.last() == client_fragment_datagram(seq_ahead(first, n), tails[n - 1], codec.key, codec.crc_bytes));
    let before = head + concat_all(tails.take(n - 1));
    assert(tails.drop_last() =~= tails.take(n - 1));
    assert(concat_all(tails) == concat_all(tails.take(n - 1)) + tails[n - 1]);
    assert(head.len() + concat_all(tails.take(n - 1)).len() < total_size);
    assert(before + tails[n - 1] =~= head + concat_all(tails));
    lemma_continuation_step(s1, first, total_size, before, n, tails[n - 1], codec);
    lemma_seq_ahead_next(first, n);
    let message = (head + concat_all(tails)).take(total_size as int);
    assert(app_events(message) =~= seq![
        InboundView::App { opcode: le16_value_at(message, 0), data: message.skip(2) },
    ]);
    assert(acks_from(first, n, codec) + (seq![ack_event(seq_ahead(first, n), codec)] + app_events(message))
        =~= acks_from(first, n + 1, codec) + seq![
        InboundView::App { opcode: le16_value_at(message, 0), data: message.skip(2) },
    ]);
}

/// The connection's parts other than its receiving side are unchanged.
pub open spec fn same_sender(a: Connection, b: Connection) -> bool {
    &&& a.compress == b.compress
    &&& a.session.addr == b.session.addr
    &&& a.session.state == b.session.state
    &&& a.session.connect_code == b.session.connect_code
    &&& a.session.encode_key == b.session.encode_key
    &&& a.session.crc_bytes == b.session.crc_bytes
    &&& a.session.max_packet_size == b.session.max_packet_size
    &&& a.session.sequence_out == b.session.sequence_out
    &&& a.session.last_ack_sent == b.session.last_ack_sent
}

fn copy_tail(data: &[u8], start: usize) -> (out: Vec<u8>)
    requires
        start <= data@.len(),
    ensures
        out@ == data@.skip(start as int),
{
    let mut out: Vec<u8> = Vec::new();
    push_all(&mut out, vstd::slice::slice_subrange(data, start, data.len()));
    assert(out@ =~= data@.skip(start as int));
    out
}

fn push_app_event(events: &mut Vec<Inbound>, data: &[u8])
    ensures
        inbound_view(final(events)@) == inbound_view(old(events)@) + app_events(data@),
{
    if data.len() >= 2 {
        let opcode: u16 = (data[1] as u16) * 256 + (data[0] as u16);
        let rest = copy_tail(data, 2);
        events.push(Inbound::App { opcode, data: rest });
    }
    assert(inbound_view(events@) =~= inbound_view(old(events)@) + app_events(data@));
}

fn push_ack(conn: &Connection, events: &mut Vec<Inbound>, sequence: u16)
    requires
        conn.session.crc_bytes <= 4,
    ensures
        inbound_view(final(events)@) == inbound_view(old(events)@).push(
            ack_event(sequence, link_codec(*conn)),
        ),
{
    let ack = build_ack(sequence);
    let datagram = send_proto_packet(&conn.session, conn.compress, ack.as_slice());
    events.push(Inbound::Send { datagram });
    assert(inbound_view(events@) =~= inbound_view(old(events)@).push(
        ack_event(sequence, link_codec(*conn)),
    ));
}

fn handle_app_packet(conn: &mut Connection, events: &mut Vec<Inbound>, sequence: u16, data: &[u8])
    requires
        old(conn).session.crc_bytes <= 4,
    ensures
        same_sender(*old(conn), *final(conn)),
        link_state(*final(conn)) == on_app_packet(
            link_state(*old(conn)),
            sequence,
            data@,
            link_codec(*old(conn)),
        ).0,
        inbound_view(final(events)@) == inbound_view(old(events)@) + on_app_packet(
            link_state(*old(conn)),
            sequence,
            data@,
            link_codec(*old(conn)),
        ).1,
{
    conn.session.process_incoming_sequence(sequence);
    let ghost mid = inbound_view(events@);
    push_ack(conn, events, sequence);
    push_app_event(events, data);
    assert(inbound_view(events@) =~= inbound_view(old(events)@) + on_app_packet(
        link_state(*old(conn)),
        sequence,
        data@,
        link_codec(*old(conn)),
    ).1);
}

fn handle_fragment(conn: &mut Connection, events: &mut Vec<Inbound>, sequence: u16, data: &[u8])
    requires
        old(conn).session.crc_bytes <= 4,
    ensures
        same_sender(*old(conn), *final(conn)),
        link_state(*final(conn)) == on_fragment(
            link_state(*old(conn)),
            sequence,
            data@,
            link_codec(*old(conn)),
        ).0,
        inbound_view(final(events)@) == inbound_view(old(events)@) + on_fragment(
            link_state(*old(conn)),
            sequence,
            data@,
            link_codec(*old(conn)),
        ).1,
{
    let is_first = conn.session.fragment_assembler.pending_count() == 0;
    conn.session.process_incoming_sequence(sequence);
    push_ack(conn, events, sequence);
    let ghost after_ack = inbound_view(events@);
    if conn.session.fragment_assembler.accepts(sequence, data, is_first) {
        let done = conn.session.fragment_assembler.add_fragment(sequence, data, is_first);
        match done {
            Some(complete) => {
                push_app_event(events, complete.as_slice());
            },
            None => {},
        }
    }
    assert(inbound_view(events@) =~= inbound_view(old(events)@) + on_fragment(
        link_state(*old(conn)),
        sequence,
        data@,
        link_codec(*old(conn)),
    ).1);
}

fn handle_sub_packet(conn: &mut Connection, events: &mut Vec<Inbound>, sub: &[u8])
    requires
        old(conn).session.crc_bytes <= 4,
    ensures
        same_sender(*old(conn), *final(conn)),
        link_state(*final(conn)) == on_sub_packet(link_state(*old(conn)), sub@, link_codec(*old(conn))).0,
        inbound_view(final(events)@) == inbound_view(old(events)@) + on_sub_packet(
            link_state(*old(conn)),
            sub@,
            link_codec(*old(conn)),
        ).1,
{
    if sub.len() < 2 {
        assert(inbound_view(events@) =~= inbound_view(old(events)@) + Seq::<InboundView>::empty());
        return;
    }
    let mut full: Vec<u8> = Vec::new();
    if sub[0] != 0 {
        full.push(0u8);
    }
    push_all(&mut full, sub);
    assert(full@ =~= if sub@[0] == 0 {
        sub@
    } else {
        seq![0u8] + sub@
    });
    match parse_protocol_packet(full.as_slice()) {
        Ok(ProtocolPacket::AppPacket { sequence, data }) => {
            handle_app_packet(conn, events, sequence, data.as_slice());
        },
        Ok(ProtocolPacket::Fragment { sequence, data }) => {
            handle_fragment(conn, events, sequence, data.as_slice());
        },
        _ => {
            assert(inbound_view(events@) =~= inbound_view(old(events)@) + Seq::<InboundView>::empty());
        },
    }
}

fn handle_packet(conn: &mut Connection, events: &mut Vec<Inbound>, p: ProtocolPacket)
    requires
        old(conn).session.crc_bytes <= 4,
    ensures
        same_sender(*old(conn), *final(conn)),
        link_state(*final(conn)) == on_packet(link_state(*old(conn)), p@, link_codec(*old(conn))).0,
        inbound_view(final(events)@) == inbound_view(old(events)@) + on_packet(
            link_state(*old(conn)),
            p@,
            link_codec(*old(conn)),
        ).1,
{
    match p {
        ProtocolPacket::KeepAlive => {
            let ka = build_keep_alive();
            let datagram = send_proto_packet(&conn.session, conn.compress, ka.as_slice());
            events.push(Inbound::Send { datagram });
            assert(inbound_view(events@) =~= inbound_view(old(events)@) + on_packet(
                link_state(*old(conn)),
                p@,
                link_codec(*old(conn)),
            ).1);
        },
        ProtocolPacket::SessionDisconnect { .. } => {
            events.push(Inbound::Closed);
            assert(inbound_view(events@) =~= inbound_view(old(events)@) + on_packet(
                link_state(*old(conn)),
                p@,
                link_codec(*old(conn)),
            ).1);
        },
        ProtocolPacket::AppPacket { sequence, data } => {
            handle_app_packet(conn, events, sequence, data.as_slice());
        },
        ProtocolPacket::Fragment { sequence, data } => {
            handle_fragment(conn, events, sequence, data.as_slice());
        },
        ProtocolPacket::Combined { sub_packets } => {
            let ghost st0 = link_state(*old(conn));
            let ghost codec = link_codec(*old(conn));
            let ghost base = inbound_view(old(events)@);
            let ghost subs = crate::packet::vecs_view(sub_packets@);
            let mut i: usize = 0;
            assert(subs.take(0) =~= Seq::<Seq<u8>>::empty());
            while i < sub_packets.len()
                invariant
                    i <= sub_packets@.len(),
                    subs == crate::packet::vecs_view(sub_packets@),
                    conn.session.crc_bytes <= 4,
                    same_sender(*old(conn), *conn),
                    codec == link_codec(*old(conn)),
                    st0 == link_state(*old(conn)),
                    base == inbound_view(old(events)@),
                    link_state(*conn) == on_sub_packets(st0, subs.take(i as int), codec).0,
                    inbound_view(events@) == base + on_sub_packets(st0, subs.take(i as int), codec).1,
                decreases sub_packets@.len() - i,
            {
                let ghost before = inbound_view(events@);
                handle_sub_packet(conn, events, sub_packets[i].as_slice());
                proof {
                    let t = subs.take(i as int + 1);
                    assert(t.drop_last() =~= subs.take(i as int));
                    assert(t.last() == sub_packets@[i as int]@);
                }
                assert(inbound_view(events@) =~= base + on_sub_packets(st0, subs.take(i as int + 1), codec).1);
                i = i + 1;
            }
            assert(subs.take(i as int) =~= subs);
        },
        _ => {
            assert(inbound_view(events@) =~= inbound_view(old(events)@) + on_packet(
                link_state(*old(conn)),
                p@,
                link_codec(*old(conn)),
            ).1);
        },
    }
}

/// Handles a datagram of an open session: updates the session's receiving
/// side and returns, in order, the messages to handle and datagrams to send
/// back, and whether the client closed the session.
pub fn handle_udp_packet(conn: &mut Connection, raw: &[u8]) -> (events: Vec<Inbound>)
    requires
        old(conn).session.crc_bytes <= 4,
    ensures
        same_sender(*old(conn), *final(conn)),
        link_state(*final(conn)) == receive_spec(link_state(*old(conn)), raw@, link_codec(*old(conn))).0,
        inbound_view(events@) == receive_spec(link_state(*old(conn)), raw@, link_codec(*old(conn))).1,
{
    let mut events: Vec<Inbound> = Vec::new();
    if raw.len() < 2 {
        assert(inbound_view(events@) =~= Seq::<InboundView>::empty());
        return events;
    }
    let mut owned: Vec<u8> = Vec::new();
    push_all(&mut owned, raw);
    if raw[0] != 0 {
        if !verify_and_strip_crc(&mut owned, conn.session.encode_key, conn.session.crc_bytes) {
            assert(inbound_view(events@) =~= Seq::<InboundView>::empty());
            return events;
        }
        if conn.compress && owned.len() > 1 {
            let tail = copy_tail(owned.as_slice(), 1);
            match decompress(tail.as_slice()) {
                Ok(d) => {
                    let mut full: Vec<u8> = Vec::new();
                    full.push(owned[0]);
                    push_all(&mut full, d.as_slice());
                    assert(full@ =~= seq![owned@[0]] + d@);
                    push_app_event(&mut events, full.as_slice());
                },
                Err(_) => {},
            }
        } else {
            push_app_event(&mut events, owned.as_slice());
        }
        assert(inbound_view(events@) =~= receive_spec(link_state(*old(conn)), raw@, link_codec(*old(conn))).1);
        return events;
    }
    let op = raw[1];
    if !(op == OP_SESSION_REQUEST || op == OP_SESSION_RESPONSE || op == OP_OUT_OF_SESSION) {
        if !conn.session.decode_packet(&mut owned) {
            assert(inbound_view(events@) =~= Seq::<InboundView>::empty());
            return events;
        }
    }
    match parse_protocol_packet(owned.as_slice()) {
        Ok(p) => {
            handle_packet(conn, &mut events, p);
            assert(inbound_view(events@) =~= receive_spec(link_state(*old(conn)), raw@, link_codec(*old(conn))).1);
        },
        Err(_) => {
            assert(inbound_view(events@) =~= Seq::<InboundView>::empty());
        },
    }
    events
}

} // verus!
