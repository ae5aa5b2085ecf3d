//! The session-layer datagram format: a zero byte, a protocol opcode and an
//! opcode-specific body. Parsing into [`ProtocolPacket`] and building the
//! datagrams the server sends.
use vstd::prelude::*;

use crate::bytes::{be16, be16_value, be32, be32_value_at, lemma_be16_round_trip, push_all, push_u16_be, push_u32_be};
use crate::codec::{append_crc, compress, compressed_frame, crc_appended};

verus! {

pub const OP_SESSION_REQUEST: u8 = 0x01;
pub const OP_SESSION_RESPONSE: u8 = 0x02;
pub const OP_COMBINED: u8 = 0x03;
pub const OP_SESSION_DISCONNECT: u8 = 0x05;
pub const OP_KEEP_ALIVE: u8 = 0x06;
pub const OP_SESSION_STAT_REQUEST: u8 = 0x07;
pub const OP_SESSION_STAT_RESPONSE: u8 = 0x08;
pub const OP_PACKET: u8 = 0x09;
pub const OP_FRAGMENT: u8 = 0x0d;
pub const OP_OUT_OF_ORDER_ACK: u8 = 0x11;
pub const OP_ACK: u8 = 0x15;
pub const OP_APP_COMBINED: u8 = 0x19;
pub const OP_OUTBOUND_PING: u8 = 0x1c;
pub const OP_OUT_OF_SESSION: u8 = 0x1d;

/// A parsed session-layer datagram.
#[derive(Debug, PartialEq, Eq)]
pub enum ProtocolPacket {
    SessionRequest { protocol_version: u32, connect_code: u32, max_packet_size: u32 },
    SessionDisconnect { connect_code: u32 },
    KeepAlive,
    SessionStatRequest { data: Vec<u8> },
    Ack { sequence: u16 },
    OutOfOrderAck { sequence: u16 },
    AppPacket { sequence: u16, data: Vec<u8> },
    Fragment { sequence: u16, data: Vec<u8> },
    Combined { sub_packets: Vec<Vec<u8>> },
    OutboundPing,
    Unknown { opcode: u8, data: Vec<u8> },
}

/// The mathematical content of a [`ProtocolPacket`].
pub enum PacketModel {
    SessionRequest { protocol_version: u32, connect_code: u32, max_packet_size: u32 },
    SessionDisconnect { connect_code: u32 },
    KeepAlive,
    SessionStatRequest { data: Seq<u8> },
    Ack { sequence: u16 },
    OutOfOrderAck { sequence: u16 },
    AppPacket { sequence: u16, data: Seq<u8> },
    Fragment { sequence: u16, data: Seq<u8> },
    Combined { sub_packets: Seq<Seq<u8>> },
    OutboundPing,
    Unknown { opcode: u8, data: Seq<u8> },
}

/// The contents of a list of byte vectors.
pub open spec fn vecs_view(v: Seq<Vec<u8>>) -> Seq<Seq<u8>> {
    v.map_values(|x: Vec<u8>| x@)
}

impl View for ProtocolPacket {
    type V = PacketModel;

    open spec fn view(&self) -> PacketModel {
        match self {
            ProtocolPacket::SessionRequest { protocol_version, connect_code, max_packet_size } =>
                PacketModel::SessionRequest {
                protocol_version: *protocol_version,
                connect_code: *connect_code,
                max_packet_size: *max_packet_size,
            },
            ProtocolPacket::SessionDisconnect { connect_code } => PacketModel::SessionDisconnect {
                connect_code: *connect_code,
            },
            ProtocolPacket::KeepAlive => PacketModel::KeepAlive,
            ProtocolPacket::SessionStatRequest { data } => PacketModel::SessionStatRequest {
                data: data@,
            },
            ProtocolPacket::Ack { sequence } => PacketModel::Ack { sequence: *sequence },
            ProtocolPacket::OutOfOrderAck { sequence } => PacketModel::OutOfOrderAck {
                sequence: *sequence,
            },
            ProtocolPacket::AppPacket { sequence, data } => PacketModel::AppPacket {
                sequence: *sequence,
                data: data@,
            },
            ProtocolPacket::Fragment { sequence, data } => PacketModel::Fragment {
                sequence: *sequence,
                data: data@,
            },
            ProtocolPacket::Combined { sub_packets } => PacketModel::Combined {
                sub_packets: vecs_view(sub_packets@),
            },
            ProtocolPacket::OutboundPing => PacketModel::OutboundPing,
            ProtocolPacket::Unknown { opcode, data } => PacketModel::Unknown {
                opcode: *opcode,
                data: data@,
            },
        }
    }
}

/// Why a datagram could not be parsed.
#[derive(Debug, PartialEq, Eq, Clone, Copy)]
pub enum PacketError {
    /// Fewer than two bytes.
    TooShort { len: usize },
    /// The first byte is not zero.
    NonZeroLead { byte: u8 },
    /// A session request whose body is shorter than twelve bytes.
    SessionRequestTooShort,
    /// An acknowledgement without a sequence number.
    AckTooShort,
    /// An out-of-order acknowledgement without a sequence number.
    OutOfOrderAckTooShort,
    /// An application packet without a sequence number.
    AppPacketTooShort,
    /// A fragment without a sequence number.
    FragmentTooShort,
}

/// The sub-packets of a combined datagram body from `offset` on: each is a
/// length byte followed by that many bytes; a length running past the end
/// ends the list.
pub open spec fn combined_subs(body: Seq<u8>, offset: nat) -> Seq<Seq<u8>>
    decreases body.len() - offset,
{
    if offset >= body.len() {
        Seq::empty()
    } else {
        let len = body[offset as int] as nat;
        let start = offset + 1;
        if len > body.len() - start {
            Seq::empty()
        } else {
            seq![body.subrange(start as int, (start + len) as int)] + combined_subs(body, start + len)
        }
    }
}

/// What a datagram parses to.
pub open spec fn parse_spec(raw: Seq<u8>) -> Result<PacketModel, PacketError> {
    if raw.len() < 2 {
        Err(PacketError::TooShort { len: raw.len() as usize })
    } else if raw[0] != 0 {
        Err(PacketError::NonZeroLead { byte: raw[0] })
    } else {
        let opcode = raw[1];
        let body = raw.skip(2);
        if opcode == OP_SESSION_REQUEST {
            if body.len() < 12 {
                Err(PacketError::SessionRequestTooShort)
            } else {
                Ok(
                    PacketModel::SessionRequest {
                        protocol_version: be32_value_at(body, 0),
                        connect_code: be32_value_at(body, 4),
                        max_packet_size: be32_value_at(body, 8),
                    },
                )
            }
        } else if opcode == OP_SESSION_DISCONNECT {
            Ok(
                PacketModel::SessionDisconnect {
                    connect_code: if body.len() >= 4 {
                        be32_value_at(body, 0)
                    } else {
                        0
                    },
                },
            )
        } else if opcode == OP_KEEP_ALIVE {
            Ok(PacketModel::KeepAlive)
        } else if opcode == OP_SESSION_STAT_REQUEST {
            Ok(PacketModel::SessionStatRequest { data: body })
        } else if 0x15 <= opcode <= 0x18 {
            if body.len() < 2 {
                Err(PacketError::AckTooShort)
            } else {
                Ok(PacketModel::Ack { sequence: be16_value(body[0], body[1]) })
            }
        } else if 0x11 <= opcode <= 0x14 {
            if body.len() < 2 {
                Err(PacketError::OutOfOrderAckTooShort)
            } else {
                Ok(PacketModel::OutOfOrderAck { sequence: be16_value(body[0], body[1]) })
            }
        } else if 0x09 <= opcode <= 0x0c {
            if body.len() < 2 {
                Err(PacketError::AppPacketTooShort)
            } else {
                Ok(
                    PacketModel::AppPacket {
                        sequence: be16_value(body[0], body[1]),
                        data: body.skip(2),
                    },
                )
            }
        } else if 0x0d <= opcode <= 0x10 {
            if body.len() < 2 {
                Err(PacketError::FragmentTooShort)
            } else {
                Ok(
                    PacketModel::Fragment {
                        sequence: be16_value(body[0], body[1]),
                        data: body.skip(2),
                    },
                )
            }
        } else if opcode == OP_COMBINED {
            Ok(PacketModel::Combined { sub_packets: combined_subs(body, 0) })
        } else if opcode == OP_OUTBOUND_PING {
            Ok(PacketModel::OutboundPing)
        } else {
            Ok(PacketModel::Unknown { opcode, data: body })
        }
    }
}

/// The model of a parse result.
pub open spec fn parse_result_view(r: Result<ProtocolPacket, PacketError>) -> Result<
    PacketModel,
    PacketError,
> {
    match r {
        Ok(p) => Ok(p@),
        Err(e) => Err(e),
    }
}

fn read_u32_be(s: &[u8], off: usize) -> (v: u32)
    requires
        off + 4 <= s@.len(),
    ensures
        v == be32_value_at(s@, off as int),
{
    let b0 = s[off] as u32;
    let b1 = s[off + 1] as u32;
    let b2 = s[off + 2] as u32;
    let b3 = s[off + 3] as u32;
    b0 * 0x1000000 + b1 * 0x10000 + b2 * 0x100 + b3
}

fn read_u16_be(hi: u8, lo: u8) -> (v: u16)
    ensures
        v == be16_value(hi, lo),
{
    (hi as u16) * 256 + (lo as u16)
}

fn subslice(s: &[u8], start: usize, end: usize) -> (out: Vec<u8>)
    requires
        start <= end <= s@.len(),
    ensures
        out@ == s@.subrange(start as int, end as int),
{
    let mut out: Vec<u8> = Vec::new();
    let mut i = start;
    while i < end
        invariant
            start <= i <= end,
            end <= s@.len(),
            out@ == s@.subrange(start as int, i as int),
        decreases end - i,
    {
        out.push(s[i]);
        i = i + 1;
        assert(out@ =~= s@.subrange(start as int, i as int));
    }
    out
}

proof fn lemma_combined_step(body: Seq<u8>, offset: nat)
    requires
        offset < body.len(),
        offset + 1 + body[offset as int] as nat <= body.len(),
    ensures
        combined_subs(body, offset) == seq![
            body.subrange((offset + 1) as int, (offset + 1 + body[offset as int] as nat) as int),
        ] + combined_subs(body, offset + 1 + body[offset as int] as nat),
{
}

fn parse_combined(body: &[u8]) -> (subs: Vec<Vec<u8>>)
    ensures
        vecs_view(subs@) == combined_subs(body@, 0),
{
    let mut subs: Vec<Vec<u8>> = Vec::new();
    let mut offset: usize = 0;
    while offset < body.len()
        invariant
            offset <= body@.len(),
            vecs_view(subs@) + combined_subs(body@, offset as nat) == combined_subs(body@, 0),
        decreases body@.len() - offset,
    {
        let len = body[offset] as usize;
        let start = offset + 1;
        if len > body.len() - start {
            assert(combined_subs(body@, offset as nat) =~= Seq::<Seq<u8>>::empty());
            assert(vecs_view(subs@) =~= combined_subs(body@, 0));
            return subs;
        }
        let sub = subslice(body, start, start + len);
        proof {
            lemma_combined_step(body@, offset as nat);
        }
        let ghost before = subs@;
        subs.push(sub);
        assert(vecs_view(subs@) =~= vecs_view(before).push(sub@));
        assert(vecs_view(subs@) + combined_subs(body@, (start + len) as nat) =~= vecs_view(before)
            + combined_subs(body@, offset as nat));
        offset = start + len;
    }
    assert(combined_subs(body@, offset as nat) =~= Seq::<Seq<u8>>::empty());
    assert(vecs_view(subs@) =~= combined_subs(body@, 0));
    subs
}

/// Parses a received datagram.
pub fn parse_protocol_packet(raw: &[u8]) -> (res: Result<ProtocolPacket, PacketError>)
    ensures
        parse_result_view(res) == parse_spec(raw@),
{
    if raw.len() < 2 {
        return Err(PacketError::TooShort { len: raw.len() });
    }
    let zero = raw[0];
    let opcode = raw[1];
    if zero != 0x00 {
        return Err(PacketError::NonZeroLead { byte: zero });
    }
    let body = subslice(raw, 2, raw.len());
    assert(body@ =~= raw@.skip(2));
    let blen = body.len();
    if opcode == OP_SESSION_REQUEST {
        if blen < 12 {
            return Err(PacketError::SessionRequestTooShort);
        }
        let protocol_version = read_u32_be(body.as_slice(), 0);
        let connect_code = read_u32_be(body.as_slice(), 4);
        let max_packet_size = read_u32_be(body.as_slice(), 8);
        Ok(ProtocolPacket::SessionRequest { protocol_version, connect_code, max_packet_size })
    } else if opcode == OP_SESSION_DISCONNECT {
        let connect_code = if blen >= 4 {
            read_u32_be(body.as_slice(), 0)
        } else {
            0
        };
        Ok(ProtocolPacket::SessionDisconnect { connect_code })
    } else if opcode == OP_KEEP_ALIVE {
        Ok(ProtocolPacket::KeepAlive)
    } else if opcode == OP_SESSION_STAT_REQUEST {
        Ok(ProtocolPacket::SessionStatRequest { data: body })
    } else if 0x15 <= opcode && opcode <= 0x18 {
        if blen < 2 {
            return Err(PacketError::AckTooShort);
        }
        Ok(ProtocolPacket::Ack { sequence: read_u16_be(body[0], body[1]) })
    } else if 0x11 <= opcode && opcode <= 0x14 {
        if blen < 2 {
            return Err(PacketError::OutOfOrderAckTooShort);
        }
        Ok(ProtocolPacket::OutOfOrderAck { sequence: read_u16_be(body[0], body[1]) })
    } else if 0x09 <= opcode && opcode <= 0x0c {
        if blen < 2 {
            return Err(PacketError::AppPacketTooShort);
        }
        let sequence = read_u16_be(body[0], body[1]);
        let data = subslice(body.as_slice(), 2, blen);
        assert(data@ =~= body@.skip(2));
        Ok(ProtocolPacket::AppPacket { sequence, data })
    } else if 0x0d <= opcode && opcode <= 0x10 {
        if blen < 2 {
            return Err(PacketError::FragmentTooShort);
        }
        let sequence = read_u16_be(body[0], body[1]);
        let data = subslice(body.as_slice(), 2, blen);
        assert(data@ =~= body@.skip(2));
        Ok(ProtocolPacket::Fragment { sequence, data })
    } else if opcode == OP_COMBINED {
        let sub_packets = parse_combined(body.as_slice());
        Ok(ProtocolPacket::Combined { sub_packets })
    } else if opcode == OP_OUTBOUND_PING {
        Ok(ProtocolPacket::OutboundPing)
    } else {
        Ok(ProtocolPacket::Unknown { opcode, data: body })
    }
}

/// The session response datagram with `encode_pass1` as its first encode
/// pass (1 for compression, 0 for none).
pub open spec fn session_response_with_pass(
    connect_code: u32,
    encode_key: u32,
    crc_bytes: u8,
    max_packet_size: u32,
    encode_pass1: u8,
) -> Seq<u8> {
    seq![0u8, OP_SESSION_RESPONSE] + be32(connect_code) + be32(encode_key) + seq![
        crc_bytes,
        encode_pass1,
        0u8,
    ] + be32(max_packet_size)
}

/// The session response datagram that announces compression.
pub open spec fn session_response_spec(
    connect_code: u32,
    encode_key: u32,
    crc_bytes: u8,
    max_packet_size: u32,
) -> Seq<u8> {
    session_response_with_pass(connect_code, encode_key, crc_bytes, max_packet_size, 1)
}

/// Builds the reply to a session request: connect code, encode key, CRC
/// length, `encode_pass1` as the first encode pass (1 for compression),
/// no second pass, and the maximum packet size.
pub fn build_session_response_with_pass(
    connect_code: u32,
    encode_key: u32,
    crc_bytes: u8,
    max_packet_size: u32,
    encode_pass1: u8,
) -> (buf: Vec<u8>)
    ensures
        buf@ == session_response_with_pass(connect_code, encode_key, crc_bytes, max_packet_size, encode_pass1),
        buf@.len() == 17,
{
    let mut buf: Vec<u8> = Vec::with_capacity(17);
    buf.push(0x00);
    buf.push(OP_SESSION_RESPONSE);
    push_u32_be(&mut buf, connect_code);
    push_u32_be(&mut buf, encode_key);
    buf.push(crc_bytes);
    buf.push(encode_pass1);
    buf.push(0x00);
    push_u32_be(&mut buf, max_packet_size);
    assert(buf@ =~= session_response_with_pass(connect_code, encode_key, crc_bytes, max_packet_size, encode_pass1));
    buf
}

/// Builds the reply to a session request that announces compression as
/// the first encode pass.
pub fn build_session_response(
    connect_code: u32,
    encode_key: u32,
    crc_bytes: u8,
    max_packet_size: u32,
) -> (buf: Vec<u8>)
    ensures
        buf@ == session_response_spec(connect_code, encode_key, crc_bytes, max_packet_size),
        buf@.len() == 17,
{
    build_session_response_with_pass(connect_code, encode_key, crc_bytes, max_packet_size, 1)
}

/// Builds a keep-alive datagram.
pub fn build_keep_alive() -> (buf: Vec<u8>)
    ensures
        buf@ == seq![0u8, OP_KEEP_ALIVE],
{
    let mut buf: Vec<u8> = Vec::new();
    buf.push(0x00);
    buf.push(OP_KEEP_ALIVE);
    assert(buf@ =~= seq![0u8, OP_KEEP_ALIVE]);
    buf
}

/// Builds the acknowledgement of `sequence`.
pub fn build_ack(sequence: u16) -> (buf: Vec<u8>)
    ensures
        buf@ == seq![0u8, OP_ACK] + be16(sequence),
{
    let mut buf: Vec<u8> = Vec::new();
    buf.push(0x00);
    buf.push(OP_ACK);
    push_u16_be(&mut buf, sequence);
    assert(buf@ =~= seq![0u8, OP_ACK] + be16(sequence));
    buf
}

/// The application datagram carrying `app_data` under `sequence`.
pub open spec fn app_packet_spec(sequence: u16, app_data: Seq<u8>, encode_key: u32, crc_bytes: u8) -> Seq<
    u8,
> {
    crc_appended(
        seq![0u8, OP_PACKET] + be16(sequence) + compressed_frame(app_data),
        encode_key,
        crc_bytes,
    )
}

/// Builds an application datagram: header, sequence, framed payload and
/// the keyed CRC trailer.
pub fn build_app_packet(sequence: u16, app_data: &[u8], encode_key: u32, crc_bytes: u8) -> (buf:
    Vec<u8>)
    requires
        crc_bytes <= 4,
    ensures
        buf@ == app_packet_spec(sequence, app_data@, encode_key, crc_bytes),
{
    let mut inner: Vec<u8> = Vec::new();
    push_all(&mut inner, app_data);
    assert(inner@ =~= app_data@);
    let compressed = compress(inner.as_slice());
    let mut buf: Vec<u8> = Vec::new();
    buf.push(0x00);
    buf.push(OP_PACKET);
    push_u16_be(&mut buf, sequence);
    push_all(&mut buf, compressed.as_slice());
    assert(buf@ =~= seq![0u8, OP_PACKET] + be16(sequence) + compressed_frame(app_data@));
    append_crc(&mut buf, encode_key, crc_bytes);
    buf
}

/// Law: an acknowledgement parses back to the sequence it acknowledges.
pub proof fn law_ack_round_trip(sequence: u16)
    ensures
        parse_spec(seq![0u8, OP_ACK] + be16(sequence)) == Ok::<PacketModel, PacketError>(
            PacketModel::Ack { sequence },
        ),
{
    let raw = seq![0u8, OP_ACK] + be16(sequence);
    assert(raw.skip(2) =~= be16(sequence));
    lemma_be16_round_trip(sequence);
}

/// Law: a keep-alive parses as a keep-alive.
pub proof fn law_keep_alive_round_trip()
    ensures
        parse_spec(seq![0u8, OP_KEEP_ALIVE]) == Ok::<PacketModel, PacketError>(
            PacketModel::KeepAlive,
        ),
{
}

/// Law: an application datagram sent without a CRC trailer parses back to
/// its sequence number and framed payload.
pub proof fn law_app_packet_round_trip(sequence: u16, app_data: Seq<u8>, encode_key: u32)
    ensures
        parse_spec(app_packet_spec(sequence, app_data, encode_key, 0)) == Ok::<
            PacketModel,
            PacketError,
        >(PacketModel::AppPacket { sequence, data: compressed_frame(app_data) }),
{
    let raw = app_packet_spec(sequence, app_data, encode_key, 0);
    assert(raw.skip(2) =~= be16(sequence) + compressed_frame(app_data));
    assert(raw.skip(2).skip(2) =~= compressed_frame(app_data));
    lemma_be16_round_trip(sequence);
}

} // verus!
