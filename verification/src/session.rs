//! Per-peer state of the session protocol: keys, sequence numbers and the
//! encoding of outgoing application messages.
use vstd::prelude::*;

use crate::bytes::{le16, push_all, push_u16_be, push_u16_le};
use crate::codec::{append_crc, compress, crc_checked, decoded_frame, verify_and_strip_crc, CodecError, decompress};
use crate::fragment::FragmentAssembler;
use crate::packet::{app_packet_spec, OP_PACKET, OP_SESSION_DISCONNECT, OP_SESSION_REQUEST};

verus! {

/// A network peer: its IP address in text form and its port.
#[derive(Debug, PartialEq, Eq)]
pub struct PeerAddr {
    pub ip: String,
    pub port: u16,
}

/// Lifecycle of a session.
#[derive(Debug, Clone, Copy, PartialEq, Eq)]
pub enum SessionState {
    Connecting,
    Connected,
    Disconnecting,
}

/// Value XORed with the connect code to derive a session's encode key.
pub const ENCODE_KEY_MASK: u32 = 0x5A3C_96D7;

/// Largest datagram the server agrees to.
pub const MAX_DATAGRAM: u32 = 512;

/// One peer's session.
pub struct EqSession {
    pub addr: PeerAddr,
    pub state: SessionState,
    pub connect_code: u32,
    pub encode_key: u32,
    pub crc_bytes: u8,
    pub max_packet_size: u32,
    pub sequence_in: u16,
    pub sequence_out: u16,
    pub last_ack_sent: u16,
    pub fragment_assembler: FragmentAssembler,
}

/// `x + 1` with wrap-around.
pub open spec fn seq_next(x: u16) -> u16 {
    if x == u16::MAX {
        0
    } else {
        (x + 1) as u16
    }
}

/// What decoding leaves of a received datagram, and whether it is kept.
///
/// Session requests and datagrams under two bytes pass untouched. Others
/// must pass the CRC check; then everything after the two header bytes is
/// replaced by its decoded frame when decoding succeeds (disconnects and
/// bare headers excepted).
pub open spec fn decode_spec(raw: Seq<u8>, key: u32, crc_bytes: u8) -> (bool, Seq<u8>) {
    if raw.len() < 2 || raw[1] == OP_SESSION_REQUEST {
        (true, raw)
    } else {
        let (ok, stripped) = crc_checked(raw, key, crc_bytes);
        if !ok {
            (false, raw)
        } else if stripped.len() > 2 && stripped[1] != OP_SESSION_DISCONNECT {
            match decoded_frame(stripped.skip(2)) {
                Ok(v) => (true, stripped.take(2) + v),
                Err(_) => (true, stripped),
            }
        } else {
            (true, stripped)
        }
    }
}

impl EqSession {
    /// A connected session for a peer's session request. The encode key is
    /// the connect code XOR [`ENCODE_KEY_MASK`]; two CRC bytes are used; the
    /// packet size is capped at [`MAX_DATAGRAM`].
    pub fn new(addr: PeerAddr, connect_code: u32, max_packet_size: u32) -> (s: Self)
        ensures
            s.addr == addr,
            s.state == SessionState::Connected,
            s.connect_code == connect_code,
            s.encode_key == connect_code ^ ENCODE_KEY_MASK,
            s.crc_bytes == 2,
            s.max_packet_size == if max_packet_size < MAX_DATAGRAM {
                max_packet_size
            } else {
                MAX_DATAGRAM
            },
            s.sequence_in == 0,
            s.sequence_out == 0,
            s.last_ack_sent == 0,
            s.fragment_assembler@ == Map::<u16, crate::fragment::PendingMessage>::empty(),
    {
        let encode_key = connect_code ^ ENCODE_KEY_MASK;
        let max = if max_packet_size < MAX_DATAGRAM {
            max_packet_size
        } else {
            MAX_DATAGRAM
        };
        EqSession {
            addr,
            state: SessionState::Connected,
            connect_code,
            encode_key,
            crc_bytes: 2,
            max_packet_size: max,
            sequence_in: 0,
            sequence_out: 0,
            last_ack_sent: 0,
            fragment_assembler: FragmentAssembler::new(),
        }
    }

    /// Checks and strips the CRC trailer of a received datagram and decodes
    /// its payload in place. Returns false when the CRC does not match.
    pub fn decode_packet(&self, raw: &mut Vec<u8>) -> (ok: bool)
        requires
            self.crc_bytes <= 4,
        ensures
            (ok, final(raw)@) == decode_spec(old(raw)@, self.encode_key, self.crc_bytes),
    {
        if raw.len() < 2 || raw[1] == OP_SESSION_REQUEST {
            return true;
        }
        if !verify_and_strip_crc(raw, self.encode_key, self.crc_bytes) {
            return false;
        }
        let ghost stripped = raw@;
        if raw.len() > 2 && raw[1] != OP_SESSION_DISCONNECT {
            let mut body: Vec<u8> = Vec::new();
            let mut i: usize = 2;
            while i < raw.len()
                invariant
                    2 <= i <= raw@.len(),
                    raw@ == stripped,
                    body@ == raw@.subrange(2, i as int),
                decreases raw@.len() - i,
            {
                body.push(raw[i]);
                i = i + 1;
                assert(body@ =~= raw@.subrange(2, i as int));
            }
            assert(body@ =~= stripped.skip(2));
            match decompress(body.as_slice()) {
                Ok(decompressed) => {
                    raw.truncate(2);
                    push_all(raw, decompressed.as_slice());
                },
                Err(_) => {},
            }
        }
        true
    }

    /// Takes the next outgoing sequence number.
    pub fn next_sequence_out(&mut self) -> (seq: u16)
        ensures
            seq == old(self).sequence_out,
            final(self).sequence_out == seq_next(old(self).sequence_out),
            final(self).sequence_in == old(self).sequence_in,
            final(self).encode_key == old(self).encode_key,
            final(self).crc_bytes == old(self).crc_bytes,
            final(self).max_packet_size == old(self).max_packet_size,
            final(self).connect_code == old(self).connect_code,
            final(self).state == old(self).state,
            final(self).last_ack_sent == old(self).last_ack_sent,
            final(self).addr == old(self).addr,
            final(self).fragment_assembler@ == old(self).fragment_assembler@,
    {
        let seq = self.sequence_out;
        self.sequence_out = self.sequence_out.wrapping_add(1);
        seq
    }

    /// Accepts an incoming sequence number when it is the expected one, and
    /// then expects the next.
    pub fn process_incoming_sequence(&mut self, sequence: u16) -> (in_order: bool)
        ensures
            in_order == (sequence == old(self).sequence_in),
            final(self).sequence_in == if in_order {
                seq_next(old(self).sequence_in)
            } else {
                old(self).sequence_in
            },
            final(self).sequence_out == old(self).sequence_out,
            final(self).encode_key == old(self).encode_key,
            final(self).crc_bytes == old(self).crc_bytes,
            final(self).max_packet_size == old(self).max_packet_size,
            final(self).connect_code == old(self).connect_code,
            final(self).state == old(self).state,
            final(self).last_ack_sent == old(self).last_ack_sent,
            final(self).addr == old(self).addr,
            final(self).fragment_assembler@ == old(self).fragment_assembler@,
    {
        if sequence == self.sequence_in {
            self.sequence_in = self.sequence_in.wrapping_add(1);
            true
        } else {
            false
        }
    }

    /// Encodes an application message (opcode little-endian, then data) as
    /// the next sequenced application datagram.
    ///
    /// Messages whose compressed form exceeds the packet size are still
    /// sent whole, in one datagram.
    pub fn build_app_packet(&mut self, app_opcode: u16, app_data: &[u8]) -> (buf: Vec<u8>)
        requires
            old(self).crc_bytes <= 4,
        ensures
            buf@ == app_packet_spec(
                old(self).sequence_out,
                le16(app_opcode) + app_data@,
                old(self).encode_key,
                old(self).crc_bytes,
            ),
            final(self).sequence_out == seq_next(old(self).sequence_out),
            final(self).sequence_in == old(self).sequence_in,
            final(self).encode_key == old(self).encode_key,
            final(self).crc_bytes == old(self).crc_bytes,
            final(self).max_packet_size == old(self).max_packet_size,
            final(self).connect_code == old(self).connect_code,
            final(self).state == old(self).state,
            final(self).last_ack_sent == old(self).last_ack_sent,
            final(self).addr == old(self).addr,
            final(self).fragment_assembler@ == old(self).fragment_assembler@,
    {
        let seq = self.next_sequence_out();
        let mut app_payload: Vec<u8> = Vec::new();
        push_u16_le(&mut app_payload, app_opcode);
        push_all(&mut app_payload, app_data);
        let compressed = compress(app_payload.as_slice());
        let max = self.max_packet_size as usize;
        if max < 6 || compressed.len() > max - 6 {
            self.build_fragmented_packet(seq, app_payload.as_slice())
        } else {
            let mut buf: Vec<u8> = Vec::new();
            buf.push(0x00);
            buf.push(OP_PACKET);
            push_u16_be(&mut buf, seq);
            push_all(&mut buf, compressed.as_slice());
            assert(buf@ =~= seq![0u8, OP_PACKET] + crate::bytes::be16(seq)
                + crate::codec::compressed_frame(app_payload@));
            append_crc(&mut buf, self.encode_key, self.crc_bytes);
            buf
        }
    }

    /// Encodes an oversized message under the sequence number just taken.
    fn build_fragmented_packet(&mut self, first_seq: u16, app_payload: &[u8]) -> (buf: Vec<u8>)
        requires
            old(self).crc_bytes <= 4,
            old(self).sequence_out == seq_next(first_seq),
        ensures
            buf@ == app_packet_spec(
                first_seq,
                app_payload@,
                old(self).encode_key,
                old(self).crc_bytes,
            ),
            *final(self) == *old(self),
    {
        let compressed = compress(app_payload);
        let seq = self.sequence_out.wrapping_sub(1);
        assert(seq == first_seq);
        let mut buf: Vec<u8> = Vec::new();
        buf.push(0x00);
        buf.push(OP_PACKET);
        push_u16_be(&mut buf, seq);
        push_all(&mut buf, compressed.as_slice());
        assert(buf@ =~= seq![0u8, OP_PACKET] + crate::bytes::be16(seq)
            + crate::codec::compressed_frame(app_payload@));
        append_crc(&mut buf, self.encode_key, self.crc_bytes);
        buf
    }
}

} // verus!
