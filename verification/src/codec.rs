//! Transport encoding of the session protocol: the keyed CRC trailer that
//! protects each datagram and the one-byte-flagged zlib compression of
//! payloads.
use std::io::Read;
use std::io::Write;

use vstd::prelude::*;

use crate::bytes::{be32, push_all, push_u32_be};

verus! {

/// One step of the reflected CRC-32 (IEEE 802.3) shift register.
pub open spec fn crc_shift(c: u32) -> u32 {
    if c & 1 == 1 {
        (c >> 1) ^ 0xEDB8_8320
    } else {
        c >> 1
    }
}

/// The register after feeding one byte.
pub open spec fn crc_byte(c: u32, b: u8) -> u32 {
    let x = c ^ (b as u32);
    crc_shift(crc_shift(crc_shift(crc_shift(crc_shift(crc_shift(crc_shift(crc_shift(x))))))))
}

/// The register after feeding all of `s`, starting from `c` (no final inversion).
pub open spec fn crc_register(c: u32, s: Seq<u8>) -> u32
    decreases s.len(),
{
    if s.len() == 0 {
        c
    } else {
        crc_byte(crc_register(c, s.drop_last()), s.last())
    }
}

/// The standard CRC-32 (IEEE) checksum of `s`.
pub open spec fn crc32_ieee(s: Seq<u8>) -> u32 {
    !crc_register(0xFFFF_FFFF, s)
}

/// `crc32fast::hash`: computes the standard CRC-32 (IEEE) checksum of the
/// bytes; the contract states that checksum exactly.
#[verifier::external_body]
fn crc32fast_hash(data: &[u8]) -> (h: u32)
    ensures
        h == crc32_ieee(data@),
{
    crc32fast::hash(data)
}

/// One shift of the CRC register.
fn crc_shift_exec(c: u32) -> (r: u32)
    ensures
        r == crc_shift(c),
{
    if c & 1 == 1 {
        (c >> 1) ^ 0xEDB8_8320
    } else {
        c >> 1
    }
}

/// Feeds one byte to the CRC register.
pub fn crc_update(c: u32, b: u8) -> (r: u32)
    ensures
        r == crc_byte(c, b),
{
    let mut x = c ^ (b as u32);
    x = crc_shift_exec(x);
    x = crc_shift_exec(x);
    x = crc_shift_exec(x);
    x = crc_shift_exec(x);
    x = crc_shift_exec(x);
    x = crc_shift_exec(x);
    x = crc_shift_exec(x);
    x = crc_shift_exec(x);
    x
}

/// The session checksum: CRC-32 of `data`, XORed with the session key.
pub fn crc32(data: &[u8], key: u32) -> (crc: u32)
    ensures
        crc == crc32_ieee(data@) ^ key,
{
    let mut crc = crc32fast_hash(data);
    crc = crc ^ key;
    crc
}

/// The trailer carrying the low `n` bytes of `crc`, most significant first.
pub open spec fn crc_trailer(crc: u32, n: u8) -> Seq<u8> {
    be32(crc).skip(4 - n)
}

/// `data` with its `n`-byte keyed CRC trailer appended (unchanged when `n` is 0).
pub open spec fn crc_appended(data: Seq<u8>, key: u32, n: u8) -> Seq<u8> {
    if n == 0 {
        data
    } else {
        data + crc_trailer(crc32_ieee(data) ^ key, n)
    }
}

/// Whether a received datagram passes the trailer check, and what remains of it.
///
/// Datagrams too short to hold a trailer and two header bytes, and all
/// datagrams when `n` is 0, are accepted unchanged.
pub open spec fn crc_checked(data: Seq<u8>, key: u32, n: u8) -> (bool, Seq<u8>) {
    if n == 0 || data.len() < n + 2 {
        (true, data)
    } else {
        let body = data.take(data.len() - n);
        if data.skip(data.len() - n) == crc_trailer(crc32_ieee(body) ^ key, n) {
            (true, body)
        } else {
            (false, data)
        }
    }
}

/// Appends the low `crc_bytes` bytes of the keyed CRC of `data` to it,
/// most significant first.
pub fn append_crc(data: &mut Vec<u8>, key: u32, crc_bytes: u8)
    requires
        crc_bytes <= 4,
    ensures
        final(data)@ == crc_appended(old(data)@, key, crc_bytes),
{
    if crc_bytes == 0 {
        return;
    }
    let crc = crc32(data.as_slice(), key);
    let mut crc_be: Vec<u8> = Vec::new();
    push_u32_be(&mut crc_be, crc);
    let start: usize = 4 - crc_bytes as usize;
    let mut i: usize = start;
    while i < 4
        invariant
            start <= i <= 4,
            start == 4 - crc_bytes,
            crc_be@ == be32(crc),
            data@ == old(data)@ + crc_be@.subrange(start as int, i as int),
        decreases 4 - i,
    {
        data.push(crc_be[i]);
        i = i + 1;
        assert(data@ =~= old(data)@ + crc_be@.subrange(start as int, i as int));
    }
    assert(crc_be@.subrange(start as int, 4) =~= crc_trailer(crc, crc_bytes));
}

/// Checks the keyed CRC trailer of a received datagram and strips it.
///
/// Returns false, leaving `data` unchanged, when the trailer does not match.
pub fn verify_and_strip_crc(data: &mut Vec<u8>, key: u32, crc_bytes: u8) -> (ok: bool)
    requires
        crc_bytes <= 4 || old(data)@.len() < crc_bytes + 2,
    ensures
        (ok, final(data)@) == crc_checked(old(data)@, key, crc_bytes),
{
    if crc_bytes == 0 || data.len() < crc_bytes as usize + 2 {
        return true;
    }
    let crc_len = crc_bytes as usize;
    let body_len = data.len() - crc_len;
    let mut body: Vec<u8> = Vec::with_capacity(body_len);
    let mut i: usize = 0;
    while i < body_len
        invariant
            i <= body_len,
            body_len == data@.len() - crc_len,
            data@ == old(data)@,
            body@ == data@.take(i as int),
        decreases body_len - i,
    {
        body.push(data[i]);
        i = i + 1;
        assert(body@ =~= data@.take(i as int));
    }
    let crc = crc32(body.as_slice(), key);
    let mut crc_be: Vec<u8> = Vec::new();
    push_u32_be(&mut crc_be, crc);
    let start: usize = 4 - crc_len;
    let total = data.len();
    let mut j: usize = 0;
    let mut same = true;
    assert(data@.subrange(body_len as int, body_len as int) =~= crc_be@.subrange(
        start as int,
        start as int,
    ));
    while j < crc_len
        invariant
            j <= crc_len,
            total == data@.len(),
            crc_len <= 4,
            start == 4 - crc_len,
            body_len == data@.len() - crc_len,
            data@ == old(data)@,
            crc_be@ == be32(crc),
            same == (data@.subrange(body_len as int, body_len + j) == crc_be@.subrange(
                start as int,
                start + j,
            )),
        decreases crc_len - j,
    {
        let a = data[body_len + j];
        let e = crc_be[start + j];
        proof {
            if same {
                assert(data@.subrange(body_len as int, body_len + j + 1) =~= data@.subrange(
                    body_len as int,
                    body_len + j,
                ).push(a));
                assert(crc_be@.subrange(start as int, start + j + 1) =~= crc_be@.subrange(
                    start as int,
                    start + j,
                ).push(e));
            } else {
                let x = data@.subrange(body_len as int, body_len + j);
                let y = crc_be@.subrange(start as int, start + j);
                if data@.subrange(body_len as int, body_len + j + 1) == crc_be@.subrange(
                    start as int,
                    start + j + 1,
                ) {
                    assert(x =~= data@.subrange(body_len as int, body_len + j + 1).take(j as int));
                    assert(y =~= crc_be@.subrange(start as int, start + j + 1).take(j as int));
                }
            }
            if a != e {
                assert(data@.subrange(body_len as int, body_len + j + 1)[j as int] == a);
                assert(crc_be@.subrange(start as int, start + j + 1)[j as int] == e);
            }
        }
        if a != e {
            same = false;
        }
        j = j + 1;
    }
    assert(data@.subrange(body_len as int, body_len + crc_len) =~= data@.skip(body_len as int));
    assert(crc_be@.subrange(start as int, start + crc_len) =~= crc_trailer(crc, crc_bytes));
    assert(body@ =~= data@.take(body_len as int));
    if !same {
        return false;
    }
    data.truncate(body_len);
    assert(data@ =~= body@);
    true
}

/// Law: a trailer appended by the sender is accepted and removed by the
/// receiver, giving back the datagram as it was sent. Datagrams of fewer than two
/// bytes are passed through unchecked, so the trailer stays on them.
pub proof fn law_crc_round_trip(data: Seq<u8>, key: u32, n: u8)
    requires
        n <= 4,
        data.len() >= 2,
    ensures
        crc_checked(crc_appended(data, key, n), key, n) == (true, data),
{
    if n != 0 {
        let a = crc_appended(data, key, n);
        assert(a.take(a.len() - n) =~= data);
        assert(a.skip(a.len() - n) =~= crc_trailer(crc32_ieee(data) ^ key, n));
    }
}

/// The output of the zlib encoder (default level) on `data`.
pub uninterp spec fn zlib_deflate(data: Seq<u8>) -> Seq<u8>;

/// What the zlib decoder makes of `data`: the inflated bytes, or `None` when
/// the stream is malformed.
pub uninterp spec fn zlib_inflate(data: Seq<u8>) -> Option<Seq<u8>>;

/// `flate2::write::ZlibEncoder` at the default level, written to a `Vec` and
/// finished. The contract names its output and states the codec's
/// round-trip property: the decoder gives the input back.
#[verifier::external_body]
fn zlib_compress(data: &[u8]) -> (out: Vec<u8>)
    ensures
        out@ == zlib_deflate(data@),
        zlib_inflate(out@) == Some(data@),
{
    let mut encoder = flate2::write::ZlibEncoder::new(Vec::new(), flate2::Compression::default());
    encoder.write_all(data).unwrap();
    encoder.finish().unwrap()
}

/// `flate2::read::ZlibDecoder` read to the end; `None` when the decoder
/// reports an error. The contract ties the outcome to the named decoder
/// result.
#[verifier::external_body]
fn zlib_decompress(data: &[u8]) -> (out: Option<Vec<u8>>)
    ensures
        match out {
            Some(v) => zlib_inflate(data@) == Some(v@),
            None => zlib_inflate(data@) is None,
        },
{
    let mut decoder = flate2::read::ZlibDecoder::new(data);
    let mut out = Vec::new();
    match decoder.read_to_end(&mut out) {
        Ok(_) => Some(out),
        Err(_) => None,
    }
}

/// Flag byte announcing a zlib-compressed payload.
pub const COMPRESSED_FLAG: u8 = 0xa5;

/// Flag byte announcing a payload sent as is.
pub const UNCOMPRESSED_FLAG: u8 = 0x00;

/// The framed form of `data`: the compressed flag and the zlib stream when
/// that is strictly shorter than `data`, else the plain flag and `data`.
pub open spec fn compressed_frame(data: Seq<u8>) -> Seq<u8> {
    let z = zlib_deflate(data);
    if z.len() < data.len() {
        seq![COMPRESSED_FLAG] + z
    } else {
        seq![UNCOMPRESSED_FLAG] + data
    }
}

/// Errors when decoding a payload frame.
#[derive(Debug, PartialEq, Eq, Clone, Copy)]
pub enum CodecError {
    /// The payload is flagged as compressed but is not a valid zlib stream.
    Inflate,
}

/// What decoding a frame gives: empty for an empty frame; the inflated
/// stream after a compressed flag; else everything after the flag byte.
pub open spec fn decoded_frame(data: Seq<u8>) -> Result<Seq<u8>, CodecError> {
    if data.len() == 0 {
        Ok(Seq::empty())
    } else if data[0] == COMPRESSED_FLAG {
        match zlib_inflate(data.skip(1)) {
            Some(v) => Ok(v),
            None => Err(CodecError::Inflate),
        }
    } else {
        Ok(data.skip(1))
    }
}

fn copy_from(data: &[u8], start: usize) -> (out: Vec<u8>)
    requires
        start <= data@.len(),
    ensures
        out@ == data@.skip(start as int),
{
    let mut out: Vec<u8> = Vec::new();
    let mut i: usize = start;
    while i < data.len()
        invariant
            start <= i <= data@.len(),
            out@ == data@.subrange(start as int, i as int),
        decreases data@.len() - i,
    {
        out.push(data[i]);
        i = i + 1;
        assert(out@ =~= data@.subrange(start as int, i as int));
    }
    assert(out@ =~= data@.skip(start as int));
    out
}

/// Decodes a payload frame produced by [`compress`].
pub fn decompress(data: &[u8]) -> (res: Result<Vec<u8>, CodecError>)
    ensures
        match (res, decoded_frame(data@)) {
            (Ok(v), Ok(w)) => v@ == w,
            (Err(e), Err(f)) => e == f,
            _ => false,
        },
{
    if data.len() == 0 {
        let out: Vec<u8> = Vec::new();
        assert(out@ =~= Seq::<u8>::empty());
        return Ok(out);
    }
    let flag = data[0];
    let rest = copy_from(data, 1);
    if flag == COMPRESSED_FLAG {
        match zlib_decompress(rest.as_slice()) {
            Some(out) => Ok(out),
            None => Err(CodecError::Inflate),
        }
    } else {
        Ok(rest)
    }
}

/// Frames a payload, compressing it when that makes it shorter.
///
/// The frame always decodes back to `data`.
pub fn compress(data: &[u8]) -> (out: Vec<u8>)
    ensures
        out@ == compressed_frame(data@),
        decoded_frame(out@) == Ok::<Seq<u8>, CodecError>(data@),
{
    let compressed = zlib_compress(data);
    let mut out: Vec<u8> = Vec::new();
    if compressed.len() < data.len() {
        out.push(COMPRESSED_FLAG);
        push_all(&mut out, compressed.as_slice());
        assert(out@.skip(1) =~= compressed@);
    } else {
        out.push(UNCOMPRESSED_FLAG);
        push_all(&mut out, data);
        assert(out@.skip(1) =~= data@);
    }
    out
}

} // verus!
