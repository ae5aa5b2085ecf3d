//! Byte-level building blocks shared by the wire formats: little- and
//! big-endian integer encodings, in-place field writes into fixed-size
//! buffers, and their mathematical models.
use vstd::prelude::*;
use vstd::utf8::encode_utf8;

verus! {

/// `len` zero bytes.
pub open spec fn zeros(len: nat) -> Seq<u8> {
    Seq::new(len, |i: int| 0u8)
}

/// `buf` with the bytes starting at `off` replaced by `bytes`.
pub open spec fn splice(buf: Seq<u8>, off: int, bytes: Seq<u8>) -> Seq<u8> {
    buf.take(off) + bytes + buf.skip(off + bytes.len())
}

/// Little-endian encoding of a 16-bit value.
pub open spec fn le16(v: u16) -> Seq<u8> {
    seq![(v & 0xff) as u8, ((v >> 8) & 0xff) as u8]
}

/// Big-endian encoding of a 16-bit value.
pub open spec fn be16(v: u16) -> Seq<u8> {
    seq![((v >> 8) & 0xff) as u8, (v & 0xff) as u8]
}

/// Little-endian encoding of a 32-bit value.
pub open spec fn le32(v: u32) -> Seq<u8> {
    seq![
        (v & 0xff) as u8,
        ((v >> 8) & 0xff) as u8,
        ((v >> 16) & 0xff) as u8,
        ((v >> 24) & 0xff) as u8,
    ]
}

/// Big-endian encoding of a 32-bit value.
pub open spec fn be32(v: u32) -> Seq<u8> {
    seq![
        ((v >> 24) & 0xff) as u8,
        ((v >> 16) & 0xff) as u8,
        ((v >> 8) & 0xff) as u8,
        (v & 0xff) as u8,
    ]
}

/// The 16-bit value whose big-endian encoding is `hi, lo`.
pub open spec fn be16_value(hi: u8, lo: u8) -> u16 {
    (hi as int * 256 + lo as int) as u16
}

/// The 32-bit value whose big-endian encoding is `s[off..off + 4]`.
pub open spec fn be32_value_at(s: Seq<u8>, off: int) -> u32 {
    (s[off] as int * 0x1000000 + s[off + 1] as int * 0x10000 + s[off + 2] as int * 0x100 + s[off
        + 3] as int) as u32
}

/// The 32-bit value whose little-endian encoding is `s[off..off + 4]`.
pub open spec fn le32_value_at(s: Seq<u8>, off: int) -> u32 {
    (s[off + 3] as int * 0x1000000 + s[off + 2] as int * 0x10000 + s[off + 1] as int * 0x100
        + s[off] as int) as u32
}

/// The 16-bit value whose little-endian encoding is `s[off..off + 2]`.
pub open spec fn le16_value_at(s: Seq<u8>, off: int) -> u16 {
    (s[off + 1] as int * 256 + s[off] as int) as u16
}

/// Decoding a big-endian encoding gives back the value.
pub proof fn lemma_be16_round_trip(v: u16)
    ensures
        be16_value(be16(v)[0], be16(v)[1]) == v,
{
    let hi = ((v >> 8) & 0xff) as u8;
    let lo = (v & 0xff) as u8;
    assert(hi as int * 256 + lo as int == v as int) by (bit_vector)
        requires
            hi == ((v >> 8) & 0xff) as u8,
            lo == (v & 0xff) as u8,
    ;
}

/// Decoding a big-endian encoding gives back the value.
pub proof fn lemma_be32_round_trip(v: u32)
    ensures
        be32_value_at(be32(v), 0) == v,
{
    let b0 = ((v >> 24) & 0xff) as u8;
    let b1 = ((v >> 16) & 0xff) as u8;
    let b2 = ((v >> 8) & 0xff) as u8;
    let b3 = (v & 0xff) as u8;
    assert(b0 as int * 0x1000000 + b1 as int * 0x10000 + b2 as int * 0x100 + b3 as int == v as int)
        by (bit_vector)
        requires
            b0 == ((v >> 24) & 0xff) as u8,
            b1 == ((v >> 16) & 0xff) as u8,
            b2 == ((v >> 8) & 0xff) as u8,
            b3 == (v & 0xff) as u8,
    ;
}

/// Decoding a little-endian encoding gives back the value.
pub proof fn lemma_le32_round_trip(v: u32)
    ensures
        le32_value_at(le32(v), 0) == v,
{
    let b0 = (v & 0xff) as u8;
    let b1 = ((v >> 8) & 0xff) as u8;
    let b2 = ((v >> 16) & 0xff) as u8;
    let b3 = ((v >> 24) & 0xff) as u8;
    assert(b3 as int * 0x1000000 + b2 as int * 0x10000 + b1 as int * 0x100 + b0 as int == v as int)
        by (bit_vector)
        requires
            b0 == (v & 0xff) as u8,
            b1 == ((v >> 8) & 0xff) as u8,
            b2 == ((v >> 16) & 0xff) as u8,
            b3 == ((v >> 24) & 0xff) as u8,
    ;
}

/// Decoding a little-endian encoding gives back the value.
pub proof fn lemma_le16_round_trip(v: u16)
    ensures
        le16_value_at(le16(v), 0) == v,
{
    let lo = (v & 0xff) as u8;
    let hi = ((v >> 8) & 0xff) as u8;
    assert(hi as int * 256 + lo as int == v as int) by (bit_vector)
        requires
            hi == ((v >> 8) & 0xff) as u8,
            lo == (v & 0xff) as u8,
    ;
}

/// A buffer of `len` zero bytes.
pub fn zeroed(len: usize) -> (buf: Vec<u8>)
    ensures
        buf@ == zeros(len as nat),
{
    let mut buf: Vec<u8> = Vec::with_capacity(len);
    let mut i: usize = 0;
    while i < len
        invariant
            i <= len,
            buf@ == zeros(i as nat),
        decreases len - i,
    {
        buf.push(0u8);
        i = i + 1;
        assert(buf@ =~= zeros(i as nat));
    }
    buf
}

/// Appends the little-endian encoding of `v`.
pub fn push_u16_le(buf: &mut Vec<u8>, v: u16)
    ensures
        final(buf)@ == old(buf)@ + le16(v),
{
    buf.push((v & 0xff) as u8);
    buf.push(((v >> 8) & 0xff) as u8);
    assert(buf@ =~= old(buf)@ + le16(v));
}

/// Appends the big-endian encoding of `v`.
pub fn push_u16_be(buf: &mut Vec<u8>, v: u16)
    ensures
        final(buf)@ == old(buf)@ + be16(v),
{
    buf.push(((v >> 8) & 0xff) as u8);
    buf.push((v & 0xff) as u8);
    assert(buf@ =~= old(buf)@ + be16(v));
}

/// Appends the little-endian encoding of `v`.
pub fn push_u32_le(buf: &mut Vec<u8>, v: u32)
    ensures
        final(buf)@ == old(buf)@ + le32(v),
{
    buf.push((v & 0xff) as u8);
    buf.push(((v >> 8) & 0xff) as u8);
    buf.push(((v >> 16) & 0xff) as u8);
    buf.push(((v >> 24) & 0xff) as u8);
    assert(buf@ =~= old(buf)@ + le32(v));
}

/// Appends the big-endian encoding of `v`.
pub fn push_u32_be(buf: &mut Vec<u8>, v: u32)
    ensures
        final(buf)@ == old(buf)@ + be32(v),
{
    buf.push(((v >> 24) & 0xff) as u8);
    buf.push(((v >> 16) & 0xff) as u8);
    buf.push(((v >> 8) & 0xff) as u8);
    buf.push((v & 0xff) as u8);
    assert(buf@ =~= old(buf)@ + be32(v));
}

/// Appends all of `bytes`.
pub fn push_all(buf: &mut Vec<u8>, bytes: &[u8])
    ensures
        final(buf)@ == old(buf)@ + bytes@,
{
    let mut i: usize = 0;
    while i < bytes.len()
        invariant
            i <= bytes@.len(),
            buf@ == old(buf)@ + bytes@.take(i as int),
        decreases bytes@.len() - i,
    {
        buf.push(bytes[i]);
        i = i + 1;
        assert(buf@ =~= old(buf)@ + bytes@.take(i as int));
    }
    assert(bytes@.take(i as int) =~= bytes@);
}

/// Overwrites `bytes.len()` bytes of `buf` starting at `off`.
pub fn write_bytes(buf: &mut Vec<u8>, off: usize, bytes: &[u8])
    requires
        off + bytes@.len() <= old(buf)@.len(),
    ensures
        final(buf)@ == splice(old(buf)@, off as int, bytes@),
        final(buf)@.len() == old(buf)@.len(),
{
    let n = buf.len();
    let mut i: usize = 0;
    while i < bytes.len()
        invariant
            i <= bytes@.len(),
            n == old(buf)@.len(),
            off + bytes@.len() <= old(buf)@.len(),
            buf@ == splice(old(buf)@, off as int, bytes@.take(i as int)),
        decreases bytes@.len() - i,
    {
        buf.set(off + i, bytes[i]);
        i = i + 1;
        assert(buf@ =~= splice(old(buf)@, off as int, bytes@.take(i as int)));
    }
    assert(bytes@.take(i as int) =~= bytes@);
}

/// Stores one byte at `off`.
pub fn write_u8(buf: &mut Vec<u8>, off: usize, val: u8)
    requires
        off < old(buf)@.len(),
    ensures
        final(buf)@ == splice(old(buf)@, off as int, seq![val]),
        final(buf)@.len() == old(buf)@.len(),
{
    buf.set(off, val);
    assert(buf@ =~= splice(old(buf)@, off as int, seq![val]));
}

/// Stores the little-endian encoding of `val` at `off`.
pub fn write_u16_le(buf: &mut Vec<u8>, off: usize, val: u16)
    requires
        off + 2 <= old(buf)@.len(),
    ensures
        final(buf)@ == splice(old(buf)@, off as int, le16(val)),
        final(buf)@.len() == old(buf)@.len(),
{
    let _n = buf.len();
    buf.set(off, (val & 0xff) as u8);
    buf.set(off + 1, ((val >> 8) & 0xff) as u8);
    assert(buf@ =~= splice(old(buf)@, off as int, le16(val)));
}

/// Stores the little-endian encoding of `val` at `off`.
pub fn write_u32_le(buf: &mut Vec<u8>, off: usize, val: u32)
    requires
        off + 4 <= old(buf)@.len(),
    ensures
        final(buf)@ == splice(old(buf)@, off as int, le32(val)),
        final(buf)@.len() == old(buf)@.len(),
{
    let _n = buf.len();
    buf.set(off, (val & 0xff) as u8);
    buf.set(off + 1, ((val >> 8) & 0xff) as u8);
    buf.set(off + 2, ((val >> 16) & 0xff) as u8);
    buf.set(off + 3, ((val >> 24) & 0xff) as u8);
    assert(buf@ =~= splice(old(buf)@, off as int, le32(val)));
}

/// `count` copies of `val`.
pub open spec fn repeated(val: u8, count: nat) -> Seq<u8> {
    Seq::new(count, |i: int| val)
}

/// Sets the `count` bytes of `buf` starting at `off` to `val`.
pub fn write_repeated(buf: &mut Vec<u8>, off: usize, count: usize, val: u8)
    requires
        off + count <= old(buf)@.len(),
    ensures
        final(buf)@ == splice(old(buf)@, off as int, repeated(val, count as nat)),
        final(buf)@.len() == old(buf)@.len(),
{
    let n = buf.len();
    let mut i: usize = 0;
    while i < count
        invariant
            i <= count,
            n == old(buf)@.len(),
            off + count <= n,
            buf@ == splice(old(buf)@, off as int, repeated(val, i as nat)),
        decreases count - i,
    {
        buf.set(off + i, val);
        i = i + 1;
        assert(buf@ =~= splice(old(buf)@, off as int, repeated(val, i as nat)));
    }
}

/// Appends `count` copies of `val`.
pub fn push_repeated(buf: &mut Vec<u8>, val: u8, count: usize)
    ensures
        final(buf)@ == old(buf)@ + repeated(val, count as nat),
{
    let mut i: usize = 0;
    while i < count
        invariant
            i <= count,
            buf@ == old(buf)@ + repeated(val, i as nat),
        decreases count - i,
    {
        buf.push(val);
        i = i + 1;
        assert(buf@ =~= old(buf)@ + repeated(val, i as nat));
    }
}

/// The bytes a fixed-width text field of `width` bytes holds for a text
/// whose UTF-8 encoding is `text`: at most `width - 1` of its bytes, so
/// that the field stays NUL-terminated.
pub open spec fn text_field(text: Seq<u8>, width: nat) -> Seq<u8> {
    if text.len() < width - 1 {
        text
    } else {
        text.take(width - 1)
    }
}

/// Copies the UTF-8 bytes of `s` into the `max_len`-byte field at `off`,
/// truncated to `max_len - 1` bytes; the rest of the field is left as is.
pub fn write_str(buf: &mut Vec<u8>, off: usize, s: &str, max_len: usize)
    requires
        max_len >= 1,
        off + text_field(encode_utf8(s@), max_len as nat).len() <= old(buf)@.len(),
    ensures
        final(buf)@ == splice(old(buf)@, off as int, text_field(encode_utf8(s@), max_len as nat)),
        final(buf)@.len() == old(buf)@.len(),
{
    let bytes = s.as_bytes();
    let len = if bytes.len() < max_len - 1 {
        bytes.len()
    } else {
        max_len - 1
    };
    let field = vstd::slice::slice_subrange(bytes, 0, len);
    assert(field@ =~= text_field(encode_utf8(s@), max_len as nat));
    write_bytes(buf, off, field);
}

} // verus!
