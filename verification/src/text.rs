//! Decimal text of integers, written and read: the formatting used by the
//! text-based wire records and the parsing of numeric text columns.
use vstd::prelude::*;
use vstd::string::StrSliceExecFns;
use vstd::utf8::encode_utf8;

use crate::bytes::push_all;

verus! {

/// The ASCII decimal digits of `n`, most significant first, without
/// leading zeros ("0" for zero).
pub open spec fn digits(n: nat) -> Seq<u8>
    decreases n,
{
    if n < 10 {
        seq![(48 + n) as u8]
    } else {
        digits(n / 10) + seq![(48 + n % 10) as u8]
    }
}

/// The decimal text of `v`, with a leading '-' when it is negative.
pub open spec fn decimal(v: int) -> Seq<u8> {
    if v < 0 {
        seq![45u8] + digits((-v) as nat)
    } else {
        digits(v as nat)
    }
}

fn push_digits(buf: &mut Vec<u8>, n: u64)
    ensures
        final(buf)@ == old(buf)@ + digits(n as nat),
    decreases n,
{
    if n >= 10 {
        push_digits(buf, n / 10);
    }
    buf.push((48 + n % 10) as u8);
    assert(buf@ =~= old(buf)@ + digits(n as nat));
}

/// Appends the decimal text of `v`.
pub fn push_decimal(buf: &mut Vec<u8>, v: i64)
    requires
        v > i64::MIN,
    ensures
        final(buf)@ == old(buf)@ + decimal(v as int),
{
    if v < 0 {
        buf.push(45u8);
        push_digits(buf, (-v) as u64);
        assert(buf@ =~= old(buf)@ + decimal(v as int));
    } else {
        push_digits(buf, v as u64);
    }
}

/// Appends the UTF-8 bytes of `s`.
pub fn push_text(buf: &mut Vec<u8>, s: &str)
    ensures
        final(buf)@ == old(buf)@ + encode_utf8(s@),
{
    push_all(buf, s.as_bytes());
}

/// Appends the decimal text of `v`.
pub fn push_i32(buf: &mut Vec<u8>, v: i32)
    ensures
        final(buf)@ == old(buf)@ + decimal(v as int),
{
    push_decimal(buf, v as i64);
}

/// Appends the decimal text of `v`.
pub fn push_i16(buf: &mut Vec<u8>, v: i16)
    ensures
        final(buf)@ == old(buf)@ + decimal(v as int),
{
    push_decimal(buf, v as i64);
}

/// Appends the decimal text of `v`.
pub fn push_u32(buf: &mut Vec<u8>, v: u32)
    ensures
        final(buf)@ == old(buf)@ + decimal(v as int),
{
    push_decimal(buf, v as i64);
}

/// The decimal text of `v`.
pub fn decimal_i32(v: i32) -> (out: Vec<u8>)
    ensures
        out@ == decimal(v as int),
{
    let mut out: Vec<u8> = Vec::new();
    push_i32(&mut out, v);
    assert(out@ =~= decimal(v as int));
    out
}

/// The decimal text of `v`.
pub fn decimal_u32(v: u32) -> (out: Vec<u8>)
    ensures
        out@ == decimal(v as int),
{
    let mut out: Vec<u8> = Vec::new();
    push_u32(&mut out, v);
    assert(out@ =~= decimal(v as int));
    out
}

/// The UTF-8 bytes of `s`.
pub fn text_bytes(s: &str) -> (out: Vec<u8>)
    ensures
        out@ == encode_utf8(s@),
{
    let mut out: Vec<u8> = Vec::new();
    push_text(&mut out, s);
    assert(out@ =~= encode_utf8(s@));
    out
}

/// Whether `c` is an ASCII decimal digit.
pub open spec fn is_digit(c: char) -> bool {
    '0' <= c <= '9'
}

/// The value of a run of decimal digits.
pub open spec fn digits_value(s: Seq<char>) -> int
    decreases s.len(),
{
    if s.len() == 0 {
        0
    } else {
        digits_value(s.drop_last()) * 10 + (s.last() as int - 48)
    }
}

/// `s` without its leading sign character, if it has one.
pub open spec fn unsigned_part(s: Seq<char>) -> Seq<char> {
    if s.len() > 0 && (s[0] == '-' || s[0] == '+') {
        s.drop_first()
    } else {
        s
    }
}

/// Whether `t` is a non-empty run of decimal digits.
pub open spec fn all_digits(t: Seq<char>) -> bool {
    t.len() > 0 && forall|i: int| 0 <= i < t.len() ==> #[trigger] is_digit(t[i])
}

/// What `str::parse::<i32>` gives for `s`: an optional sign followed by
/// at least one decimal digit and nothing else, whose value fits in an
/// `i32`.
pub open spec fn parse_i32_spec(s: Seq<char>) -> Option<i32> {
    let magnitude = digits_value(unsigned_part(s));
    let v = if s.len() > 0 && s[0] == '-' {
        -magnitude
    } else {
        magnitude
    };
    if !all_digits(unsigned_part(s)) {
        None
    } else if i32::MIN <= v <= i32::MAX {
        Some(v as i32)
    } else {
        None
    }
}

/// Parses decimal text as an `i32`, as `str::parse` does.
pub fn parse_i32(s: &str) -> (r: Option<i32>)
    ensures
        r == parse_i32_spec(s@),
{
    if !s.is_ascii() {
        proof {
            let k = choose|k: int| 0 <= k < s@.len() && !('\0' <= #[trigger] s@[k] <= '\u{7f}');
            let signed = s@.len() > 0 && (s@[0] == '-' || s@[0] == '+');
            let body = unsigned_part(s@);
            if signed {
                assert(k > 0);
                assert(body[k - 1] == s@[k]);
                assert(!is_digit(body[k - 1]));
            } else {
                assert(body[k] == s@[k]);
                assert(!is_digit(body[k]));
            }
        }
        return None;
    }
    let n = s.unicode_len();
    if n == 0 {
        return None;
    }
    let first = s.get_ascii(0);
    let neg = first == 45u8;
    let start: usize = if first == 45u8 || first == 43u8 {
        1
    } else {
        0
    };
    let ghost signed = s@.len() > 0 && (s@[0] == '-' || s@[0] == '+');
    let ghost body = unsigned_part(s@);
    assert(signed == (start == 1));
    assert(body =~= s@.skip(start as int));
    if start == n {
        return None;
    }
    let mut acc: i64 = 0;
    let mut big = false;
    let mut i: usize = start;
    while i < n
        invariant
            start <= i <= n,
            n == s@.len(),
            start <= 1,
            s.is_ascii(),
            body == unsigned_part(s@),
            body =~= s@.skip(start as int),
            forall|j: int| 0 <= j < i - start ==> is_digit(body[j]),
            !big ==> acc == digits_value(body.take(i - start)) && 0 <= acc <= 0x8000_0000,
            big ==> digits_value(body.take(i - start)) > 0x8000_0000,
        decreases n - i,
    {
        let c = s.get_ascii(i);
        assert(body[i - start] == s@[i as int]);
        if c < 48u8 || c > 57u8 {
            assert(!is_digit(body[i - start]));
            return None;
        }
        let d = (c - 48u8) as i64;
        proof {
            let t = body.take(i - start + 1);
            assert(t.drop_last() =~= body.take(i - start));
            assert(t.last() == body[i - start]);
            assert(digits_value(t) == digits_value(body.take(i - start)) * 10 + d);
        }
        if !big {
            let next = acc * 10 + d;
            if next > 0x8000_0000 {
                big = true;
            } else {
                acc = next;
            }
        }
        i = i + 1;
    }
    assert(body.take(n - start) =~= body);
    assert(all_digits(body));
    if big {
        return None;
    }
    let v: i64 = if neg {
        -acc
    } else {
        acc
    };
    if v < -0x8000_0000 || v > 0x7fff_ffff {
        None
    } else {
        Some(v as i32)
    }
}

} // verus!
