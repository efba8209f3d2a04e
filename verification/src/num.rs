//! Signed decimal text for the 16-bit components of a vector: what a
//! numeric field means, an executable parser and formatter, and the
//! round-trip facts the codec rests on.

use vstd::prelude::*;

verus! {

/// True for the bytes `'0'` through `'9'`.
pub open spec fn is_digit(b: u8) -> bool {
    48 <= b <= 57
}

/// True when every byte of `s` is a decimal digit.
pub open spec fn all_digits(s: Seq<u8>) -> bool {
    forall|i: int| 0 <= i < s.len() ==> is_digit(s[i])
}

/// The number denoted by a string of decimal digits, most significant
/// digit first.
pub open spec fn digits_val(s: Seq<u8>) -> nat
    decreases s.len(),
{
    if s.len() == 0 {
        0
    } else {
        digits_val(s.drop_last()) * 10 + (s.last() - 48) as nat
    }
}

/// The canonical digit string of `n`: no sign, no leading zeros.
pub open spec fn spec_digits(n: nat) -> Seq<u8>
    decreases n,
{
    if n < 10 {
        seq![(48 + n) as u8]
    } else {
        spec_digits(n / 10).push((48 + n % 10) as u8)
    }
}

/// The canonical decimal text of `x`: a minus sign when negative, then
/// the digits of its magnitude.
pub open spec fn spec_int_text(x: int) -> Seq<u8> {
    if x < 0 {
        seq![45u8] + spec_digits((-x) as nat)
    } else {
        spec_digits(x as nat)
    }
}

/// What parsing a field's numeric run as an `i16` yields: an optional
/// leading minus sign, then at least one digit, denoting a value in
/// range; anything else is rejected.
pub open spec fn spec_parse_i16(s: Seq<u8>) -> Option<i16> {
    if s.len() >= 1 && s[0] == 45 {
        let ds = s.skip(1);
        if ds.len() >= 1 && all_digits(ds) && digits_val(ds) <= 32768 {
            Some((0 - digits_val(ds)) as i16)
        } else {
            None
        }
    } else if s.len() >= 1 && all_digits(s) && digits_val(s) <= 32767 {
        Some(digits_val(s) as i16)
    } else {
        None
    }
}

/// Appending one digit multiplies the value of the digits read so far by
/// ten, so a prefix never denotes more than the whole string.
proof fn lemma_digits_val_prefix(s: Seq<u8>, i: int)
    requires
        0 <= i <= s.len(),
    ensures
        digits_val(s.take(i)) <= digits_val(s),
    decreases s.len() - i,
{
    if i < s.len() {
        assert(s.take(i + 1).drop_last() =~= s.take(i));
        assert(digits_val(s.take(i + 1)) == digits_val(s.take(i)) * 10 + (s.take(i + 1).last()
            - 48) as nat);
        assert(digits_val(s.take(i)) <= digits_val(s.take(i)) * 10) by (nonlinear_arith);
        lemma_digits_val_prefix(s, i + 1);
    } else {
        assert(s.take(i) =~= s);
    }
}

/// Parses `s` as a signed decimal `i16`, accepting exactly the strings
/// that `spec_parse_i16` accepts.
pub fn parse_i16(s: &[u8]) -> (r: Option<i16>)
    ensures
        r == spec_parse_i16(s@),
{
    if s.len() == 0 {
        return None;
    }
    let neg: bool = *vstd::slice::slice_index_get(s, 0) == 45;
    let start: usize = if neg {
        1
    } else {
        0
    };
    if s.len() == start {
        return None;
    }
    let ghost ds = if neg {
        s@.skip(1)
    } else {
        s@
    };
    let mut acc: u32 = 0;
    let mut i: usize = start;
    while i < s.len()
        invariant
            start <= i <= s.len(),
            start == if neg {
                1int
            } else {
                0int
            },
            neg == (s@[0] == 45),
            !neg ==> acc <= 32767,
            ds == if neg {
                s@.skip(1)
            } else {
                s@
            },
            s@.len() > start,
            acc == digits_val(ds.take(i - start)),
            acc <= 32768,
            forall|j: int| 0 <= j < i - start ==> is_digit(ds[j]),
        decreases s.len() - i,
    {
        let b: u8 = *vstd::slice::slice_index_get(s, i);
        assert(ds[i - start] == s@[i as int]);
        if b < 48 || b > 57 {
            assert(!all_digits(ds));
            return None;
        }
        assert(ds.take(i + 1 - start).drop_last() =~= ds.take(i - start));
        acc = acc * 10 + ((b - 48) as u32);
        i = i + 1;
        assert(acc == digits_val(ds.take(i - start)));
        if acc > 32768 || (!neg && acc > 32767) {
            proof {
                lemma_digits_val_prefix(ds, i - start);
            }
            return None;
        }
    }
    proof {
        assert(ds.take(s@.len() - start) =~= ds);
    }
    if neg {
        Some((0 - (acc as i32)) as i16)
    } else {
        Some(acc as i16)
    }
}

/// Appends the canonical digit string of `n` to `out`.
fn push_digits(n: u32, out: &mut Vec<u8>)
    ensures
        final(out)@ == old(out)@ + spec_digits(n as nat),
    decreases n,
{
    if n < 10 {
        out.push((48 + n) as u8);
        assert(out@ =~= old(out)@ + spec_digits(n as nat));
    } else {
        push_digits(n / 10, out);
        out.push((48 + n % 10) as u8);
        assert(out@ =~= old(out)@ + spec_digits(n as nat));
    }
}

/// The canonical decimal text of `x`.
pub fn format_i16(x: i16) -> (r: Vec<u8>)
    ensures
        r@ == spec_int_text(x as int),
{
    let mut out: Vec<u8> = Vec::new();
    if x < 0 {
        out.push(45u8);
        let mag: u32 = (0 - (x as i32)) as u32;
        push_digits(mag, &mut out);
        assert(out@ =~= spec_int_text(x as int));
    } else {
        push_digits(x as u32, &mut out);
        assert(out@ =~= spec_int_text(x as int));
    }
    out
}

/// The canonical digit string is made of digits, so it holds no comma,
/// newline, sign or whitespace byte.
pub proof fn lemma_spec_digits_are_digits(n: nat)
    ensures
        spec_digits(n).len() >= 1,
        all_digits(spec_digits(n)),
    decreases n,
{
    if n >= 10 {
        lemma_spec_digits_are_digits(n / 10);
    }
}

/// The canonical digit string of `n` denotes `n`.
pub proof fn lemma_digits_val_roundtrip(n: nat)
    ensures
        digits_val(spec_digits(n)) == n,
    decreases n,
{
    if n < 10 {
        let s = spec_digits(n);
        assert(s.drop_last() =~= Seq::<u8>::empty());
        reveal_with_fuel(digits_val, 2);
    } else {
        lemma_digits_val_roundtrip(n / 10);
        let s = spec_digits(n);
        assert(s.drop_last() =~= spec_digits(n / 10));
        assert(digits_val(s) == n / 10 * 10 + n % 10);
        assert(n / 10 * 10 + n % 10 == n) by (nonlinear_arith);
    }
}

/// Parsing the canonical text of an in-range value gives the value back.
pub proof fn lemma_parse_int_text(x: int)
    requires
        -32768 <= x <= 32767,
    ensures
        spec_parse_i16(spec_int_text(x)) == Some(x as i16),
{
    if x < 0 {
        let mag = (-x) as nat;
        lemma_spec_digits_are_digits(mag);
        lemma_digits_val_roundtrip(mag);
        let s = spec_int_text(x);
        assert(s.skip(1) =~= spec_digits(mag));
        assert(s[0] == 45);
    } else {
        let s = spec_int_text(x);
        lemma_spec_digits_are_digits(x as nat);
        lemma_digits_val_roundtrip(x as nat);
        assert(is_digit(s[0]));
    }
}

} // verus!
