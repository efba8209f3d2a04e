//! The line codec: what one newline-terminated report line means, an
//! executable decoder and encoder, and the proof that decoding an encoded
//! line gives the original vector back.
//!
//! A report line is `<tag>:<x>,<y>,<z>` with tag `A` (linear
//! acceleration) or `G` (gravity). After the two prefix bytes the rest is
//! split on commas into exactly three fields; in each field everything
//! before the first digit or minus sign is ignored, trailing ASCII
//! whitespace is trimmed, and the rest must parse as a signed 16-bit
//! decimal. Any other shape decodes to `ParsedLine::Unrecognized`.

use vstd::prelude::*;

use crate::num::{is_digit, lemma_parse_int_text, lemma_spec_digits_are_digits, parse_i16, spec_int_text, spec_parse_i16};
use crate::types::{FixedPointVector, ParsedLine};

verus! {

/// The byte tagging an acceleration line: `'A'`.
pub const ACCEL_TAG: u8 = 65;

/// The byte tagging a gravity line: `'G'`.
pub const GRAVITY_TAG: u8 = 71;

/// Index of the first occurrence of `t` in `s`, if any.
pub open spec fn find_byte(s: Seq<u8>, t: u8) -> Option<int>
    decreases s.len(),
{
    if s.len() == 0 {
        None
    } else if s[0] == t {
        Some(0)
    } else {
        match find_byte(s.skip(1), t) {
            Some(i) => Some(i + 1),
            None => None,
        }
    }
}

/// What `find_byte` returns: the first index holding `t`, or nothing
/// when `t` does not occur.
pub proof fn lemma_find_byte(s: Seq<u8>, t: u8)
    ensures
        match find_byte(s, t) {
            Some(i) => 0 <= i < s.len() && s[i] == t && (forall|j: int| 0 <= j < i ==> s[j] != t),
            None => forall|j: int| 0 <= j < s.len() ==> s[j] != t,
        },
    decreases s.len(),
{
    if s.len() > 0 && s[0] != t {
        lemma_find_byte(s.skip(1), t);
        match find_byte(s.skip(1), t) {
            Some(i) => {
                assert(find_byte(s, t) == Some(i + 1));
                assert(s[i + 1] == s.skip(1)[i]);
                assert forall|j: int| 0 <= j < i + 1 implies s[j] != t by {
                    if j > 0 {
                        assert(s[j] == s.skip(1)[j - 1]);
                    }
                }
            },
            None => {
                assert forall|j: int| 0 <= j < s.len() implies s[j] != t by {
                    if j > 0 {
                        assert(s[j] == s.skip(1)[j - 1]);
                    }
                }
            },
        }
    }
}

/// The first index holding `t` is exactly what `find_byte` returns.
pub proof fn lemma_find_byte_is(s: Seq<u8>, t: u8, i: int)
    requires
        0 <= i < s.len(),
        s[i] == t,
        forall|j: int| 0 <= j < i ==> s[j] != t,
    ensures
        find_byte(s, t) == Some(i),
    decreases i,
{
    if i > 0 {
        assert(forall|j: int| 0 <= j < s.skip(1).len() ==> s.skip(1)[j] == s[j + 1]);
        lemma_find_byte_is(s.skip(1), t, i - 1);
    }
}

/// When `t` occurs nowhere in `s`, `find_byte` returns nothing.
pub proof fn lemma_find_byte_absent(s: Seq<u8>, t: u8)
    requires
        forall|j: int| 0 <= j < s.len() ==> s[j] != t,
    ensures
        find_byte(s, t) is None,
    decreases s.len(),
{
    if s.len() > 0 {
        assert(forall|j: int| 0 <= j < s.skip(1).len() ==> s.skip(1)[j] == s[j + 1]);
        lemma_find_byte_absent(s.skip(1), t);
    }
}

/// Index of the first occurrence of `t` in `s`, as executable code.
pub fn find_byte_in(s: &[u8], t: u8) -> (r: Option<usize>)
    ensures
        match r {
            Some(i) => i < s@.len() && find_byte(s@, t) == Some(i as int),
            None => find_byte(s@, t) is None,
        },
{
    let mut i: usize = 0;
    while i < s.len()
        invariant
            0 <= i <= s.len(),
            forall|j: int| 0 <= j < i ==> s@[j] != t,
        decreases s.len() - i,
    {
        if *vstd::slice::slice_index_get(s, i) == t {
            proof {
                lemma_find_byte_is(s@, t, i as int);
            }
            return Some(i);
        }
        i = i + 1;
    }
    proof {
        lemma_find_byte_absent(s@, t);
    }
    None
}

/// True for a byte that can open the numeric run of a field: a decimal
/// digit or a minus sign.
pub open spec fn is_num_byte(b: u8) -> bool {
    is_digit(b) || b == 45
}

/// Index of the first digit or minus sign in `s`, if any.
pub open spec fn find_num(s: Seq<u8>) -> Option<int>
    decreases s.len(),
{
    if s.len() == 0 {
        None
    } else if is_num_byte(s[0]) {
        Some(0)
    } else {
        match find_num(s.skip(1)) {
            Some(i) => Some(i + 1),
            None => None,
        }
    }
}

/// The first index holding a digit or minus sign is exactly what
/// `find_num` returns.
pub proof fn lemma_find_num_is(s: Seq<u8>, i: int)
    requires
        0 <= i < s.len(),
        is_num_byte(s[i]),
        forall|j: int| 0 <= j < i ==> !is_num_byte(s[j]),
    ensures
        find_num(s) == Some(i),
    decreases i,
{
    if i > 0 {
        assert(forall|j: int| 0 <= j < s.skip(1).len() ==> s.skip(1)[j] == s[j + 1]);
        lemma_find_num_is(s.skip(1), i - 1);
    }
}

/// When no digit or minus sign occurs in `s`, `find_num` returns nothing.
pub proof fn lemma_find_num_absent(s: Seq<u8>)
    requires
        forall|j: int| 0 <= j < s.len() ==> !is_num_byte(s[j]),
    ensures
        find_num(s) is None,
    decreases s.len(),
{
    if s.len() > 0 {
        assert(forall|j: int| 0 <= j < s.skip(1).len() ==> s.skip(1)[j] == s[j + 1]);
        lemma_find_num_absent(s.skip(1));
    }
}

/// Index of the first digit or minus sign in `s`, as executable code.
pub fn find_num_in(s: &[u8]) -> (r: Option<usize>)
    ensures
        match r {
            Some(i) => i < s@.len() && find_num(s@) == Some(i as int),
            None => find_num(s@) is None,
        },
{
    let mut i: usize = 0;
    while i < s.len()
        invariant
            0 <= i <= s.len(),
            forall|j: int| 0 <= j < i ==> !is_num_byte(s@[j]),
        decreases s.len() - i,
    {
        let b: u8 = *vstd::slice::slice_index_get(s, i);
        if (48 <= b && b <= 57) || b == 45 {
            proof {
                lemma_find_num_is(s@, i as int);
            }
            return Some(i);
        }
        i = i + 1;
    }
    proof {
        lemma_find_num_absent(s@);
    }
    None
}

/// True for the ASCII whitespace bytes: tab, newline, vertical tab, form
/// feed, carriage return and space.
pub open spec fn is_ws(b: u8) -> bool {
    b == 9 || b == 10 || b == 11 || b == 12 || b == 13 || b == 32
}

/// `s` with its trailing ASCII whitespace removed.
pub open spec fn trim_end_ws(s: Seq<u8>) -> Seq<u8>
    decreases s.len(),
{
    if s.len() > 0 && is_ws(s.last()) {
        trim_end_ws(s.drop_last())
    } else {
        s
    }
}

/// The fields of `s`, split on commas; a string without commas is one
/// field, and every comma opens one more.
pub open spec fn split_commas(s: Seq<u8>) -> Seq<Seq<u8>>
    decreases s.len(),
{
    match find_byte(s, 44) {
        Some(i) => {
            if 0 <= i < s.len() {
                seq![s.take(i)] + split_commas(s.skip(i + 1))
            } else {
                seq![s]
            }
        },
        None => seq![s],
    }
}

/// Splitting always yields at least one field.
pub proof fn lemma_split_commas_len(s: Seq<u8>)
    ensures
        split_commas(s).len() >= 1,
    decreases s.len(),
{
    match find_byte(s, 44) {
        Some(i) => {
            lemma_find_byte(s, 44);
            lemma_split_commas_len(s.skip(i + 1));
        },
        None => {},
    }
}

/// What one comma-separated field denotes: everything before the first
/// digit or minus sign is ignored, trailing whitespace is trimmed, and
/// the rest must be a signed 16-bit decimal.
pub open spec fn spec_parse_field(f: Seq<u8>) -> Option<i16> {
    match find_num(f) {
        Some(i) => spec_parse_i16(trim_end_ws(f.skip(i))),
        None => None,
    }
}

/// What the text after the two prefix bytes denotes: exactly three
/// comma-separated fields, each a signed 16-bit decimal.
pub open spec fn spec_parse_fields(rest: Seq<u8>) -> Option<(i16, i16, i16)> {
    let fs = split_commas(rest);
    if fs.len() == 3 {
        match (spec_parse_field(fs[0]), spec_parse_field(fs[1]), spec_parse_field(fs[2])) {
            (Some(x), Some(y), Some(z)) => Some((x, y, z)),
            _ => None,
        }
    } else {
        None
    }
}

/// What one line denotes: an acceleration or gravity vector when it
/// opens with `A:` or `G:` and carries three well-formed fields, and
/// `Unrecognized` otherwise.
pub open spec fn spec_parse_line(line: Seq<u8>) -> ParsedLine {
    if line.len() >= 2 && line[0] == ACCEL_TAG && line[1] == 58 {
        match spec_parse_fields(line.skip(2)) {
            Some(v) => ParsedLine::Accel(FixedPointVector { x: v.0, y: v.1, z: v.2 }),
            None => ParsedLine::Unrecognized,
        }
    } else if line.len() >= 2 && line[0] == GRAVITY_TAG && line[1] == 58 {
        match spec_parse_fields(line.skip(2)) {
            Some(v) => ParsedLine::Grav(FixedPointVector { x: v.0, y: v.1, z: v.2 }),
            None => ParsedLine::Unrecognized,
        }
    } else {
        ParsedLine::Unrecognized
    }
}

/// Parses one comma-separated field.
fn parse_field(f: &[u8]) -> (r: Option<i16>)
    ensures
        r == spec_parse_field(f@),
{
    match find_num_in(f) {
        None => None,
        Some(i) => {
            let sub: &[u8] = vstd::slice::slice_subrange(f, i, f.len());
            assert(sub@ == f@.skip(i as int));
            let mut end: usize = sub.len();
            proof {
                assert(sub@.take(sub@.len() as int) =~= sub@);
            }
            loop
                invariant
                    0 <= end <= sub.len(),
                    trim_end_ws(sub@.take(end as int)) == trim_end_ws(sub@),
                ensures
                    0 <= end <= sub.len(),
                    sub@.take(end as int) == trim_end_ws(sub@),
                decreases end,
            {
                if end == 0 {
                    break ;
                }
                let b: u8 = *vstd::slice::slice_index_get(sub, end - 1);
                if !(b == 9 || b == 10 || b == 11 || b == 12 || b == 13 || b == 32) {
                    break ;
                }
                proof {
                    assert(sub@.take(end as int).drop_last() =~= sub@.take(end - 1));
                }
                end = end - 1;
            }
            parse_i16(vstd::slice::slice_subrange(sub, 0, end))
        },
    }
}

/// Decodes one line of node output.
///
/// A line is recognized exactly when it opens with `A:` or `G:` and the
/// remainder is three comma-separated signed 16-bit decimal fields.
pub fn parse_line(line: &[u8]) -> (r: ParsedLine)
    ensures
        r == spec_parse_line(line@),
{
    if line.len() < 2 {
        return ParsedLine::Unrecognized;
    }
    let tag: u8 = *vstd::slice::slice_index_get(line, 0);
    let colon: u8 = *vstd::slice::slice_index_get(line, 1);
    if colon != 58 || (tag != ACCEL_TAG && tag != GRAVITY_TAG) {
        return ParsedLine::Unrecognized;
    }
    let rest: &[u8] = vstd::slice::slice_subrange(line, 2, line.len());
    assert(rest@ == line@.skip(2));
    match parse_fields(rest) {
        Some(v) => {
            if tag == ACCEL_TAG {
                ParsedLine::Accel(FixedPointVector::new(v.0, v.1, v.2))
            } else {
                ParsedLine::Grav(FixedPointVector::new(v.0, v.1, v.2))
            }
        },
        None => ParsedLine::Unrecognized,
    }
}

/// Splits the text after the prefix into fields and parses them,
/// demanding exactly three.
fn parse_fields(rest: &[u8]) -> (r: Option<(i16, i16, i16)>)
    ensures
        r == spec_parse_fields(rest@),
{
    let c1: usize = match find_byte_in(rest, 44) {
        None => {
            assert(split_commas(rest@) == seq![rest@]);
            return None;
        },
        Some(c) => c,
    };
    let rest_len: usize = rest.len();
    let tail1: &[u8] = vstd::slice::slice_subrange(rest, c1 + 1, rest_len);
    assert(tail1@ == rest@.skip(c1 + 1));
    assert(split_commas(rest@) == seq![rest@.take(c1 as int)] + split_commas(tail1@));
    let c2: usize = match find_byte_in(tail1, 44) {
        None => {
            assert(split_commas(tail1@) == seq![tail1@]);
            return None;
        },
        Some(c) => c,
    };
    let tail1_len: usize = tail1.len();
    let tail2: &[u8] = vstd::slice::slice_subrange(tail1, c2 + 1, tail1_len);
    assert(tail2@ == tail1@.skip(c2 + 1));
    assert(split_commas(tail1@) == seq![tail1@.take(c2 as int)] + split_commas(tail2@));
    if let Some(c3) = find_byte_in(tail2, 44) {
        proof {
            lemma_split_commas_len(tail2@.skip(c3 + 1));
        }
        assert(split_commas(tail2@) == seq![tail2@.take(c3 as int)] + split_commas(
            tail2@.skip(c3 + 1),
        ));
        return None;
    }
    assert(split_commas(tail2@) == seq![tail2@]);
    let f1: &[u8] = vstd::slice::slice_subrange(rest, 0, c1);
    let f2: &[u8] = vstd::slice::slice_subrange(tail1, 0, c2);
    assert(f1@ == rest@.take(c1 as int));
    assert(f2@ == tail1@.take(c2 as int));
    assert(split_commas(rest@) =~= seq![f1@, f2@, tail2@]);
    let x: i16 = match parse_field(f1) {
        None => {
            return None;
        },
        Some(v) => v,
    };
    let y: i16 = match parse_field(f2) {
        None => {
            return None;
        },
        Some(v) => v,
    };
    let z: i16 = match parse_field(tail2) {
        None => {
            return None;
        },
        Some(v) => v,
    };
    Some((x, y, z))
}

/// The wire text of one vector report, without its line terminator:
/// the kind's tag byte, a colon, and the three components as signed
/// decimals separated by commas.
pub open spec fn spec_encode_line(tag: u8, v: FixedPointVector) -> Seq<u8> {
    seq![tag, 58u8] + spec_int_text(v.x as int) + seq![44u8] + spec_int_text(v.y as int)
        + seq![44u8] + spec_int_text(v.z as int)
}

/// Encodes one vector report line, without its line terminator.
pub fn encode_line(tag: u8, v: &FixedPointVector) -> (r: Vec<u8>)
    ensures
        r@ == spec_encode_line(tag, *v),
{
    let mut out: Vec<u8> = Vec::new();
    out.push(tag);
    out.push(58u8);
    let mut xs: Vec<u8> = crate::num::format_i16(v.x);
    out.append(&mut xs);
    out.push(44u8);
    let mut ys: Vec<u8> = crate::num::format_i16(v.y);
    out.append(&mut ys);
    out.push(44u8);
    let mut zs: Vec<u8> = crate::num::format_i16(v.z);
    out.append(&mut zs);
    assert(out@ =~= spec_encode_line(tag, *v));
    out
}

/// The canonical text of an integer opens with a digit or minus sign,
/// ends with a digit, and holds only digits after its first byte.
proof fn lemma_int_text_shape(x: int)
    ensures
        spec_int_text(x).len() >= 1,
        is_num_byte(spec_int_text(x)[0]),
        is_digit(spec_int_text(x).last()),
        forall|j: int|
            0 <= j < spec_int_text(x).len() ==> (is_digit(spec_int_text(x)[j]) || spec_int_text(
                x,
            )[j] == 45),
        forall|j: int| 1 <= j < spec_int_text(x).len() ==> is_digit(spec_int_text(x)[j]),
{
    if x < 0 {
        lemma_spec_digits_are_digits((-x) as nat);
    } else {
        lemma_spec_digits_are_digits(x as nat);
    }
}

/// A field holding exactly the canonical text of an in-range value
/// parses back to that value.
proof fn lemma_field_of_text(x: int)
    requires
        -32768 <= x <= 32767,
    ensures
        spec_parse_field(spec_int_text(x)) == Some(x as i16),
{
    let tx = spec_int_text(x);
    lemma_int_text_shape(x);
    lemma_find_num_is(tx, 0);
    assert(tx.skip(0) =~= tx);
    assert(trim_end_ws(tx) == tx);
    lemma_parse_int_text(x);
}

/// Round trip of the codec: decoding an encoded report line yields the
/// vector that was encoded, under the kind named by its tag.
pub proof fn lemma_decode_encode(tag: u8, v: FixedPointVector)
    requires
        tag == ACCEL_TAG || tag == GRAVITY_TAG,
    ensures
        spec_parse_line(spec_encode_line(tag, v)) == (if tag == ACCEL_TAG {
            ParsedLine::Accel(v)
        } else {
            ParsedLine::Grav(v)
        }),
{
    let tx = spec_int_text(v.x as int);
    let ty = spec_int_text(v.y as int);
    let tz = spec_int_text(v.z as int);
    let line = spec_encode_line(tag, v);
    let rest = line.skip(2);
    lemma_int_text_shape(v.x as int);
    lemma_int_text_shape(v.y as int);
    lemma_int_text_shape(v.z as int);
    assert(rest =~= tx + seq![44u8] + ty + seq![44u8] + tz);
    let i1 = tx.len() as int;
    assert(rest[i1] == 44);
    assert(forall|j: int| 0 <= j < i1 ==> rest[j] == tx[j]);
    lemma_find_byte_is(rest, 44, i1);
    let rest2 = rest.skip(i1 + 1);
    assert(rest2 =~= ty + seq![44u8] + tz);
    assert(rest.take(i1) =~= tx);
    let i2 = ty.len() as int;
    assert(rest2[i2] == 44);
    assert(forall|j: int| 0 <= j < i2 ==> rest2[j] == ty[j]);
    lemma_find_byte_is(rest2, 44, i2);
    let rest3 = rest2.skip(i2 + 1);
    assert(rest3 =~= tz);
    assert(rest2.take(i2) =~= ty);
    assert(forall|j: int| 0 <= j < rest3.len() ==> rest3[j] == tz[j]);
    lemma_find_byte_absent(rest3, 44);
    assert(split_commas(rest3) == seq![rest3]);
    assert(split_commas(rest2) == seq![rest2.take(i2)] + split_commas(rest3));
    assert(split_commas(rest) == seq![rest.take(i1)] + split_commas(rest2));
    assert(split_commas(rest) =~= seq![tx, ty, tz]);
    lemma_field_of_text(v.x as int);
    lemma_field_of_text(v.y as int);
    lemma_field_of_text(v.z as int);
    assert(spec_parse_fields(rest) == Some((v.x, v.y, v.z)));
    assert(line[0] == tag && line[1] == 58);
    assert(FixedPointVector { x: v.x, y: v.y, z: v.z } == v);
}

} // verus!
