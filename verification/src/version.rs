//! The engine's version, as text and as one packed number.

use vstd::prelude::*;
use vstd::arithmetic::div_mod::lemma_fundamental_div_mod_converse;
use vstd::slice::slice_subrange;
use vstd::string::StringSliceAdditionalSpecFns;

verus! {

/// The byte that parts the numbers of a version text.
pub const DOT: u8 = 46;

/// The packed number of a version: eight bits each for the major, the
/// minor and the patch number, so that 1.2.3 is 0x010203.
pub open spec fn spec_pack_version(major: u8, minor: u8, patch: u8) -> u32 {
    (major * 65536 + minor * 256 + patch) as u32
}

/// Packs the three numbers of a version into one.
pub fn pack_version(major: u8, minor: u8, patch: u8) -> (packed: u32)
    ensures
        packed == spec_pack_version(major, minor, patch),
{
    let major: u32 = major as u32;
    let minor: u32 = minor as u32;
    let patch: u32 = patch as u32;
    major * 65536 + minor * 256 + patch
}

/// Whether a byte is a decimal digit.
pub open spec fn is_digit(byte: u8) -> bool {
    48 <= byte <= 57
}

/// Whether all bytes are decimal digits.
pub open spec fn all_digits(bytes: Seq<u8>) -> bool {
    forall|i: int| 0 <= i < bytes.len() ==> is_digit(#[trigger] bytes[i])
}

/// The number that decimal digits write.
pub open spec fn decimal_value(digits: Seq<u8>) -> nat
    decreases digits.len(),
{
    if digits.len() == 0 {
        0
    } else {
        decimal_value(digits.drop_last()) * 10 + (digits.last() - 48) as nat
    }
}

/// The decimal digits that write a number, without leading zeros.
pub open spec fn decimal_digits(n: nat) -> Seq<u8>
    decreases n,
{
    if n < 10 {
        seq![(48 + n) as u8]
    } else {
        decimal_digits(n / 10).push((48 + n % 10) as u8)
    }
}

/// The number that one part of a version text writes: one to three
/// digits that write a number of eight bits.
pub open spec fn spec_parse_part(part: Seq<u8>) -> Option<u8> {
    if 1 <= part.len() <= 3 && all_digits(part) && decimal_value(part) <= 255 {
        Some(decimal_value(part) as u8)
    } else {
        None
    }
}

/// The number of bytes before the first dot, or the number of all bytes
/// if there is no dot.
pub open spec fn field_len(bytes: Seq<u8>) -> int
    decreases bytes.len(),
{
    if bytes.len() == 0 || bytes[0] == DOT {
        0
    } else {
        1 + field_len(bytes.subrange(1, bytes.len() as int))
    }
}

/// The packed number that a version text stands for: three parts with a
/// dot between them, each a number of eight bits.
pub open spec fn spec_parse_version(text: Seq<u8>) -> Option<u32> {
    let first = field_len(text);
    if first >= text.len() {
        None
    } else {
        let rest = text.subrange(first + 1, text.len() as int);
        let second = field_len(rest);
        if second >= rest.len() {
            None
        } else {
            match (
                spec_parse_part(text.subrange(0, first)),
                spec_parse_part(rest.subrange(0, second)),
                spec_parse_part(rest.subrange(second + 1, rest.len() as int)),
            ) {
                (Some(major), Some(minor), Some(patch)) => Some(
                    spec_pack_version(major, minor, patch),
                ),
                _ => None,
            }
        }
    }
}

/// The text of a version: the three numbers in decimal with a dot
/// between them.
pub open spec fn version_text(major: u8, minor: u8, patch: u8) -> Seq<u8> {
    decimal_digits(major as nat) + seq![DOT] + decimal_digits(minor as nat) + seq![DOT]
        + decimal_digits(patch as nat)
}

/// Finds the end of the part that a text starts with.
fn field_end(bytes: &[u8]) -> (end: usize)
    ensures
        end == field_len(bytes@),
        end <= bytes@.len(),
{
    let mut i: usize = 0;
    proof {
        assert(bytes@.subrange(0, bytes@.len() as int) =~= bytes@);
    }
    while i < bytes.len() && bytes[i] != DOT
        invariant
            i <= bytes@.len(),
            field_len(bytes@) == i + field_len(bytes@.subrange(i as int, bytes@.len() as int)),
        decreases bytes@.len() - i,
    {
        proof {
            let rest = bytes@.subrange(i as int, bytes@.len() as int);
            assert(rest.subrange(1, rest.len() as int) =~= bytes@.subrange(
                i + 1,
                bytes@.len() as int,
            ));
        }
        i = i + 1;
    }
    i
}

/// Reads one part of a version text.
fn parse_part(part: &[u8]) -> (r: Option<u8>)
    ensures
        r == spec_parse_part(part@),
{
    if part.len() < 1 || part.len() > 3 {
        return None;
    }
    let mut value: u32 = 0;
    let mut i: usize = 0;
    while i < part.len()
        invariant
            i <= part@.len() <= 3,
            all_digits(part@.take(i as int)),
            value == decimal_value(part@.take(i as int)),
            value <= 999,
            i <= 2 ==> value <= 99,
            i <= 1 ==> value <= 9,
            i == 0 ==> value == 0,
        decreases part@.len() - i,
    {
        let byte = part[i];
        if byte < 48 || byte > 57 {
            assert(!is_digit(part@[i as int]));
            return None;
        }
        proof {
            let next = part@.take(i + 1);
            assert(next.drop_last() =~= part@.take(i as int));
            assert(next.last() == byte);
            assert forall|k: int| 0 <= k < next.len() implies is_digit(#[trigger] next[k]) by {
                if k < i {
                    assert(part@.take(i as int)[k] == next[k]);
                }
            }
        }
        value = value * 10 + (byte - 48) as u32;
        i = i + 1;
    }
    proof {
        assert(part@.take(i as int) =~= part@);
    }
    if value > 255 {
        None
    } else {
        Some(value as u8)
    }
}

/// Reads a version text as the packed number it stands for. A text that
/// is not three numbers of eight bits with a dot between them gives
/// nothing.
pub fn parse_version(text: &str) -> (r: Option<u32>)
    ensures
        r == spec_parse_version(text.spec_bytes()),
        r matches Some(packed) ==> packed < 0x1000000,
{
    proof {
        lemma_parsed_version(text.spec_bytes());
    }
    let bytes = text.as_bytes();
    let first = field_end(bytes);
    if first >= bytes.len() {
        return None;
    }
    let rest = slice_subrange(bytes, first + 1, bytes.len());
    let second = field_end(rest);
    if second >= rest.len() {
        return None;
    }
    let major = parse_part(slice_subrange(bytes, 0, first));
    let minor = parse_part(slice_subrange(rest, 0, second));
    let patch = parse_part(slice_subrange(rest, second + 1, rest.len()));
    match (major, minor, patch) {
        (Some(major), Some(minor), Some(patch)) => Some(pack_version(major, minor, patch)),
        _ => None,
    }
}

/// Whether a version text stands for a packed number. A pair that agrees
/// has a number below 2^24.
pub fn version_agrees(text: &str, packed: u32) -> (b: bool)
    ensures
        b == (spec_parse_version(text.spec_bytes()) == Some(packed)),
        b ==> packed < 0x1000000,
{
    match parse_version(text) {
        Some(value) => value == packed,
        None => false,
    }
}

/// Gets the version of the engine from what the engine gives for it: the
/// text as it is, and the number as the unsigned number of the same 32
/// bits. Where the text stands for the number, the number is the packed
/// number of the version that the text names, and lies below 2^24.
pub fn version<'a>(text: &'a str, number: i32) -> (r: (&'a str, u32))
    ensures
        r.0@ == text@,
        r.1 == number as u32,
        number >= 0 ==> r.1 == number,
        spec_parse_version(text.spec_bytes()) == Some(r.1) ==> r.1 < 0x1000000 && exists|
            major: u8,
            minor: u8,
            patch: u8,
        | r.1 == spec_pack_version(major, minor, patch),
{
    proof {
        lemma_parsed_version(text.spec_bytes());
    }
    (text, #[verifier::truncate] (number as u32))
}

/// A packed number holds its three numbers in eight bits each, the major
/// number highest, and so lies below 2^24.
pub proof fn lemma_packed_version(major: u8, minor: u8, patch: u8)
    ensures
        spec_pack_version(major, minor, patch) < 0x1000000,
        spec_pack_version(major, minor, patch) / 65536 == major,
        spec_pack_version(major, minor, patch) / 256 % 256 == minor,
        spec_pack_version(major, minor, patch) % 256 == patch,
{
    let packed: int = major * 65536 + minor * 256 + patch;
    let upper: int = major * 256 + minor;
    lemma_fundamental_div_mod_converse(packed, 65536, major as int, minor * 256 + patch);
    lemma_fundamental_div_mod_converse(packed, 256, upper, patch as int);
    lemma_fundamental_div_mod_converse(upper, 256, major as int, minor as int);
}

/// A text that stands for a packed number stands for the packed number
/// of three numbers of eight bits: the number lies below 2^24, and a text
/// and a number that agree name the same version.
pub proof fn lemma_parsed_version(text: Seq<u8>)
    ensures
        spec_parse_version(text) matches Some(packed) ==> packed < 0x1000000 && exists|
            major: u8,
            minor: u8,
            patch: u8,
        | packed == spec_pack_version(major, minor, patch),
{
    if spec_parse_version(text) is Some {
        let first = field_len(text);
        let rest = text.subrange(first + 1, text.len() as int);
        let second = field_len(rest);
        let major = spec_parse_part(text.subrange(0, first))->Some_0;
        let minor = spec_parse_part(rest.subrange(0, second))->Some_0;
        let patch = spec_parse_part(rest.subrange(second + 1, rest.len() as int))->Some_0;
        lemma_packed_version(major, minor, patch);
        assert(spec_parse_version(text)->Some_0 == spec_pack_version(major, minor, patch));
    }
}

/// The decimal digits of a number are digits, one at least and no more
/// than the number needs, and they write that number.
pub proof fn lemma_decimal_digits(n: nat)
    ensures
        decimal_digits(n).len() >= 1,
        n < 10 ==> decimal_digits(n).len() == 1,
        n < 100 ==> decimal_digits(n).len() <= 2,
        n < 1000 ==> decimal_digits(n).len() <= 3,
        all_digits(decimal_digits(n)),
        decimal_value(decimal_digits(n)) == n,
    decreases n,
{
    if n < 10 {
        let d = decimal_digits(n);
        assert(d.drop_last() =~= Seq::<u8>::empty());
        assert(decimal_value(d.drop_last()) == 0);
    } else {
        lemma_decimal_digits(n / 10);
        let before = decimal_digits(n / 10);
        let d = decimal_digits(n);
        assert(d.drop_last() =~= before);
        assert(d.last() == (48 + n % 10) as u8);
        assert forall|i: int| 0 <= i < d.len() implies is_digit(#[trigger] d[i]) by {
            if i < before.len() {
                assert(d[i] == before[i]);
            }
        }
    }
}

/// A run of bytes without a dot, followed by a dot, is a part that ends
/// at that dot.
pub proof fn lemma_field_len_of_part(part: Seq<u8>, rest: Seq<u8>)
    requires
        forall|i: int| 0 <= i < part.len() ==> part[i] != DOT,
    ensures
        field_len(part + seq![DOT] + rest) == part.len(),
    decreases part.len(),
{
    let whole = part + seq![DOT] + rest;
    if part.len() == 0 {
        assert(whole[0] == DOT);
    } else {
        let tail = part.subrange(1, part.len() as int);
        assert(whole[0] == part[0]);
        assert(whole.subrange(1, whole.len() as int) =~= tail + seq![DOT] + rest);
        lemma_field_len_of_part(tail, rest);
    }
}

/// The text of a version stands for exactly the packed number of that
/// version: reading "MM.NN.PP" gives 0xMMNNPP.
pub proof fn lemma_version_text_parses(major: u8, minor: u8, patch: u8)
    ensures
        spec_parse_version(version_text(major, minor, patch)) == Some(
            spec_pack_version(major, minor, patch),
        ),
{
    let a = decimal_digits(major as nat);
    let b = decimal_digits(minor as nat);
    let c = decimal_digits(patch as nat);
    lemma_decimal_digits(major as nat);
    lemma_decimal_digits(minor as nat);
    lemma_decimal_digits(patch as nat);
    let text = version_text(major, minor, patch);
    let tail = b + seq![DOT] + c;
    assert(text =~= a + seq![DOT] + tail);
    assert forall|i: int| 0 <= i < a.len() implies a[i] != DOT by {
        assert(is_digit(a[i]));
    }
    assert forall|i: int| 0 <= i < b.len() implies b[i] != DOT by {
        assert(is_digit(b[i]));
    }
    lemma_field_len_of_part(a, tail);
    lemma_field_len_of_part(b, c);
    let first = field_len(text);
    assert(first == a.len());
    let rest = text.subrange(first + 1, text.len() as int);
    assert(rest =~= tail);
    assert(text.subrange(0, first) =~= a);
    let second = field_len(rest);
    assert(second == b.len());
    assert(rest.subrange(0, second) =~= b);
    assert(rest.subrange(second + 1, rest.len() as int) =~= c);
}

} // verus!
