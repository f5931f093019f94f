//! Text as the engine hands it over: bytes that end at a zero byte and are
//! meant to be UTF-8.

use vstd::prelude::*;
use vstd::slice::slice_subrange;
use vstd::string::StringExecFns;
use vstd::utf8::{decode_utf8, valid_utf8};

verus! {

/// Calls `std::str::from_utf8` and copies the text it accepts. The bytes
/// are accepted exactly when they are well-formed UTF-8, and the text is
/// then the characters that they encode.
#[verifier::external_body]
pub(crate) fn text_from_utf8(bytes: &[u8]) -> (r: Option<String>)
    ensures
        r is Some <==> valid_utf8(bytes@),
        r matches Some(text) ==> text@ == decode_utf8(bytes@),
{
    match std::str::from_utf8(bytes) {
        Ok(text) => Some(text.to_owned()),
        Err(_) => None,
    }
}

/// The number of bytes before the first zero byte, or the number of all
/// bytes if none is zero.
pub open spec fn terminated_len(bytes: Seq<u8>) -> int
    decreases bytes.len(),
{
    if bytes.len() == 0 || bytes[0] == 0u8 {
        0
    } else {
        1 + terminated_len(bytes.subrange(1, bytes.len() as int))
    }
}

/// The bytes before the first zero byte, or all of them if none is zero.
pub open spec fn until_terminator(bytes: Seq<u8>) -> Seq<u8> {
    bytes.subrange(0, terminated_len(bytes))
}

/// The text that a buffer holds up to its terminator, if that is
/// well-formed UTF-8.
pub open spec fn spec_terminated_text(bytes: Seq<u8>) -> Option<Seq<char>> {
    if valid_utf8(until_terminator(bytes)) {
        Some(decode_utf8(until_terminator(bytes)))
    } else {
        None
    }
}

/// The length of the text never leaves the buffer, no byte of the text is
/// zero, and a byte that follows the text is.
pub proof fn lemma_terminated_len(bytes: Seq<u8>)
    ensures
        0 <= terminated_len(bytes) <= bytes.len(),
        forall|k: int| 0 <= k < terminated_len(bytes) ==> bytes[k] != 0u8,
        terminated_len(bytes) < bytes.len() ==> bytes[terminated_len(bytes)] == 0u8,
    decreases bytes.len(),
{
    if bytes.len() > 0 && bytes[0] != 0u8 {
        let rest = bytes.subrange(1, bytes.len() as int);
        lemma_terminated_len(rest);
        assert forall|k: int| 0 <= k < terminated_len(bytes) implies bytes[k] != 0u8 by {
            if k > 0 {
                assert(bytes[k] == rest[k - 1]);
            }
        }
        if terminated_len(bytes) < bytes.len() {
            assert(bytes[terminated_len(bytes)] == rest[terminated_len(rest)]);
        }
    }
}

/// Cuts a buffer at its first zero byte.
pub fn cut_at_terminator(bytes: &[u8]) -> (text: &[u8])
    ensures
        text@ == until_terminator(bytes@),
{
    let mut i: usize = 0;
    proof {
        assert(bytes@.subrange(0, bytes@.len() as int) =~= bytes@);
    }
    while i < bytes.len() && bytes[i] != 0
        invariant
            i <= bytes@.len(),
            terminated_len(bytes@) == i + terminated_len(
                bytes@.subrange(i as int, bytes@.len() as int),
            ),
        decreases bytes@.len() - i,
    {
        proof {
            let rest = bytes@.subrange(i as int, bytes@.len() as int);
            assert(rest.subrange(1, rest.len() as int) =~= bytes@.subrange(
                i + 1,
                bytes@.len() as int,
            ));
        }
        i = i + 1;
    }
    slice_subrange(bytes, 0, i)
}

/// Reads the text that a buffer holds up to its terminator. Bytes that are
/// not well-formed UTF-8 give no text.
pub fn terminated_text(bytes: &[u8]) -> (r: Option<String>)
    ensures
        r is Some <==> spec_terminated_text(bytes@) is Some,
        r matches Some(text) ==> Some(text@) == spec_terminated_text(bytes@),
{
    text_from_utf8(cut_at_terminator(bytes))
}

/// The character that writes a digit.
pub open spec fn digit_char(digit: nat) -> char {
    if digit == 0 {
        '0'
    } else if digit == 1 {
        '1'
    } else if digit == 2 {
        '2'
    } else if digit == 3 {
        '3'
    } else if digit == 4 {
        '4'
    } else if digit == 5 {
        '5'
    } else if digit == 6 {
        '6'
    } else if digit == 7 {
        '7'
    } else if digit == 8 {
        '8'
    } else {
        '9'
    }
}

/// The characters that write a number in decimal, without leading zeros.
pub open spec fn decimal_chars(n: nat) -> Seq<char>
    decreases n,
{
    if n < 10 {
        seq![digit_char(n)]
    } else {
        decimal_chars(n / 10).push(digit_char(n % 10))
    }
}

/// The text of one digit.
fn digit_text(digit: u32) -> (text: &'static str)
    requires
        digit < 10,
    ensures
        text@ == seq![digit_char(digit as nat)],
{
    proof {
        reveal_strlit("0");
        reveal_strlit("1");
        reveal_strlit("2");
        reveal_strlit("3");
        reveal_strlit("4");
        reveal_strlit("5");
        reveal_strlit("6");
        reveal_strlit("7");
        reveal_strlit("8");
        reveal_strlit("9");
    }
    let text = if digit == 0 {
        "0"
    } else if digit == 1 {
        "1"
    } else if digit == 2 {
        "2"
    } else if digit == 3 {
        "3"
    } else if digit == 4 {
        "4"
    } else if digit == 5 {
        "5"
    } else if digit == 6 {
        "6"
    } else if digit == 7 {
        "7"
    } else if digit == 8 {
        "8"
    } else {
        "9"
    };
    assert(text@ =~= seq![digit_char(digit as nat)]);
    text
}

/// Writes a number in decimal at the end of a text.
pub fn append_decimal(out: &mut String, n: u32)
    ensures
        final(out)@ == old(out)@ + decimal_chars(n as nat),
    decreases n,
{
    if n >= 10 {
        append_decimal(out, n / 10);
    }
    out.append(digit_text(n % 10));
    assert(final(out)@ =~= old(out)@ + decimal_chars(n as nat));
}

} // verus!
