//! Process output read as text: UTF-8 decoding and the trimming of
//! surrounding whitespace, as the standard library performs them.

use vstd::prelude::*;
use vstd::std_specs::iter::IteratorSpec;
use vstd::string::StringExecFns;
use vstd::string::StringSliceAdditionalSpecFns;
use vstd::utf8::{decode_utf8, valid_utf8};

verus! {

/// Whether a character counts as whitespace: whether it has the Unicode
/// property `White_Space`. These are the controls from tab to carriage
/// return, the space, next line, the no-break space, the Ogham space mark,
/// the spaces from en quad to hair space, the line and the paragraph
/// separator, the narrow no-break space, the medium mathematical space and
/// the ideographic space.
pub open spec fn white_space(c: char) -> bool {
    let code = c as u32;
    ||| 0x0009 <= code <= 0x000d
    ||| code == 0x0020
    ||| code == 0x0085
    ||| code == 0x00a0
    ||| code == 0x1680
    ||| 0x2000 <= code <= 0x200a
    ||| code == 0x2028
    ||| code == 0x2029
    ||| code == 0x202f
    ||| code == 0x205f
    ||| code == 0x3000
}

/// A text without its leading whitespace.
pub open spec fn trimmed_start(s: Seq<char>) -> Seq<char>
    decreases s.len(),
{
    if s.len() > 0 && white_space(s.first()) {
        trimmed_start(s.drop_first())
    } else {
        s
    }
}

/// A text without its trailing whitespace.
pub open spec fn trimmed_end(s: Seq<char>) -> Seq<char>
    decreases s.len(),
{
    if s.len() > 0 && white_space(s.last()) {
        trimmed_end(s.drop_last())
    } else {
        s
    }
}

/// A text without the whitespace at either end; whitespace inside it stays.
pub open spec fn trimmed(s: Seq<char>) -> Seq<char> {
    trimmed_end(trimmed_start(s))
}

/// The text that a byte string encodes, if it is valid UTF-8.
pub open spec fn decoded(bytes: Seq<u8>) -> Option<Seq<char>> {
    if valid_utf8(bytes) {
        Some(decode_utf8(bytes))
    } else {
        None
    }
}

/// The error of the standard library's UTF-8 validation.
#[verifier::external_type_specification]
#[verifier::external_body]
pub struct ExUtf8Error(core::str::Utf8Error);

/// `core::str::from_utf8` accepts exactly the valid UTF-8 byte strings, and
/// hands back the same bytes as text.
pub assume_specification[ core::str::from_utf8 ](v: &[u8]) -> (r: Result<
    &str,
    core::str::Utf8Error,
>)
    ensures
        r is Ok <==> valid_utf8(v@),
        r matches Ok(s) ==> s.spec_bytes() == v@,
;

/// `char::is_whitespace` says whether a character has the Unicode property
/// `White_Space`.
pub assume_specification[ char::is_whitespace ](c: char) -> (r: bool)
    ensures
        r == white_space(c),
;

/// The characters of a text, in order.
pub fn chars_of(s: &str) -> (chars: Vec<char>)
    ensures
        chars@ == s@,
{
    broadcast use vstd::string::group_string_axioms;

    let mut chars: Vec<char> = Vec::new();
    let mut rest = s.chars();
    loop
        invariant
            chars@ + rest.remaining() == s@,
            rest.obeys_prophetic_iter_laws(),
            rest.decrease() is Some,
        decreases rest.decrease()->0,
    {
        let ghost before = rest.remaining();
        match rest.next() {
            Some(c) => {
                chars.push(c);
                proof {
                    assert(chars@ + rest.remaining() =~= (chars@.drop_last() + before));
                }
            },
            None => {
                proof {
                    assert(chars@ =~= chars@ + rest.remaining());
                }
                return chars;
            },
        }
    }
}

/// Whether two byte strings are the same.
pub fn same_bytes(a: &[u8], b: &[u8]) -> (same: bool)
    ensures
        same == (a@ == b@),
{
    if a.len() != b.len() {
        return false;
    }
    let mut i: usize = 0;
    while i < a.len()
        invariant
            a@.len() == b@.len(),
            i <= a@.len(),
            forall|k: int| 0 <= k < i ==> a@[k] == b@[k],
        decreases a@.len() - i,
    {
        if a[i] != b[i] {
            return false;
        }
        i += 1;
    }
    assert(a@ =~= b@);
    true
}

/// Whether two texts are the same. The comparison is made on the encoded
/// bytes.
pub fn same_text(a: &str, b: &str) -> (same: bool)
    ensures
        same == (a@ == b@),
{
    proof {
        vstd::utf8::encode_utf8_decode_utf8(a@);
        vstd::utf8::encode_utf8_decode_utf8(b@);
    }
    same_bytes(a.as_bytes(), b.as_bytes())
}

/// Where a text without the whitespace at its ends begins and ends.
pub fn trimmed_range(chars: &[char]) -> (range: (usize, usize))
    ensures
        range.0 <= range.1 <= chars@.len(),
        chars@.subrange(range.0 as int, range.1 as int) == trimmed(chars@),
{
    let mut low: usize = 0;
    proof {
        assert(chars@.skip(0) =~= chars@);
    }
    while low < chars.len() && chars[low].is_whitespace()
        invariant
            low <= chars@.len(),
            trimmed_start(chars@) == trimmed_start(chars@.skip(low as int)),
        decreases chars@.len() - low,
    {
        proof {
            assert(chars@.skip(low as int).drop_first() =~= chars@.skip(low + 1));
        }
        low += 1;
    }
    proof {
        assert(chars@.skip(low as int) =~= chars@.subrange(low as int, chars@.len() as int));
    }
    let mut high: usize = chars.len();
    while high > low && chars[high - 1].is_whitespace()
        invariant
            low <= high <= chars@.len(),
            trimmed(chars@) == trimmed_end(chars@.subrange(low as int, high as int)),
        decreases high,
    {
        proof {
            assert(chars@.subrange(low as int, high as int).drop_last() =~= chars@.subrange(
                low as int,
                high - 1,
            ));
        }
        high -= 1;
    }
    (low, high)
}

/// Whether two texts are the same once the whitespace at their ends is
/// removed. Whitespace inside a text is compared like any other character.
pub fn same_trimmed(a: &str, b: &str) -> (same: bool)
    ensures
        same == (trimmed(a@) == trimmed(b@)),
{
    let left = chars_of(a);
    let right = chars_of(b);
    let (left_low, left_high) = trimmed_range(left.as_slice());
    let (right_low, right_high) = trimmed_range(right.as_slice());
    let length: usize = left_high - left_low;
    if right_high - right_low != length {
        assert(trimmed(a@).len() != trimmed(b@).len());
        return false;
    }
    let mut i: usize = 0;
    while i < length
        invariant
            i <= length,
            length == left_high - left_low,
            length == right_high - right_low,
            left_high <= left@.len(),
            right_high <= right@.len(),
            trimmed(a@) == left@.subrange(left_low as int, left_high as int),
            trimmed(b@) == right@.subrange(right_low as int, right_high as int),
            forall|k: int| 0 <= k < i ==> trimmed(a@)[k] == trimmed(b@)[k],
        decreases length - i,
    {
        if left[left_low + i] != right[right_low + i] {
            assert(trimmed(a@)[i as int] != trimmed(b@)[i as int]);
            return false;
        }
        i += 1;
    }
    assert(trimmed(a@) =~= trimmed(b@));
    true
}

/// Reads bytes as text; `None` when they are not valid UTF-8.
pub fn text_of(bytes: &[u8]) -> (r: Option<&str>)
    ensures
        r is Some <==> valid_utf8(bytes@),
        r matches Some(s) ==> Some(s@) == decoded(bytes@),
{
    match core::str::from_utf8(bytes) {
        Ok(s) => {
            proof {
                vstd::utf8::encode_utf8_decode_utf8(s@);
            }
            Some(s)
        },
        Err(_) => None,
    }
}

/// The character of a decimal digit.
pub open spec fn digit(d: nat) -> char {
    if d == 0 {
        '0'
    } else if d == 1 {
        '1'
    } else if d == 2 {
        '2'
    } else if d == 3 {
        '3'
    } else if d == 4 {
        '4'
    } else if d == 5 {
        '5'
    } else if d == 6 {
        '6'
    } else if d == 7 {
        '7'
    } else if d == 8 {
        '8'
    } else {
        '9'
    }
}

/// A number written in decimal, without leading zeros.
pub open spec fn decimal_of(n: nat) -> Seq<char>
    decreases n,
{
    if n < 10 {
        seq![digit(n)]
    } else {
        decimal_of(n / 10).push(digit(n % 10))
    }
}

fn digit_text(d: usize) -> (text: &'static str)
    requires
        d < 10,
    ensures
        text@ == seq![digit(d as nat)],
{
    proof {
        reveal_strlit("0");
        reveal_strlit("1");
        reveal_strlit("2");
        reveal_strlit("3");
        reveal_strlit("4");
        reveal_strlit("5");
        reveal_strlit("6");
        reveal_strlit("7");
        reveal_strlit("8");
        reveal_strlit("9");
    }
    let text = if d == 0 {
        "0"
    } else if d == 1 {
        "1"
    } else if d == 2 {
        "2"
    } else if d == 3 {
        "3"
    } else if d == 4 {
        "4"
    } else if d == 5 {
        "5"
    } else if d == 6 {
        "6"
    } else if d == 7 {
        "7"
    } else if d == 8 {
        "8"
    } else {
        "9"
    };
    assert(text@ =~= seq![digit(d as nat)]);
    text
}

/// Writes a number in decimal.
pub fn decimal(n: usize) -> (text: String)
    ensures
        text@ == decimal_of(n as nat),
    decreases n,
{
    if n < 10 {
        digit_text(n).to_owned()
    } else {
        let mut text = decimal(n / 10);
        text.append(digit_text(n % 10));
        assert(text@ =~= decimal_of(n as nat));
        text
    }
}

} // verus!
