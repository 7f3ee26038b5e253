//! Which form of value an attribute's text takes in the stream. The choice
//! is cautious: only what cannot be read in two ways leaves the text forms.

use crate::text::contains_char;
use crate::text::equals_chars;
use crate::token::AttributeValue;
use vstd::prelude::*;
use vstd::utf8::encode_utf8;

verus! {

/// A value shorter than this, in UTF-8 bytes, goes through the pool, unless
/// it holds a space.
pub const INTERNED_VALUE_LIMIT: usize = 50;

/// Whether `c` has the Unicode property White_Space.
pub open spec fn is_white_space(c: char) -> bool {
    let code = c as u32;
    ||| 0x09 <= code <= 0x0D
    ||| code == 0x20
    ||| code == 0x85
    ||| code == 0xA0
    ||| code == 0x1680
    ||| 0x2000 <= code <= 0x200A
    ||| code == 0x2028
    ||| code == 0x2029
    ||| code == 0x202F
    ||| code == 0x205F
    ||| code == 0x3000
}

/// Whether `text` holds nothing but white space. The empty text does.
pub open spec fn whitespace_only(text: Seq<char>) -> bool {
    forall|i: int| 0 <= i < text.len() ==> is_white_space(#[trigger] text[i])
}

/// Whether `text` holds the letter that marks an exponent, in either case.
pub open spec fn has_exponent_marker(text: Seq<char>) -> bool {
    text.contains('e') || text.contains('E')
}

pub open spec fn true_literal() -> Seq<char> {
    seq!['t', 'r', 'u', 'e']
}

pub open spec fn false_literal() -> Seq<char> {
    seq!['f', 'a', 'l', 's', 'e']
}

/// Whether `text` is one of the two literals, letter for letter.
pub open spec fn is_boolean_literal(text: Seq<char>) -> bool {
    text == true_literal() || text == false_literal()
}

/// Whether a number parser is asked about `text`: it holds an exponent
/// marker, and is neither of the literals.
pub open spec fn wants_number(text: Seq<char>) -> bool {
    !is_boolean_literal(text) && has_exponent_marker(text)
}

/// The form that the value `text` takes. `double` is what a number parser
/// made of the text: the bits of the double that it denotes, or nothing
/// where it denotes none. The first rule that applies decides:
/// the two literals are booleans; a text with an exponent marker that
/// denotes a double is that double; a text of fewer than 50 UTF-8 bytes and
/// without a space goes through the pool; any other is written out.
pub open spec fn inferred(text: Seq<char>, double: Option<u64>) -> AttributeValue {
    if text == true_literal() {
        AttributeValue::Boolean(true)
    } else if text == false_literal() {
        AttributeValue::Boolean(false)
    } else if has_exponent_marker(text) && double is Some {
        AttributeValue::Double(double->0)
    } else if encode_utf8(text).len() < INTERNED_VALUE_LIMIT && !text.contains(' ') {
        AttributeValue::Interned(text)
    } else {
        AttributeValue::String(text)
    }
}

/// Whether `c` has the Unicode property White_Space.
pub fn is_white_space_char(c: char) -> (res: bool)
    ensures
        res == is_white_space(c),
{
    let code: u32 = c as u32;
    (0x09 <= code && code <= 0x0D) || code == 0x20 || code == 0x85 || code == 0xA0 || code
        == 0x1680 || (0x2000 <= code && code <= 0x200A) || code == 0x2028 || code == 0x2029 || code
        == 0x202F || code == 0x205F || code == 0x3000
}

/// Only what can be nothing but a number in scientific notation is tried as
/// one: the marker of the exponent has to be there.
pub fn is_scientific_notation(s: &str) -> (res: bool)
    ensures
        res == has_exponent_marker(s@),
{
    contains_char(s, 'e') || contains_char(s, 'E')
}

/// Only `true` and `false`, in lower case, are booleans.
pub fn is_boolean(s: &str) -> (res: bool)
    ensures
        res == is_boolean_literal(s@),
{
    let truth: [char; 4] = ['t', 'r', 'u', 'e'];
    let falsehood: [char; 5] = ['f', 'a', 'l', 's', 'e'];
    equals_chars(s, truth.as_slice()) || equals_chars(s, falsehood.as_slice())
}

pub fn is_whitespace_only(s: &str) -> (res: bool)
    ensures
        res == whitespace_only(s@),
{
    let mut res = true;
    for c in it: s.chars()
        invariant
            it.seq() == s@,
            res == (forall|i: int| 0 <= i < it.index() ==> is_white_space(#[trigger] s@[i])),
    {
        if !is_white_space_char(c) {
            res = false;
        }
    }
    res
}

} // verus!
