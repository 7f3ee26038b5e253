//! Text as the library reads it: UTF-8 on the outside, characters inside.

use crate::error::ConversionError;
use std::str::Utf8Error;
use vstd::prelude::*;
use vstd::string::StringSliceAdditionalSpecFns;
use vstd::utf8::decode_utf8;
use vstd::utf8::encode_utf8_decode_utf8;
use vstd::utf8::valid_utf8;

verus! {

/// The error that `std::str::from_utf8` reports for bytes that are not UTF-8.
pub uninterp spec fn utf8_error(bytes: Seq<u8>) -> Utf8Error;

/// `std::str::from_utf8`: the same bytes seen as text where they are valid
/// UTF-8, an error where they are not.
#[verifier::external_body]
pub(crate) fn str_from_utf8(bytes: &[u8]) -> (res: Result<&str, Utf8Error>)
    ensures
        match res {
            Ok(text) => valid_utf8(bytes@) && text.spec_bytes() == bytes@,
            Err(e) => !valid_utf8(bytes@) && e == utf8_error(bytes@),
        },
{
    std::str::from_utf8(bytes)
}

/// The characters that `bytes` encode, or the failure that ends the
/// conversion where they encode none.
pub open spec fn text_of(bytes: Seq<u8>) -> Result<Seq<char>, ConversionError> {
    if valid_utf8(bytes) {
        Ok(decode_utf8(bytes))
    } else {
        Err(ConversionError::Utf8Error(utf8_error(bytes)))
    }
}

/// Reads `bytes` as text.
pub fn decode(bytes: &[u8]) -> (res: Result<&str, ConversionError>)
    ensures
        match res {
            Ok(text) => text_of(bytes@) == Ok::<Seq<char>, ConversionError>(text@),
            Err(e) => text_of(bytes@) == Err::<Seq<char>, ConversionError>(e),
        },
{
    match str_from_utf8(bytes) {
        Ok(text) => {
            proof {
                encode_utf8_decode_utf8(text@);
            }
            Ok(text)
        },
        Err(e) => Err(ConversionError::Utf8Error(e)),
    }
}

/// Whether `needle` occurs in `text`.
pub fn contains_char(text: &str, needle: char) -> (found: bool)
    ensures
        found == text@.contains(needle),
{
    let mut found = false;
    for c in it: text.chars()
        invariant
            it.seq() == text@,
            found == exists|i: int| 0 <= i < it.index() && text@[i] == needle,
    {
        if c == needle {
            found = true;
        }
    }
    found
}

/// Whether `text` begins with the characters of `prefix`.
pub fn starts_with_chars(text: &str, prefix: &[char]) -> (res: bool)
    ensures
        res == prefix@.is_prefix_of(text@),
{
    let mut matched: usize = 0;
    let mut differs = false;
    for c in it: text.chars()
        invariant
            it.seq() == text@,
            matched <= prefix.len(),
            matched <= it.index(),
            !differs ==> matched == it.index() || matched == prefix.len(),
            !differs ==> forall|i: int| 0 <= i < matched ==> text@[i] == prefix@[i],
            differs ==> exists|i: int|
                0 <= i < prefix.len() && i < text@.len() && text@[i] != prefix@[i],
    {
        if !differs && matched < prefix.len() {
            if c == prefix[matched] {
                matched = matched + 1;
            } else {
                differs = true;
            }
        }
    }
    !differs && matched == prefix.len()
}

/// Whether `text` is exactly the characters of `pattern`.
pub fn equals_chars(text: &str, pattern: &[char]) -> (res: bool)
    ensures
        res == (text@ == pattern@),
{
    let mut count: usize = 0;
    let mut same = true;
    for c in it: text.chars()
        invariant
            it.seq() == text@,
            same ==> count == it.index() && count <= pattern.len(),
            same ==> forall|i: int| 0 <= i < count ==> text@[i] == pattern@[i],
            !same ==> text@ != pattern@,
    {
        if same {
            if count < pattern.len() && c == pattern[count] {
                count = count + 1;
            } else {
                same = false;
            }
        }
    }
    if same && count == pattern.len() {
        assert(text@ =~= pattern@);
        true
    } else {
        false
    }
}

/// The characters of `text`, one by one.
pub fn chars_of(text: &str) -> (chars: Vec<char>)
    ensures
        chars@ == text@,
{
    let mut chars: Vec<char> = Vec::new();
    for c in it: text.chars()
        invariant
            it.seq() == text@,
            chars@ == text@.take(it.index() as int),
    {
        chars.push(c);
    }
    chars
}

/// The code of `c`, with the capital letters of ASCII folded onto the small
/// ones.
pub open spec fn folded(c: char) -> u32 {
    let code = c as u32;
    if 0x41 <= code <= 0x5A {
        (code + 0x20) as u32
    } else {
        code
    }
}

/// Whether two characters are the same; with `fold`, whether they are the
/// same but for the case of an ASCII letter.
pub open spec fn same_char(a: char, b: char, fold: bool) -> bool {
    if fold {
        folded(a) == folded(b)
    } else {
        a == b
    }
}

/// Whether `needle` stands in `hay` at the index `at`.
pub open spec fn occurs_at(hay: Seq<char>, needle: Seq<char>, at: int, fold: bool) -> bool {
    &&& 0 <= at
    &&& at + needle.len() <= hay.len()
    &&& forall|j: int| 0 <= j < needle.len() ==> same_char(hay[at + j], #[trigger] needle[j], fold)
}

/// Whether `needle` stands somewhere in `hay`.
pub open spec fn occurs(hay: Seq<char>, needle: Seq<char>, fold: bool) -> bool {
    exists|at: int| occurs_at(hay, needle, at, fold)
}

fn fold_char(c: char) -> (code: u32)
    ensures
        code == folded(c),
{
    let code: u32 = c as u32;
    if 0x41 <= code && code <= 0x5A {
        code + 0x20
    } else {
        code
    }
}

fn is_same_char(a: char, b: char, fold: bool) -> (res: bool)
    ensures
        res == same_char(a, b, fold),
{
    if fold {
        fold_char(a) == fold_char(b)
    } else {
        a == b
    }
}

fn stands_at(hay: &[char], needle: &[char], at: usize, fold: bool) -> (res: bool)
    requires
        at + needle.len() <= hay.len(),
    ensures
        res == occurs_at(hay@, needle@, at as int, fold),
{
    let mut j: usize = 0;
    while j < needle.len()
        invariant
            j <= needle.len(),
            at + needle.len() <= hay.len(),
            forall|k: int| 0 <= k < j ==> same_char(hay@[at + k], #[trigger] needle@[k], fold),
        decreases needle.len() - j,
    {
        if !is_same_char(hay[at + j], needle[j], fold) {
            return false;
        }
        j = j + 1;
    }
    true
}

/// Whether `needle` stands somewhere in `hay`; with `fold`, the case of ASCII
/// letters is not held against a match.
pub fn find(hay: &[char], needle: &[char], fold: bool) -> (res: bool)
    ensures
        res == occurs(hay@, needle@, fold),
{
    if needle.len() > hay.len() {
        return false;
    }
    let last: usize = hay.len() - needle.len();
    let mut at: usize = 0;
    while at <= last
        invariant
            at <= last + 1,
            last == hay.len() - needle.len(),
            needle.len() <= hay.len(),
            forall|k: int| 0 <= k < at ==> !occurs_at(hay@, needle@, k, fold),
        decreases last + 1 - at,
    {
        if stands_at(hay, needle, at, fold) {
            return true;
        }
        at = at + 1;
    }
    false
}

} // verus!
