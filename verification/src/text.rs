//! Text: what it means for one text to occur in another, how a number is
//! written, and how texts are compared.
//!
//! Two operations of the standard library are used without proof:
//! `lowercase` and `debug_text` call them, and their contracts are believed,
//! not checked.

use vstd::prelude::*;
use vstd::string::{StringExecFns, StringSliceAdditionalSpecFns};
use vstd::utf8::{encode_utf8, encode_utf8_decode_utf8};

verus! {

/// `needle` stands in `haystack` from position `start` on.
pub open spec fn occurs_at(needle: Seq<char>, haystack: Seq<char>, start: int) -> bool {
    &&& 0 <= start
    &&& start + needle.len() <= haystack.len()
    &&& haystack.subrange(start, start + needle.len()) == needle
}

/// `needle` stands somewhere in `haystack`, as a run of adjacent characters.
pub open spec fn occurs_in(needle: Seq<char>, haystack: Seq<char>) -> bool {
    exists|start: int| #[trigger] occurs_at(needle, haystack, start)
}

/// The character that stands for a value below ten.
pub open spec fn digit(value: nat) -> char {
    seq!['0', '1', '2', '3', '4', '5', '6', '7', '8', '9'][value as int]
}

/// `value` written in base ten, without leading zeros.
pub open spec fn decimal(value: nat) -> Seq<char>
    decreases value,
{
    if value < 10 {
        seq![digit(value)]
    } else {
        decimal(value / 10).push(digit(value % 10))
    }
}

/// `text` with every character mapped to lower case, as
/// `str::to_lowercase` maps it.
pub uninterp spec fn lowercase_of(text: Seq<char>) -> Seq<char>;

/// `text` in quotes with its special characters escaped, as the `{:?}`
/// format of a `str` writes it.
pub uninterp spec fn debug_form_of(text: Seq<char>) -> Seq<char>;

/// Whether two string slices hold the same characters in the same order.
pub fn same_text(a: &str, b: &str) -> (same: bool)
    ensures
        same == (a@ == b@),
{
    let left = a.as_bytes();
    let right = b.as_bytes();
    proof {
        encode_utf8_decode_utf8(a@);
        encode_utf8_decode_utf8(b@);
    }
    if left.len() != right.len() {
        return false;
    }
    let mut i: usize = 0;
    while i < left.len()
        invariant
            i <= left.len(),
            left.len() == right.len(),
            left@ == encode_utf8(a@),
            right@ == encode_utf8(b@),
            forall|j: int| 0 <= j < i ==> left@[j] == right@[j],
        decreases left.len() - i,
    {
        if left[i] != right[i] {
            return false;
        }
        i += 1;
    }
    assert(left@ =~= right@);
    true
}

/// The characters of `text`, in order.
fn characters(text: &str) -> (chars: Vec<char>)
    ensures
        chars@ == text@,
{
    let mut chars: Vec<char> = Vec::new();
    for c in it: text.chars()
        invariant
            it.seq() == text@,
            chars.len() == it.index(),
            forall|j: int| 0 <= j < it.index() ==> chars[j] == text@[j],
    {
        chars.push(c);
    }
    chars
}

/// Whether `needle` stands in `haystack` from position `start` on.
fn stands_at(haystack: &Vec<char>, needle: &Vec<char>, start: usize) -> (found: bool)
    requires
        start + needle.len() <= haystack.len(),
    ensures
        found == occurs_at(needle@, haystack@, start as int),
{
    let mut j: usize = 0;
    while j < needle.len()
        invariant
            j <= needle.len(),
            start + needle.len() <= haystack.len(),
            forall|k: int| 0 <= k < j ==> haystack[start + k] == needle[k],
        decreases needle.len() - j,
    {
        if haystack[start + j] != needle[j] {
            return false;
        }
        j += 1;
    }
    assert(haystack@.subrange(start as int, start + needle.len()) =~= needle@);
    true
}

/// Whether `needle` stands somewhere in `haystack`, both taken as they are.
/// A needle without characters stands in every haystack.
pub fn occurs(haystack: &str, needle: &str) -> (found: bool)
    ensures
        found == occurs_in(needle@, haystack@),
{
    let hay = characters(haystack);
    let pin = characters(needle);
    if pin.len() > hay.len() {
        return false;
    }
    let last = hay.len() - pin.len();
    let mut start: usize = 0;
    while start < last
        invariant
            hay@ == haystack@,
            pin@ == needle@,
            last == hay.len() - pin.len(),
            start <= last,
            forall|s: int| 0 <= s < start ==> !occurs_at(needle@, haystack@, s),
        decreases last - start,
    {
        if stands_at(&hay, &pin, start) {
            return true;
        }
        start += 1;
    }
    stands_at(&hay, &pin, last)
}

/// Calls `str::to_lowercase`. Believed of it: the result depends on the
/// characters of the text alone. Which characters it holds is not stated:
/// `lowercase_of` is the name for them.
#[verifier::external_body]
pub(crate) fn lowercase(text: &str) -> (lower: String)
    ensures
        lower@ == lowercase_of(text@),
{
    text.to_lowercase()
}

/// Formats a `str` with `{:?}`. Believed of it: the result depends on the
/// characters of the text alone. How they are quoted and escaped is not
/// stated: `debug_form_of` is the name for the result.
#[verifier::external_body]
pub(crate) fn debug_text(text: &str) -> (quoted: String)
    ensures
        quoted@ == debug_form_of(text@),
{
    format!("{:?}", text)
}

/// The text of one digit.
pub(crate) fn digit_str(value: u8) -> (text: &'static str)
    requires
        value < 10,
    ensures
        text@ == seq![digit(value as nat)],
{
    proof {
        reveal_strlit("0");
        reveal_strlit("1");
        reveal_strlit("2");
        reveal_strlit("3");
        reveal_strlit("4");
        reveal_strlit("5");
        reveal_strlit("6");
        reveal_strlit("7");
        reveal_strlit("8");
        reveal_strlit("9");
    }
    match value {
        0 => "0",
        1 => "1",
        2 => "2",
        3 => "3",
        4 => "4",
        5 => "5",
        6 => "6",
        7 => "7",
        8 => "8",
        _ => "9",
    }
}

/// Appends `value`, written in base ten, to `text`.
fn append_decimal(text: &mut String, value: u32)
    ensures
        final(text)@ == old(text)@ + decimal(value as nat),
    decreases value,
{
    if value >= 10 {
        append_decimal(text, value / 10);
    }
    text.append(digit_str((value % 10) as u8));
}

/// `value` written in base ten.
pub fn decimal_text(value: u32) -> (text: String)
    ensures
        text@ == decimal(value as nat),
{
    let mut text = String::new();
    append_decimal(&mut text, value);
    text
}

} // verus!
