//! Character sequences: reading the characters of a string, writing them back,
//! and the tests and foldings that the matcher applies to them.

use vstd::prelude::*;
use crate::alphabet::{fold_ascii, is_ascii_char, lower_ascii, to_lower_ascii};

verus! {

/// What `str::to_lowercase` returns for the characters `s`: the lower-case form
/// that Unicode defines, which may differ from `s` in length.
pub uninterp spec fn unicode_lowercase(s: Seq<char>) -> Seq<char>;

/// The lower-case form of `s` under which identifiers are compared when case does
/// not count: letter by letter where `s` is ASCII, Unicode's otherwise.
pub open spec fn lowercase(s: Seq<char>) -> Seq<char> {
    if vstd::utf8::is_ascii_chars(s) {
        fold_ascii(s)
    } else {
        unicode_lowercase(s)
    }
}

/// Calls `str::to_lowercase`. The result is a function of the characters of `s`
/// alone; the contract gives it a name and claims nothing else of it.
#[verifier::external_body]
fn to_unicode_lowercase(s: &str) -> (r: String)
    ensures
        r@ == unicode_lowercase(s@),
{
    s.to_lowercase()
}

/// Calls `String::push`, which appends `c` to the end of `s`.
#[verifier::external_body]
fn push_char(s: &mut String, c: char)
    ensures
        final(s)@ == old(s)@.push(c),
{
    s.push(c)
}

/// The characters of `s`, in order.
pub fn chars_of(s: &str) -> (v: Vec<char>)
    ensures
        v@ == s@,
{
    let mut v: Vec<char> = Vec::new();
    for c in it: s.chars()
        invariant
            v@ == it.seq().take(it.index()),
    {
        v.push(c);
    }
    v
}

/// Appends the characters `chars` to `out`.
pub fn append_chars(out: &mut String, chars: &Vec<char>)
    ensures
        final(out)@ == old(out)@ + chars@,
{
    let mut i: usize = 0;
    while i < chars.len()
        invariant
            i <= chars.len(),
            out@ == old(out)@ + chars@.take(i as int),
        decreases chars.len() - i,
    {
        push_char(out, chars[i]);
        i += 1;
    }
}

/// The string made of the characters `chars`.
pub fn string_of(chars: &Vec<char>) -> (s: String)
    ensures
        s@ == chars@,
{
    let mut s = String::new();
    append_chars(&mut s, chars);
    s
}

/// Whether `text` begins with `anchor`.
pub fn starts_with(text: &Vec<char>, anchor: &Vec<char>) -> (r: bool)
    ensures
        r == anchor@.is_prefix_of(text@),
{
    if anchor.len() > text.len() {
        return false;
    }
    let mut i: usize = 0;
    while i < anchor.len()
        invariant
            i <= anchor.len() <= text.len(),
            forall|j: int| 0 <= j < i ==> anchor@[j] == text@[j],
        decreases anchor.len() - i,
    {
        if anchor[i] != text[i] {
            return false;
        }
        i += 1;
    }
    true
}

/// Whether `text` ends with `anchor`.
pub fn ends_with(text: &Vec<char>, anchor: &Vec<char>) -> (r: bool)
    ensures
        r == anchor@.is_suffix_of(text@),
{
    if anchor.len() > text.len() {
        return false;
    }
    let shift: usize = text.len() - anchor.len();
    let mut i: usize = 0;
    while i < anchor.len()
        invariant
            i <= anchor.len() <= text.len(),
            shift == text.len() - anchor.len(),
            forall|j: int| 0 <= j < i ==> anchor@[j] == text@[shift + j],
        decreases anchor.len() - i,
    {
        if anchor[i] != text[shift + i] {
            return false;
        }
        i += 1;
    }
    true
}

/// Whether every character of `chars` is ASCII.
pub fn is_ascii(chars: &Vec<char>) -> (r: bool)
    ensures
        r == vstd::utf8::is_ascii_chars(chars@),
{
    let mut i: usize = 0;
    while i < chars.len()
        invariant
            i <= chars.len(),
            forall|j: int| 0 <= j < i ==> '\0' <= #[trigger] chars@[j] <= '\u{7f}',
        decreases chars.len() - i,
    {
        if !is_ascii_char(chars[i]) {
            return false;
        }
        i += 1;
    }
    true
}

/// Folds the ASCII letters of `chars` to lower case, in place.
pub fn fold_ascii_in_place(chars: &mut Vec<char>)
    ensures
        final(chars)@ == fold_ascii(old(chars)@),
{
    let mut i: usize = 0;
    while i < chars.len()
        invariant
            i <= chars.len(),
            chars.len() == old(chars).len(),
            forall|j: int| 0 <= j < i ==> chars@[j] == lower_ascii(old(chars)@[j]),
            forall|j: int| i <= j < chars.len() ==> chars@[j] == old(chars)@[j],
        decreases chars.len() - i,
    {
        let c = to_lower_ascii(chars[i]);
        chars.set(i, c);
        i += 1;
    }
    assert(chars@ =~= fold_ascii(old(chars)@));
}

/// The characters of `s` in the lower-case form [`lowercase`].
pub fn lowercase_chars(s: &str) -> (v: Vec<char>)
    ensures
        v@ == lowercase(s@),
{
    let mut v = chars_of(s);
    if is_ascii(&v) {
        fold_ascii_in_place(&mut v);
        v
    } else {
        let lowered = to_unicode_lowercase(s);
        chars_of(lowered.as_str())
    }
}

} // verus!
