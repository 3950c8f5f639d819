//! The 58-symbol alphabet in which public identifiers are written, and the
//! folding of its letters to lower case.

use vstd::prelude::*;

verus! {

/// Whether `c` is one of the 58 symbols: the digits without `0`, the upper-case
/// letters without `I` and `O`, and the lower-case letters without `l`.
pub open spec fn is_legal(c: char) -> bool {
    ||| ('1' <= c && c <= '9')
    ||| ('A' <= c && c <= 'Z' && c != 'I' && c != 'O')
    ||| ('a' <= c && c <= 'z' && c != 'l')
}

/// Whether every character of `s` is one of the 58 symbols.
pub open spec fn all_legal(s: Seq<char>) -> bool {
    forall|i: int| 0 <= i < s.len() ==> is_legal(#[trigger] s[i])
}

/// The lower-case form of an ASCII letter; any other character is unchanged.
pub open spec fn lower_ascii(c: char) -> char {
    if 'A' <= c && c <= 'Z' {
        ((c as u8) + 32) as char
    } else {
        c
    }
}

/// `s` with each of its characters folded by [`lower_ascii`].
pub open spec fn fold_ascii(s: Seq<char>) -> Seq<char> {
    Seq::new(s.len(), |i: int| lower_ascii(s[i]))
}

/// Whether `c` is an ASCII character.
pub open spec fn is_ascii(c: char) -> bool {
    '\0' <= c <= '\u{7f}'
}

/// Tests whether `c` is an ASCII character.
pub fn is_ascii_char(c: char) -> (r: bool)
    ensures
        r == is_ascii(c),
{
    c <= '\u{7f}'
}

/// Tests membership of `c` in the alphabet.
pub fn is_legal_char(c: char) -> (r: bool)
    ensures
        r == is_legal(c),
{
    ('1' <= c && c <= '9') || ('A' <= c && c <= 'Z' && c != 'I' && c != 'O') || ('a' <= c && c
        <= 'z' && c != 'l')
}

/// Folds one character to lower case where it is an ASCII letter.
pub fn to_lower_ascii(c: char) -> (r: char)
    ensures
        r == lower_ascii(c),
{
    if 'A' <= c && c <= 'Z' {
        ((c as u8) + 32) as char
    } else {
        c
    }
}

/// The symbols of the alphabet, in the order of their values.
pub open spec fn symbols() -> Seq<char> {
    "123456789ABCDEFGHJKLMNPQRSTUVWXYZabcdefghijkmnopqrstuvwxyz"@
}

/// The place of a legal character among the [`symbols`].
pub open spec fn place(c: char) -> int {
    if c <= '9' {
        c as int - '1' as int
    } else if c <= 'H' {
        9 + (c as int - 'A' as int)
    } else if c <= 'N' {
        17 + (c as int - 'J' as int)
    } else if c <= 'Z' {
        22 + (c as int - 'P' as int)
    } else if c <= 'k' {
        33 + (c as int - 'a' as int)
    } else {
        44 + (c as int - 'm' as int)
    }
}

/// The alphabet has 58 symbols, and a character is legal exactly when it is one of
/// them.
pub proof fn lemma_alphabet()
    ensures
        symbols().len() == 58,
        symbols().no_duplicates(),
        forall|c: char| is_legal(c) <==> symbols().contains(c),
        forall|c: char| is_legal(c) ==> 0 <= place(c) < 58 && symbols()[place(c)] == c,
{
    reveal_strlit("123456789ABCDEFGHJKLMNPQRSTUVWXYZabcdefghijkmnopqrstuvwxyz");
    let s = symbols();
    assert forall|c: char| is_legal(c) implies 0 <= place(c) < 58 && s[place(c)] == c by {
        let i = place(c);
        assert(0 <= i < 58);
    }
    assert forall|c: char| is_legal(c) implies s.contains(c) by {
        assert(s[place(c)] == c);
    }
    assert forall|c: char| s.contains(c) implies is_legal(c) by {
        let i = choose|i: int| 0 <= i < s.len() && s[i] == c;
        assert(is_legal(s[i]));
    }
    assert forall|i: int, j: int| 0 <= i < s.len() && 0 <= j < s.len() && i != j implies s[i]
        != s[j] by {
        assert(place(s[i]) == i);
        assert(place(s[j]) == j);
    }
}

} // verus!
