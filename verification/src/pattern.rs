//! Patterns: validating a prefix and a suffix, and testing identifiers against them.

use vstd::prelude::*;
use vstd::string::StringExecFns;
use crate::alphabet::{all_legal, fold_ascii, is_legal, is_legal_char};
use crate::error::ValidationError;
use crate::text::{
    append_chars, chars_of, ends_with, fold_ascii_in_place, lowercase, lowercase_chars,
    starts_with, string_of,
};

verus! {

/// The first character of `s` that is not in the alphabet, if there is one.
pub open spec fn first_illegal(s: Seq<char>) -> Option<char>
    decreases s.len(),
{
    if s.len() == 0 {
        None
    } else if !is_legal(s[0]) {
        Some(s[0])
    } else {
        first_illegal(s.drop_first())
    }
}

/// What is wrong with the raw anchor `raw`, if anything: it is empty, or else its
/// first character outside the alphabet.
pub open spec fn anchor_fault(raw: Seq<char>) -> Option<ValidationError> {
    if raw.len() == 0 {
        Some(ValidationError::EmptyPattern)
    } else {
        match first_illegal(raw) {
            Some(c) => Some(ValidationError::IllegalCharacter(c)),
            None => None,
        }
    }
}

/// The form in which a text is compared: as it stands where case counts, in lower
/// case where it does not.
pub open spec fn shown(text: Seq<char>, case_sensitive: bool) -> Seq<char> {
    if case_sensitive {
        text
    } else {
        lowercase(text)
    }
}

/// A raw anchor in the form in which it is kept, if one was given.
pub open spec fn kept(raw: Option<Seq<char>>, case_sensitive: bool) -> Option<Seq<char>> {
    match raw {
        Some(s) => Some(shown(s, case_sensitive)),
        None => None,
    }
}

/// A validated pattern, as a mathematical value.
pub struct Pattern {
    /// The characters an identifier must begin with, already in compared form.
    pub prefix: Option<Seq<char>>,
    /// The characters an identifier must end with, already in compared form.
    pub suffix: Option<Seq<char>>,
    /// Whether upper and lower case are told apart.
    pub case_sensitive: bool,
}

impl Pattern {
    /// Whether `c` may stand in a kept anchor: a symbol of the alphabet where case
    /// counts, the lower-case form of one where it does not.
    pub open spec fn admits(self, c: char) -> bool {
        if self.case_sensitive {
            is_legal(c)
        } else {
            ('1' <= c && c <= '9') || ('a' <= c && c <= 'z')
        }
    }

    /// Whether `anchor` is non-empty and made of admitted characters only.
    pub open spec fn anchor_ok(self, anchor: Seq<char>) -> bool {
        &&& anchor.len() > 0
        &&& forall|i: int| 0 <= i < anchor.len() ==> self.admits(#[trigger] anchor[i])
    }

    /// The invariant of a pattern: it has a prefix or a suffix, and each anchor it has
    /// is non-empty and made of admitted characters.
    pub open spec fn well_formed(self) -> bool {
        &&& self.prefix is Some || self.suffix is Some
        &&& self.prefix matches Some(p) ==> self.anchor_ok(p)
        &&& self.suffix matches Some(s) ==> self.anchor_ok(s)
    }

    /// Whether the text `text`, taken as it stands, begins with the prefix and ends
    /// with the suffix. An anchor that is absent asks for nothing.
    pub open spec fn anchors_hold(self, text: Seq<char>) -> bool {
        &&& self.prefix matches Some(p) ==> p.is_prefix_of(text)
        &&& self.suffix matches Some(s) ==> s.is_suffix_of(text)
    }

    /// Whether the pattern accepts `identifier`: its anchors hold on the identifier
    /// in compared form.
    pub open spec fn accepts(self, identifier: Seq<char>) -> bool {
        self.anchors_hold(shown(identifier, self.case_sensitive))
    }
}

/// The outcome of validating a raw prefix and suffix. A fault of the prefix is
/// reported before one of the suffix.
pub open spec fn validated(
    prefix: Option<Seq<char>>,
    suffix: Option<Seq<char>>,
    case_sensitive: bool,
) -> Result<Pattern, ValidationError> {
    if prefix is None && suffix is None {
        Err(ValidationError::NoPatternSpecified)
    } else if prefix is Some && anchor_fault(prefix->0) is Some {
        Err(anchor_fault(prefix->0)->0)
    } else if suffix is Some && anchor_fault(suffix->0) is Some {
        Err(anchor_fault(suffix->0)->0)
    } else {
        Ok(
            Pattern {
                prefix: kept(prefix, case_sensitive),
                suffix: kept(suffix, case_sensitive),
                case_sensitive,
            },
        )
    }
}

/// The words that say whether case counts.
pub open spec fn sensitivity(case_sensitive: bool) -> Seq<char> {
    if case_sensitive {
        "case-sensitive"@
    } else {
        "case-insensitive"@
    }
}

/// The summary of a pattern: `prefix 'P'`, `suffix 'S'`, or both joined by `and`,
/// followed by the sensitivity between round brackets.
pub open spec fn described(pattern: Pattern) -> Seq<char> {
    let anchors = match (pattern.prefix, pattern.suffix) {
        (Some(p), Some(s)) => "prefix '"@ + p + "' and suffix '"@ + s,
        (Some(p), None) => "prefix '"@ + p,
        (None, Some(s)) => "suffix '"@ + s,
        (None, None) => Seq::<char>::empty(),
    };
    anchors + "' ("@ + sensitivity(pattern.case_sensitive) + ")"@
}

/// The characters of an optional string.
pub open spec fn text_of(raw: Option<String>) -> Option<Seq<char>> {
    match raw {
        Some(s) => Some(s@),
        None => None,
    }
}

/// A validated pattern with which identifiers are tested.
#[derive(Debug, PartialEq, Eq)]
pub struct VanityMatcher {
    prefix: Option<Vec<char>>,
    suffix: Option<Vec<char>>,
    case_sensitive: bool,
}

impl View for VanityMatcher {
    type V = Pattern;

    closed spec fn view(&self) -> Pattern {
        Pattern {
            prefix: match self.prefix {
                Some(p) => Some(p@),
                None => None,
            },
            suffix: match self.suffix {
                Some(s) => Some(s@),
                None => None,
            },
            case_sensitive: self.case_sensitive,
        }
    }
}

/// A symbol of the alphabet is an ASCII character.
pub proof fn lemma_legal_is_ascii(s: Seq<char>)
    requires
        all_legal(s),
    ensures
        vstd::utf8::is_ascii_chars(s),
        lowercase(s) == fold_ascii(s),
{
    assert forall|i: int| 0 <= i < s.len() implies '\0' <= #[trigger] s[i] <= '\u{7f}' by {
        assert(is_legal(s[i]));
    }
}

/// [`first_illegal`] finds nothing exactly in the texts made of symbols of the
/// alphabet, and what it finds is a character of the text outside the alphabet
/// with none such before it.
pub proof fn lemma_first_illegal(s: Seq<char>)
    ensures
        first_illegal(s) is None <==> all_legal(s),
        first_illegal(s) matches Some(c) ==> exists|i: int|
            0 <= i < s.len() && s[i] == c && !is_legal(c) && all_legal(#[trigger] s.take(i)),
    decreases s.len(),
{
    if s.len() == 0 {
    } else if !is_legal(s[0]) {
        assert(all_legal(s.take(0)));
    } else {
        let rest = s.drop_first();
        lemma_first_illegal(rest);
        if all_legal(rest) {
            assert forall|i: int| 0 <= i < s.len() implies is_legal(#[trigger] s[i]) by {
                if i > 0 {
                    assert(s[i] == rest[i - 1]);
                }
            }
        } else {
            if all_legal(s) {
                assert forall|i: int| 0 <= i < rest.len() implies is_legal(#[trigger] rest[i]) by {
                    assert(rest[i] == s[i + 1]);
                }
            }
        }
        if first_illegal(rest) is Some {
            let c = first_illegal(rest)->0;
            let i = choose|i: int|
                0 <= i < rest.len() && rest[i] == c && !is_legal(c) && all_legal(
                    #[trigger] rest.take(i),
                );
            let before = s.take(i + 1);
            assert forall|j: int| 0 <= j < before.len() implies is_legal(#[trigger] before[j]) by {
                if j > 0 {
                    assert(before[j] == rest.take(i)[j - 1]);
                }
            }
            assert(s[i + 1] == c);
        }
    }
}

/// Looks for what is wrong with one raw anchor: that it is empty, or else its first
/// character outside the alphabet.
pub fn check_anchor(raw: &str) -> (r: Option<ValidationError>)
    ensures
        r == anchor_fault(raw@),
{
    let chars = chars_of(raw);
    if chars.len() == 0 {
        return Some(ValidationError::EmptyPattern);
    }
    let mut i: usize = 0;
    assert(raw@.skip(0) =~= raw@);
    while i < chars.len()
        invariant
            i <= chars.len(),
            chars@ == raw@,
            first_illegal(raw@) == first_illegal(raw@.skip(i as int)),
        decreases chars.len() - i,
    {
        let c = chars[i];
        let ghost tail = raw@.skip(i as int);
        assert(tail[0] == c);
        assert(tail.drop_first() =~= raw@.skip(i + 1));
        if !is_legal_char(c) {
            return Some(ValidationError::IllegalCharacter(c));
        }
        i += 1;
    }
    None
}

/// Validates one raw anchor and puts it into compared form.
fn normalize(raw: &str, case_sensitive: bool) -> (r: Result<Vec<char>, ValidationError>)
    ensures
        match r {
            Ok(anchor) => anchor_fault(raw@) is None && anchor@ == shown(raw@, case_sensitive),
            Err(e) => anchor_fault(raw@) == Some(e),
        },
{
    match check_anchor(raw) {
        Some(e) => Err(e),
        None => {
            let mut chars = chars_of(raw);
            if !case_sensitive {
                proof {
                    lemma_first_illegal(raw@);
                    lemma_legal_is_ascii(raw@);
                }
                fold_ascii_in_place(&mut chars);
            }
            Ok(chars)
        },
    }
}

impl VanityMatcher {
    /// Every matcher stands for a pattern that satisfies the invariant of patterns.
    #[verifier::type_invariant]
    pub open spec fn valid(&self) -> bool {
        self@.well_formed()
    }

    /// Validates a raw prefix and suffix and builds the matcher for them. Where case
    /// does not count, the anchors are folded to lower case here, once.
    pub fn new(prefix: Option<String>, suffix: Option<String>, case_sensitive: bool) -> (r: Result<
        VanityMatcher,
        ValidationError,
    >)
        ensures
            match r {
                Ok(m) => validated(text_of(prefix), text_of(suffix), case_sensitive) == Ok::<
                    Pattern,
                    ValidationError,
                >(m@) && m@.well_formed(),
                Err(e) => validated(text_of(prefix), text_of(suffix), case_sensitive) == Err::<
                    Pattern,
                    ValidationError,
                >(e),
            },
    {
        if prefix.is_none() && suffix.is_none() {
            return Err(ValidationError::NoPatternSpecified);
        }
        let kept_prefix = match &prefix {
            Some(p) => match normalize(p.as_str(), case_sensitive) {
                Ok(anchor) => Some(anchor),
                Err(e) => {
                    return Err(e);
                },
            },
            None => None,
        };
        let kept_suffix = match &suffix {
            Some(s) => match normalize(s.as_str(), case_sensitive) {
                Ok(anchor) => Some(anchor),
                Err(e) => {
                    return Err(e);
                },
            },
            None => None,
        };
        proof {
            lemma_validated_well_formed(text_of(prefix), text_of(suffix), case_sensitive);
        }
        Ok(VanityMatcher { prefix: kept_prefix, suffix: kept_suffix, case_sensitive })
    }

    /// Tests the anchors on `text` as it stands, with no folding of case.
    pub fn matches_exactly(&self, text: &str) -> (r: bool)
        ensures
            r == self@.anchors_hold(text@),
    {
        let chars = chars_of(text);
        self.anchors_hold_on(&chars)
    }

    fn anchors_hold_on(&self, text: &Vec<char>) -> (r: bool)
        ensures
            r == self@.anchors_hold(text@),
    {
        let prefix_holds = match &self.prefix {
            Some(p) => starts_with(text, p),
            None => true,
        };
        let suffix_holds = match &self.suffix {
            Some(s) => ends_with(text, s),
            None => true,
        };
        prefix_holds && suffix_holds
    }

    /// Tests whether the pattern accepts the identifier `address`. Where case does
    /// not count the identifier is folded to lower case first; the anchors were
    /// folded when the matcher was built.
    pub fn matches(&self, address: &str) -> (r: bool)
        ensures
            r == self@.accepts(address@),
    {
        let text = if self.case_sensitive {
            chars_of(address)
        } else {
            lowercase_chars(address)
        };
        self.anchors_hold_on(&text)
    }

    /// The prefix in compared form, if the pattern has one.
    pub fn prefix(&self) -> (r: Option<String>)
        ensures
            text_of(r) == self@.prefix,
    {
        match &self.prefix {
            Some(p) => Some(string_of(p)),
            None => None,
        }
    }

    /// The suffix in compared form, if the pattern has one.
    pub fn suffix(&self) -> (r: Option<String>)
        ensures
            text_of(r) == self@.suffix,
    {
        match &self.suffix {
            Some(s) => Some(string_of(s)),
            None => None,
        }
    }

    /// Whether upper and lower case are told apart.
    pub fn is_case_sensitive(&self) -> (r: bool)
        ensures
            r == self@.case_sensitive,
    {
        self.case_sensitive
    }

    /// A summary of the pattern for a reader: its anchors between quotes, then
    /// whether case counts.
    pub fn description(&self) -> (r: String)
        ensures
            r@ == described(self@),
    {
        let mut out = String::new();
        match &self.prefix {
            Some(p) => {
                out.append("prefix '");
                append_chars(&mut out, p);
                match &self.suffix {
                    Some(s) => {
                        out.append("' and suffix '");
                        append_chars(&mut out, s);
                    },
                    None => {},
                }
            },
            None => {
                match &self.suffix {
                    Some(s) => {
                        out.append("suffix '");
                        append_chars(&mut out, s);
                    },
                    None => {},
                }
            },
        }
        out.append("' (");
        if self.case_sensitive {
            out.append("case-sensitive");
        } else {
            out.append("case-insensitive");
        }
        out.append(")");
        assert(out@ =~= described(self@));
        out
    }
}

/// What validation lets through satisfies the invariant of patterns.
pub proof fn lemma_validated_well_formed(
    prefix: Option<Seq<char>>,
    suffix: Option<Seq<char>>,
    case_sensitive: bool,
)
    ensures
        validated(prefix, suffix, case_sensitive) matches Ok(p) ==> p.well_formed(),
{
    if let Ok(p) = validated(prefix, suffix, case_sensitive) {
        if let Some(raw) = prefix {
            lemma_kept_anchor_ok(raw, p);
        }
        if let Some(raw) = suffix {
            lemma_kept_anchor_ok(raw, p);
        }
    }
}

proof fn lemma_kept_anchor_ok(raw: Seq<char>, p: Pattern)
    requires
        anchor_fault(raw) is None,
    ensures
        p.anchor_ok(shown(raw, p.case_sensitive)),
{
    lemma_first_illegal(raw);
    lemma_legal_is_ascii(raw);
    let anchor = shown(raw, p.case_sensitive);
    assert forall|i: int| 0 <= i < anchor.len() implies p.admits(#[trigger] anchor[i]) by {
        assert(is_legal(raw[i]));
    }
}

} // verus!
