use vanity::alphabet::{is_ascii_char, is_legal_char, to_lower_ascii};
use vanity::error::ValidationError;
use vanity::pattern::{check_anchor, VanityMatcher};

fn text(s: &str) -> Option<String> {
    Some(s.to_string())
}

fn matcher(prefix: Option<&str>, suffix: Option<&str>, case_sensitive: bool) -> VanityMatcher {
    VanityMatcher::new(
        prefix.map(|s| s.to_string()),
        suffix.map(|s| s.to_string()),
        case_sensitive,
    )
    .unwrap()
}

#[test]
fn alphabet_has_58_symbols() {
    let symbols = "123456789ABCDEFGHJKLMNPQRSTUVWXYZabcdefghijkmnopqrstuvwxyz";
    assert_eq!(symbols.chars().count(), 58);
    for c in symbols.chars() {
        assert!(is_legal_char(c));
    }
    let mut legal = 0;
    for code in 0u32..0x250 {
        if let Some(c) = char::from_u32(code) {
            if is_legal_char(c) {
                legal += 1;
                assert!(symbols.contains(c));
            }
        }
    }
    assert_eq!(legal, 58);
}

#[test]
fn ambiguous_characters_are_not_in_the_alphabet() {
    for c in ['0', 'O', 'I', 'l'] {
        assert!(!is_legal_char(c));
    }
    for c in [' ', '-', '_', '+', '/', 'é', 'Ω', '\u{212A}'] {
        assert!(!is_legal_char(c));
    }
}

#[test]
fn lower_ascii_folds_letters_only() {
    assert_eq!(to_lower_ascii('A'), 'a');
    assert_eq!(to_lower_ascii('Z'), 'z');
    assert_eq!(to_lower_ascii('L'), 'l');
    assert_eq!(to_lower_ascii('a'), 'a');
    assert_eq!(to_lower_ascii('7'), '7');
    assert_eq!(to_lower_ascii('@'), '@');
    assert_eq!(to_lower_ascii('['), '[');
    assert_eq!(to_lower_ascii('Ä'), 'Ä');
    for code in 0u32..128 {
        let c = char::from_u32(code).unwrap();
        assert_eq!(to_lower_ascii(c), c.to_ascii_lowercase());
        assert!(is_ascii_char(c));
    }
    assert!(!is_ascii_char('\u{80}'));
    assert!(!is_ascii_char('é'));
}

#[test]
fn check_anchor_finds_the_fault_of_one_anchor() {
    assert_eq!(check_anchor(""), Some(ValidationError::EmptyPattern));
    assert_eq!(check_anchor("abc"), None);
    assert_eq!(check_anchor("L"), None);
    assert_eq!(check_anchor("l"), Some(ValidationError::IllegalCharacter('l')));
    assert_eq!(check_anchor("ab0cO"), Some(ValidationError::IllegalCharacter('0')));
    assert_eq!(check_anchor("abI"), Some(ValidationError::IllegalCharacter('I')));
    assert_eq!(check_anchor("a b"), Some(ValidationError::IllegalCharacter(' ')));
}

#[test]
fn rejects_when_no_anchor_is_given() {
    assert_eq!(
        VanityMatcher::new(None, None, false).unwrap_err(),
        ValidationError::NoPatternSpecified
    );
    assert_eq!(
        VanityMatcher::new(None, None, true).unwrap_err(),
        ValidationError::NoPatternSpecified
    );
}

#[test]
fn rejects_an_empty_anchor() {
    assert_eq!(
        VanityMatcher::new(text(""), None, false).unwrap_err(),
        ValidationError::EmptyPattern
    );
    assert_eq!(
        VanityMatcher::new(None, text(""), true).unwrap_err(),
        ValidationError::EmptyPattern
    );
    assert_eq!(
        VanityMatcher::new(text("ab"), text(""), false).unwrap_err(),
        ValidationError::EmptyPattern
    );
}

#[test]
fn rejects_each_ambiguous_character() {
    for c in ['0', 'O', 'I', 'l'] {
        let raw = format!("a{}b", c);
        assert_eq!(
            VanityMatcher::new(text(&raw), None, false).unwrap_err(),
            ValidationError::IllegalCharacter(c)
        );
        assert_eq!(
            VanityMatcher::new(None, text(&raw), true).unwrap_err(),
            ValidationError::IllegalCharacter(c)
        );
    }
}

#[test]
fn reports_the_first_illegal_character() {
    assert_eq!(
        VanityMatcher::new(text("a0bO"), None, true).unwrap_err(),
        ValidationError::IllegalCharacter('0')
    );
    assert_eq!(
        VanityMatcher::new(text("é!"), None, false).unwrap_err(),
        ValidationError::IllegalCharacter('é')
    );
    assert_eq!(
        VanityMatcher::new(None, text("abc "), false).unwrap_err(),
        ValidationError::IllegalCharacter(' ')
    );
}

#[test]
fn a_fault_of_the_prefix_comes_before_one_of_the_suffix() {
    assert_eq!(
        VanityMatcher::new(text("0"), text(""), false).unwrap_err(),
        ValidationError::IllegalCharacter('0')
    );
    assert_eq!(
        VanityMatcher::new(text(""), text("0"), false).unwrap_err(),
        ValidationError::EmptyPattern
    );
    assert_eq!(
        VanityMatcher::new(text("I"), text("O"), true).unwrap_err(),
        ValidationError::IllegalCharacter('I')
    );
}

#[test]
fn accepts_every_symbol_of_the_alphabet() {
    let symbols = "123456789ABCDEFGHJKLMNPQRSTUVWXYZabcdefghijkmnopqrstuvwxyz";
    let m = matcher(Some(symbols), Some(symbols), true);
    assert_eq!(m.prefix(), text(symbols));
    assert_eq!(m.suffix(), text(symbols));
    assert!(m.is_case_sensitive());
    assert!(m.matches(symbols));
}

#[test]
fn anchors_are_folded_when_case_does_not_count() {
    let m = matcher(Some("AB"), Some("xYz9"), false);
    assert_eq!(m.prefix(), text("ab"));
    assert_eq!(m.suffix(), text("xyz9"));
    assert!(!m.is_case_sensitive());
}

#[test]
fn anchors_are_kept_when_case_counts() {
    let m = matcher(Some("AB"), Some("xYz9"), true);
    assert_eq!(m.prefix(), text("AB"));
    assert_eq!(m.suffix(), text("xYz9"));
    assert!(m.is_case_sensitive());
    let only_suffix = matcher(None, Some("Q"), true);
    assert_eq!(only_suffix.prefix(), None);
    assert_eq!(only_suffix.suffix(), text("Q"));
}

#[test]
fn case_sensitive_prefix_tells_case_apart() {
    let m = matcher(Some("AB"), None, true);
    assert!(!m.matches("abXYZ"));
    assert!(m.matches("ABXYZ"));
    assert!(!m.matches("AbXYZ"));
    assert!(!m.matches("XYZAB"));
}

#[test]
fn case_insensitive_prefix_folds_both_sides() {
    let m = matcher(Some("AB"), None, false);
    assert!(m.matches("abXYZ"));
    assert!(m.matches("ABXYZ"));
    assert!(m.matches("aBxyz"));
    assert!(!m.matches("bAxyz"));
    let lower = matcher(Some("ab"), None, false);
    assert!(lower.matches("ABxyz"));
    assert!(lower.matches("abxyz"));
    assert!(!lower.matches("a"));
}

#[test]
fn case_sensitive_suffix_must_end_exactly() {
    let m = matcher(None, Some("XY"), true);
    assert!(m.matches("7abcXY"));
    assert!(m.matches("XY"));
    assert!(!m.matches("7abcxy"));
    assert!(!m.matches("7abcXy"));
    assert!(!m.matches("XYa"));
    assert!(!m.matches("Y"));
}

#[test]
fn both_anchors_must_hold() {
    let m = matcher(Some("ab"), Some("yz"), true);
    assert!(m.matches("abyz"));
    assert!(m.matches("ab123yz"));
    assert!(!m.matches("ab123"));
    assert!(!m.matches("123yz"));
    assert!(!m.matches(""));
}

#[test]
fn anchors_may_overlap_in_the_identifier() {
    let m = matcher(Some("aba"), Some("bab"), true);
    assert!(m.matches("abab"));
    assert!(!m.matches("aba"));
    let same = matcher(Some("abc"), Some("abc"), true);
    assert!(same.matches("abc"));
}

#[test]
fn an_anchor_longer_than_the_identifier_does_not_hold() {
    let m = matcher(Some("abcd"), None, true);
    assert!(!m.matches("abc"));
    assert!(!m.matches(""));
    let s = matcher(None, Some("abcd"), false);
    assert!(!s.matches("bcd"));
}

#[test]
fn matches_exactly_does_not_fold() {
    let m = matcher(Some("AB"), None, false);
    assert!(m.matches("ABcd"));
    assert!(m.matches_exactly("abcd"));
    assert!(!m.matches_exactly("ABcd"));
    let s = matcher(None, Some("XY"), true);
    assert!(s.matches_exactly("abXY"));
    assert!(!s.matches_exactly("abxy"));
}

#[test]
fn folding_follows_unicode_outside_ascii() {
    let kelvin = "\u{212A}ey";
    assert_eq!(kelvin.to_lowercase(), "key");
    let m = matcher(Some("k"), None, false);
    assert!(m.matches(kelvin));
    assert!(!m.matches_exactly(kelvin));
    let strict = matcher(Some("k"), None, true);
    assert!(!strict.matches(kelvin));
    let tail = matcher(None, Some("b"), false);
    assert!(tail.matches("ÄB"));
    assert!(!matcher(None, Some("b"), true).matches("ÄB"));
}

#[test]
fn validating_a_kept_pattern_again_gives_the_same_pattern() {
    for case_sensitive in [false, true] {
        let first = matcher(Some("Ab3"), Some("Cd"), case_sensitive);
        let second = VanityMatcher::new(first.prefix(), first.suffix(), case_sensitive).unwrap();
        assert_eq!(first, second);
        let third = VanityMatcher::new(second.prefix(), second.suffix(), case_sensitive).unwrap();
        assert_eq!(second, third);
    }
    let with_l = matcher(Some("L"), None, true);
    let again = VanityMatcher::new(with_l.prefix(), with_l.suffix(), true).unwrap();
    assert_eq!(with_l, again);
}

#[test]
fn a_folded_l_leaves_the_alphabet() {
    let m = matcher(Some("L"), None, false);
    assert_eq!(m.prefix(), text("l"));
    assert!(m.matches("Lx"));
    assert!(m.matches("lx"));
    assert_eq!(
        VanityMatcher::new(m.prefix(), None, false).unwrap_err(),
        ValidationError::IllegalCharacter('l')
    );
}

#[test]
fn description_names_the_anchors_and_the_sensitivity() {
    assert_eq!(
        matcher(Some("AB"), Some("Cd"), false).description(),
        "prefix 'ab' and suffix 'cd' (case-insensitive)"
    );
    assert_eq!(
        matcher(Some("AB"), Some("Cd"), true).description(),
        "prefix 'AB' and suffix 'Cd' (case-sensitive)"
    );
    assert_eq!(
        matcher(Some("So"), None, false).description(),
        "prefix 'so' (case-insensitive)"
    );
    assert_eq!(
        matcher(None, Some("XY"), true).description(),
        "suffix 'XY' (case-sensitive)"
    );
}
