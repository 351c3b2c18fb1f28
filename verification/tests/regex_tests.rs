use fsm_regex::fsm::Regex;
use fsm_regex::lexer::CompileError;

fn check(pattern: &str, cases: &[(&str, bool)]) {
    let regex = match Regex::compile(pattern) {
        Ok(r) => r,
        Err(_) => panic!("pattern {:?} failed to compile", pattern),
    };
    for (input, expected) in cases {
        assert_eq!(
            regex.match_str(input),
            *expected,
            "pattern {:?} against input {:?}",
            pattern,
            input
        );
    }
}

#[test]
fn one_or_more_with_anchor() {
    check(
        "a+bc$",
        &[
            ("Hello, World", false),
            ("bc", false),
            ("abc", true),
            ("aabc", true),
            ("aaabc", true),
            ("bbc", false),
            ("cbc", false),
            ("cbd", false),
            ("cbt", false),
        ],
    );
}

#[test]
fn anchor_requires_exact_end() {
    // the trailing "d" violates the `$` anchor
    check("a+bc$", &[("abcd", false)]);
}

#[test]
fn literal_pattern_matches_itself() {
    check("abc", &[("abc", true), ("ab", false), ("xbc", false)]);
    check("Hello, World", &[("Hello, World", true), ("Hello, world", false)]);
}

#[test]
fn without_anchor_trailing_characters_are_allowed() {
    // matching is anchored at the start but not at the end unless the
    // pattern says `$`
    check("abc", &[("abcx", true), ("abcdef", true)]);
    check("abc$", &[("abcx", false), ("abc", true)]);
}

#[test]
fn empty_input() {
    check("a*", &[("", true)]);
    check("a", &[("", false)]);
}

#[test]
fn empty_pattern_matches_everything() {
    check("", &[("", true), ("a", true), ("anything", true)]);
}

#[test]
fn wildcard_matches_any_printable() {
    check(".bc", &[("abc", true), ("xbc", true), ("bc", false)]);
    check(".", &[("a", true), (" ", true), ("~", true), ("", false)]);
}

#[test]
fn wildcard_star_is_greedy_without_backtracking() {
    // `.*` self-loops on every printable character and never backtracks, so
    // it consumes the whole input and nothing is left for the "bc" columns
    check(".*bc", &[("bc", false), ("abc", false), ("aabc", false)]);
    check(".*", &[("", true), ("abc", true)]);
}

#[test]
fn star_self_loop_consumes_repeats() {
    check("a*b", &[("b", true), ("ab", true), ("aaab", true), ("cb", false)]);
}

#[test]
fn determinism_across_compilations() {
    let inputs = ["", "a", "ab", "aab", "aabc", "abcd", "zzz"];
    let r1 = Regex::compile("a+bc$").unwrap();
    let r2 = Regex::compile("a+bc$").unwrap();
    for input in inputs {
        assert_eq!(r1.match_str(input), r2.match_str(input));
    }
}

#[test]
fn matching_is_idempotent() {
    let regex = Regex::compile("a+bc$").unwrap();
    let first = regex.match_str("aabc");
    for _ in 0..5 {
        assert_eq!(regex.match_str("aabc"), first);
    }
}

#[test]
fn quantifier_without_atom_is_rejected() {
    assert_eq!(Regex::compile("*a").unwrap_err(), CompileError::InvalidQuantifier);
    assert_eq!(Regex::compile("+a").unwrap_err(), CompileError::InvalidQuantifier);
    assert_eq!(Regex::compile("*").unwrap_err(), CompileError::InvalidQuantifier);
}

#[test]
fn stacked_quantifiers_are_rejected() {
    assert_eq!(Regex::compile("a**").unwrap_err(), CompileError::InvalidQuantifier);
    assert_eq!(Regex::compile("a+*").unwrap_err(), CompileError::InvalidQuantifier);
}

#[test]
fn out_of_range_pattern_character_is_rejected() {
    assert_eq!(Regex::compile("ab\u{2603}").unwrap_err(), CompileError::UnsupportedSymbol);
    assert_eq!(Regex::compile("é").unwrap_err(), CompileError::UnsupportedSymbol);
}

#[test]
fn quantified_anchor_is_permitted_but_never_useful() {
    // `$*` compiles (the lexer treats `$` like any other atom), but the
    // resulting self-loop column cannot be satisfied at end of input
    let regex = Regex::compile("$*").unwrap();
    assert!(!regex.match_str(""));
}

#[test]
fn out_of_range_input_characters_fail_instead_of_crashing() {
    let regex = Regex::compile(".").unwrap();
    assert!(!regex.match_str("\u{2603}"));
    let literal = Regex::compile("a").unwrap();
    assert!(!literal.match_str("\u{2603}"));
    assert!(!literal.match_str("\n"));
}
