use std::str::FromStr;

use miniregex::{match_pattern, CompileError, Regex, RegexClass, RegexElement};

fn chars(s: &str) -> Vec<char> {
    s.chars().collect()
}

#[test]
fn test_quantifier() {
    let cases = [
        ("a*", "", true),
        ("a*", "a", true),
        ("a*", "aa", true),
        ("a*b", "aaa", false),
        ("a*b", "aaab", true),
        ("a*b", "b", true),
        ("a+", "", false),
        ("a+", "a", true),
        ("a+", "aa", true),
        ("a+b", "aaa", false),
        ("a+b", "aaab", true),
        ("a+b", "b", false),
        ("a?", "", true),
        ("a?", "a", true),
        ("a?", "aa", true),
        ("a?b", "aaa", false),
        ("a?b", "aaab", true),
        ("a?b", "b", true),
        ("ca+t", "caaats", true),
    ];

    for (pattern, input, expected) in &cases {
        println!("\nTesting {pattern:?} against {input:?} with expected result = {expected}");
        assert_eq!(
            Regex::from_str(pattern).unwrap().matches(input),
            *expected,
            "Expected {pattern:?} {}to match {input:?}",
            if *expected { "" } else { "not " }
        );
    }
}

#[test]
fn test_start_anchor() {
    let cases = [
        ("^a", "a", true),
        ("^a", "aa", true),
        ("^a", "ba", false),
        ("^a", "", false),
        ("^log", "slog", false),
    ];
    for (pattern, input, expected) in &cases {
        println!("\nTesting {pattern:?} against {input:?} with expected result = {expected}");
        assert_eq!(
            Regex::from_str(pattern).unwrap().matches(input),
            *expected,
            "Expected {pattern:?} {}to match {input:?}",
            if *expected { "" } else { "not " }
        );
    }
}

#[test]
fn test_wildcard_and_literals() {
    assert!(Regex::compile("c.t").unwrap().matches("cat"));
    assert!(Regex::compile("c.t").unwrap().matches("cut"));
    assert!(!Regex::compile("c.t").unwrap().matches("ct"));
    assert!(Regex::compile("abc").unwrap().matches("xxabcxx"));
    assert!(!Regex::compile("abc").unwrap().matches("ab"));
    assert!(!Regex::compile(".").unwrap().matches(""));
}

#[test]
fn test_classes() {
    assert!(Regex::compile("\\d").unwrap().matches("a5b"));
    assert!(!Regex::compile("\\d").unwrap().matches("abc"));
    assert!(Regex::compile("\\w").unwrap().matches("!_!"));
    assert!(Regex::compile("\\w").unwrap().matches("x"));
    assert!(Regex::compile("\\w").unwrap().matches("7"));
    assert!(!Regex::compile("\\w").unwrap().matches("!?."));
    assert!(Regex::compile("\\d apple").unwrap().matches("1 apple"));
    assert!(!Regex::compile("\\d apple").unwrap().matches("x apple"));
}

#[test]
fn test_char_groups() {
    assert!(Regex::compile("[abc]").unwrap().matches("ball"));
    assert!(!Regex::compile("[abc]").unwrap().matches("dull"));
    assert!(Regex::compile("[^abc]").unwrap().matches("cab!"));
    assert!(!Regex::compile("[^abc]").unwrap().matches("cab"));
    assert!(Regex::compile("[ab]+c").unwrap().matches("xabbac!"));
    assert!(!Regex::compile("[]").unwrap().matches("anything"));
    assert!(Regex::compile("[^]").unwrap().matches("anything"));
}

#[test]
fn test_unterminated_group_runs_to_end() {
    // A group with no closing bracket silently takes the rest of the
    // pattern as its options.
    let re = Regex::compile("[abc").unwrap();
    assert_eq!(re.0.len(), 1);
    match &re.0[0] {
        RegexElement::CharGroup { is_positive, options } => {
            assert!(*is_positive);
            assert_eq!(options, &vec!['a', 'b', 'c']);
        }
        other => panic!("expected a character group, got {other:?}"),
    }
    assert!(re.matches("b"));
    assert!(!re.matches("d"));
}

#[test]
fn test_end_anchor() {
    assert!(Regex::compile("dog$").unwrap().matches("hotdog"));
    assert!(!Regex::compile("dog$").unwrap().matches("dogs"));
    assert!(Regex::compile("^cat$").unwrap().matches("cat"));
    assert!(!Regex::compile("^cat$").unwrap().matches("cats"));
    assert!(Regex::compile("$").unwrap().matches(""));
}

#[test]
fn test_compile_errors() {
    assert_eq!(
        Regex::compile("").err().unwrap(),
        CompileError::EmptyPattern
    );
    assert_eq!(
        Regex::compile("\\q").err().unwrap(),
        CompileError::UnknownEscape('q')
    );
    assert_eq!(
        Regex::compile("ab\\").err().unwrap(),
        CompileError::DanglingEscape
    );
    // A compile failure aborts the whole operation whatever the input is.
    assert_eq!(match_pattern("queue", "\\q"), Err(CompileError::UnknownEscape('q')));
    assert_eq!(match_pattern("", "\\q"), Err(CompileError::UnknownEscape('q')));
}

#[test]
fn test_match_pattern() {
    assert_eq!(match_pattern("sandwich", "sand"), Ok(true));
    assert_eq!(match_pattern("sandwich", "witch"), Ok(false));
    assert_eq!(match_pattern("", "a*"), Ok(true));
    assert_eq!(match_pattern("b", "a+b"), Ok(false));
    assert_eq!(match_pattern("b", "a?b"), Ok(true));
    assert_eq!(match_pattern("caaats", "ca+t"), Ok(true));
}

#[test]
fn test_compiled_shape() {
    let re = Regex::compile("a+b").unwrap();
    assert_eq!(re.0.len(), 2);
    match &re.0[0] {
        RegexElement::Quantifier { min, max, content } => {
            assert_eq!(*min, 1);
            assert_eq!(*max, None);
            match content.as_ref() {
                RegexElement::Literal(c) => assert_eq!(*c, 'a'),
                other => panic!("expected a literal under the quantifier, got {other:?}"),
            }
        }
        other => panic!("expected a quantifier, got {other:?}"),
    }
    match &re.0[1] {
        RegexElement::Literal(c) => assert_eq!(*c, 'b'),
        other => panic!("expected a literal, got {other:?}"),
    }
}

#[test]
fn test_element_matcher() {
    let input = chars("aaab");
    // A greedy unbounded quantifier consumes every repetition it can.
    let star = RegexElement::Quantifier {
        min: 0,
        max: None,
        content: Box::new(RegexElement::Literal('a')),
    };
    assert_eq!(star.matches(&input, 0), Some(3));
    assert_eq!(star.matches(&input, 3), Some(0));
    // A bounded quantifier stops at its maximum.
    let opt = RegexElement::Quantifier {
        min: 1,
        max: Some(2),
        content: Box::new(RegexElement::Literal('a')),
    };
    assert_eq!(opt.matches(&input, 0), Some(2));
    assert_eq!(opt.matches(&input, 3), None);
    // Anchors are zero-width and position-bound.
    assert_eq!(RegexElement::StartAnchor.matches(&input, 0), Some(0));
    assert_eq!(RegexElement::StartAnchor.matches(&input, 1), None);
    assert_eq!(RegexElement::EndAnchor.matches(&input, 4), Some(0));
    assert_eq!(RegexElement::EndAnchor.matches(&input, 2), None);
    // The offset may equal the input's length.
    assert_eq!(RegexElement::Wildcard.matches(&input, 4), None);
    assert_eq!(RegexElement::Class(RegexClass::Digit).matches(&chars("x1"), 1), Some(1));
    assert_eq!(RegexElement::Class(RegexClass::Alphanumeric).matches(&chars("_"), 0), Some(1));
}

#[test]
fn test_greedy_quantifier_does_not_backtrack() {
    // The quantifier consumes the `a` greedily and never gives it back,
    // so the following literal `a` cannot match: a deliberate limitation.
    assert_eq!(match_pattern("a", "a?a"), Ok(false));
    assert_eq!(match_pattern("aa", "a?a"), Ok(true));
}

#[test]
fn test_search_tries_every_offset() {
    // Unanchored search succeeds at the first offset where the whole
    // sequence matches, scanning from the left.
    let re = Regex::compile("b").unwrap();
    let input = chars("aab");
    assert!(!re.try_match_from(&input, 0));
    assert!(!re.try_match_from(&input, 1));
    assert!(re.try_match_from(&input, 2));
    assert!(re.matches("aab"));
    assert!(!re.matches("aaa"));
    // An empty-input search still tries offset 0.
    assert!(Regex::compile("a*").unwrap().matches(""));
}

#[test]
fn test_anchored_search_only_offset_zero() {
    let re = Regex::compile("^log").unwrap();
    let input = chars("slog");
    assert!(!re.try_match_from(&input, 0));
    // `log` does occur at offset 1, but the anchor forbids it.
    assert!(!re.matches("slog"));
    assert!(re.matches("logs"));
}

#[test]
fn test_quantified_anchor_terminates() {
    // A zero-width element under a quantifier counts as one repetition and
    // consumes nothing; repetition then stops, since further repetitions
    // would change nothing.
    assert_eq!(match_pattern("a", "^*a"), Ok(true));
    assert_eq!(match_pattern("ba", "^*a"), Ok(true));
    assert_eq!(match_pattern("", "$*"), Ok(true));
    assert_eq!(match_pattern("x", "a$*"), Ok(false));
}

#[test]
fn test_compile_twice_behaves_identically() {
    let first = Regex::compile("[ab]+c?$").unwrap();
    let second = Regex::compile("[ab]+c?$").unwrap();
    for input in ["", "ab", "abc", "abcc", "xxab", "xxabc", "c"] {
        assert_eq!(first.matches(input), second.matches(input));
    }
}
