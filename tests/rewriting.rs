use token_rewriter::{
    tokenize, Bindings, Pattern, QuoteStyle, QuoteStylePattern, Rewriter, Rule, Token,
};

fn id(s: &str) -> Token {
    Token::Identifier(s.to_string())
}

fn sym(s: &str) -> Token {
    Token::Symbol(s.to_string())
}

fn lit(s: &str, q: QuoteStyle) -> Token {
    Token::StringLiteral(s.to_string(), q)
}

fn rewrite_text(rules: Vec<Rule>, text: &str) -> Vec<Token> {
    Rewriter::new(rules).rewrite(tokenize(text).unwrap())
}

#[test]
fn empty_rule_set_is_identity() {
    let tokens = tokenize("foo(1, 'x') + \"y\"").unwrap();
    assert_eq!(Rewriter::new(vec![]).rewrite(tokens.clone()), tokens);
    assert_eq!(Rewriter::new(vec![]).rewrite(vec![]), vec![]);
}

#[test]
fn literal_substitution() {
    let rule = Rule::new(
        vec![Pattern::Identifier("foo".to_string())],
        vec![id("bar")],
    );
    assert_eq!(
        rewrite_text(vec![rule], "foo(1)"),
        tokenize("bar(1)").unwrap()
    );
}

#[test]
fn binding_substitution_swaps_captures() {
    let rule = Rule::new(
        vec![
            Pattern::AnyIdentifier("a".to_string()),
            Pattern::Symbol(",".to_string()),
            Pattern::AnyIdentifier("b".to_string()),
        ],
        vec![id("b"), sym(","), id("a")],
    );
    assert_eq!(rewrite_text(vec![rule], "x,y"), tokenize("y,x").unwrap());
}

#[test]
fn captured_string_keeps_its_quote_style() {
    let rule = Rule::new(
        vec![
            Pattern::Identifier("say".to_string()),
            Pattern::AnyString("s".to_string(), QuoteStylePattern::Any),
        ],
        vec![id("print"), lit("s", QuoteStyle::Double)],
    );
    assert_eq!(
        rewrite_text(vec![rule], "say 'hi'"),
        vec![id("print"), lit("hi", QuoteStyle::Single)]
    );
}

#[test]
fn captured_string_replaces_template_of_other_kind() {
    let rule = Rule::new(
        vec![Pattern::AnyString("s".to_string(), QuoteStylePattern::Double)],
        vec![id("s"), sym("s")],
    );
    assert_eq!(
        rewrite_text(vec![rule], "\"a\""),
        vec![lit("a", QuoteStyle::Double), lit("a", QuoteStyle::Double)]
    );
}

#[test]
fn overlapping_matches_are_applied_in_order() {
    // Both windows (a,b) and (b,c) match; the second is applied at its
    // shifted position with the captures it had before any splice.
    let rule = Rule::new(
        vec![
            Pattern::AnyIdentifier("x".to_string()),
            Pattern::AnyIdentifier("y".to_string()),
        ],
        vec![id("y"), id("x")],
    );
    assert_eq!(
        rewrite_text(vec![rule], "a b c"),
        vec![id("b"), id("c"), id("b")]
    );
}

#[test]
fn overlapping_matches_with_shrinking_replacement() {
    let rule = Rule::new(vec![Pattern::Any, Pattern::Any], vec![id("z")]);
    assert_eq!(rewrite_text(vec![rule], "a b c"), vec![id("z")]);
}

#[test]
fn overlapping_match_that_no_longer_fits_is_skipped() {
    let rule = Rule::new(
        vec![
            Pattern::AnyIdentifier("x".to_string()),
            Pattern::AnyIdentifier("y".to_string()),
        ],
        vec![],
    );
    assert_eq!(rewrite_text(vec![rule], "a b c"), vec![id("c")]);
}

#[test]
fn overlapping_matches_with_growing_replacement() {
    let rule = Rule::new(
        vec![Pattern::AnyIdentifier("x".to_string()), Pattern::Any],
        vec![id("x"), sym("+"), id("_")],
    );
    assert_eq!(
        rewrite_text(vec![rule], "a b c"),
        vec![id("a"), sym("+"), id("b"), sym("+"), id("c")]
    );
}

#[test]
fn rules_apply_in_order_one_pass_each() {
    let first = Rule::new(vec![Pattern::Identifier("a".to_string())], vec![id("b")]);
    let second = Rule::new(vec![Pattern::Identifier("b".to_string())], vec![id("c")]);
    assert_eq!(
        rewrite_text(vec![first, second], "a b"),
        vec![id("c"), id("c")]
    );

    let first = Rule::new(vec![Pattern::Identifier("b".to_string())], vec![id("c")]);
    let second = Rule::new(vec![Pattern::Identifier("a".to_string())], vec![id("b")]);
    assert_eq!(
        rewrite_text(vec![first, second], "a b"),
        vec![id("b"), id("c")]
    );
}

#[test]
fn a_rule_does_not_rescan_its_own_output() {
    let rule = Rule::new(
        vec![Pattern::Identifier("a".to_string())],
        vec![id("a"), id("a")],
    );
    assert_eq!(
        rewrite_text(vec![rule], "a"),
        vec![id("a"), id("a")]
    );
}

#[test]
fn paren_wildcard_matches_either_paren_text() {
    let rule = Rule::new(
        vec![
            Pattern::OpenParen("*".to_string()),
            Pattern::CloseParen("*".to_string()),
        ],
        vec![id("unit")],
    );
    assert_eq!(
        rewrite_text(vec![rule], "f()"),
        vec![id("f"), id("unit")]
    );
    let literal = Rule::new(
        vec![Pattern::OpenParen("(".to_string()), Pattern::CloseParen("]".to_string())],
        vec![id("unit")],
    );
    assert_eq!(
        rewrite_text(vec![literal], "f()"),
        tokenize("f()").unwrap()
    );
}

#[test]
fn wildcard_text_is_literal_for_other_kinds() {
    let rule = Rule::new(vec![Pattern::Identifier("*".to_string())], vec![id("z")]);
    assert_eq!(
        rewrite_text(vec![rule], "a * b"),
        vec![id("a"), sym("*"), id("b")]
    );
    let rule = Rule::new(vec![Pattern::Symbol("*".to_string())], vec![sym("x")]);
    assert_eq!(
        rewrite_text(vec![rule], "a * b"),
        vec![id("a"), sym("x"), id("b")]
    );
}

#[test]
fn string_pattern_checks_quote_style() {
    let single = Rule::new(
        vec![Pattern::String("a".to_string(), QuoteStylePattern::Single)],
        vec![id("hit")],
    );
    assert_eq!(
        rewrite_text(vec![single], "'a' \"a\""),
        vec![id("hit"), lit("a", QuoteStyle::Double)]
    );
    let any = Rule::new(
        vec![Pattern::String("a".to_string(), QuoteStylePattern::Any)],
        vec![id("hit")],
    );
    assert_eq!(
        rewrite_text(vec![any], "'a' \"a\" 'b'"),
        vec![id("hit"), id("hit"), lit("b", QuoteStyle::Single)]
    );
    let double = Rule::new(
        vec![Pattern::AnyString("s".to_string(), QuoteStylePattern::Double)],
        vec![id("hit")],
    );
    assert_eq!(
        rewrite_text(vec![double], "'a' \"b\""),
        vec![lit("a", QuoteStyle::Single), id("hit")]
    );
}

#[test]
fn any_binds_underscore() {
    let rule = Rule::new(
        vec![Pattern::Identifier("neg".to_string()), Pattern::Any],
        vec![sym("-"), id("_")],
    );
    assert_eq!(
        rewrite_text(vec![rule], "neg 5 neg x"),
        vec![sym("-"), Token::Number("5".to_string()), sym("-"), id("x")]
    );
}

#[test]
fn parens_in_template_are_never_substituted() {
    let rule = Rule::new(
        vec![Pattern::AnyIdentifier("(".to_string())],
        vec![Token::OpenParen("(".to_string()), id("(")],
    );
    assert_eq!(
        rewrite_text(vec![rule], "a"),
        vec![Token::OpenParen("(".to_string()), id("a")]
    );
}

#[test]
fn later_capture_of_a_name_wins() {
    let rule = Rule::new(
        vec![
            Pattern::AnyIdentifier("v".to_string()),
            Pattern::AnyIdentifier("v".to_string()),
        ],
        vec![id("v")],
    );
    assert_eq!(rewrite_text(vec![rule], "p q"), vec![id("q")]);
}

#[test]
fn empty_pattern_matches_at_every_position() {
    let rule = Rule::new(vec![], vec![sym(";")]);
    assert_eq!(
        rewrite_text(vec![rule], "a b"),
        vec![sym(";"), id("a"), sym(";"), id("b"), sym(";")]
    );
}

#[test]
fn pattern_longer_than_buffer_never_matches() {
    let rule = Rule::new(
        vec![Pattern::Any, Pattern::Any, Pattern::Any],
        vec![id("z")],
    );
    let tokens = tokenize("a b").unwrap();
    assert!(rule.matches(&tokens).is_empty());
    assert_eq!(Rewriter::new(vec![rule]).rewrite(tokens.clone()), tokens);
}

#[test]
fn matches_lists_every_window_in_order() {
    let rule = Rule::new(
        vec![Pattern::AnyIdentifier("x".to_string()), Pattern::Any],
        vec![],
    );
    let tokens = tokenize("a b + c").unwrap();
    let found = rule.matches(&tokens);
    let starts: Vec<usize> = found.iter().map(|(_, i)| *i).collect();
    assert_eq!(starts, vec![0, 1]);
    assert_eq!(found[0].0.get(&"x".to_string()), Some(&id("a")));
    assert_eq!(found[0].0.get(&"_".to_string()), Some(&id("b")));
    assert_eq!(found[1].0.get(&"x".to_string()), Some(&id("b")));
    assert_eq!(found[1].0.get(&"_".to_string()), Some(&sym("+")));
    assert_eq!(rule.pattern_len(), 2);
}

#[test]
fn apply_fills_template_from_bindings() {
    let rule = Rule::new(
        vec![],
        vec![id("x"), Token::Number("x".to_string()), id("y"), Token::CloseParen("x".to_string())],
    );
    let mut b = Bindings::new();
    b.insert("x".to_string(), lit("v", QuoteStyle::Single));
    assert_eq!(
        rule.apply(&b),
        vec![
            lit("v", QuoteStyle::Single),
            lit("v", QuoteStyle::Single),
            id("y"),
            Token::CloseParen("x".to_string()),
        ]
    );
}

#[test]
fn bindings_insert_replaces_and_get_finds() {
    let mut b = Bindings::new();
    assert_eq!(b.get(&"a".to_string()), None);
    b.insert("a".to_string(), id("one"));
    b.insert("b".to_string(), id("two"));
    b.insert("a".to_string(), id("three"));
    assert_eq!(b.get(&"a".to_string()), Some(&id("three")));
    assert_eq!(b.get(&"b".to_string()), Some(&id("two")));
    assert_eq!(b.get(&"c".to_string()), None);
}

#[test]
fn pattern_accepts_and_capture_name() {
    assert!(Pattern::Number("1".to_string()).accepts(&Token::Number("1".to_string())));
    assert!(!Pattern::Number("1".to_string()).accepts(&Token::Number("2".to_string())));
    assert!(!Pattern::Number("1".to_string()).accepts(&id("1")));
    assert!(Pattern::AnyNumber("n".to_string()).accepts(&Token::Number("9".to_string())));
    assert!(!Pattern::AnyIdentifier("n".to_string()).accepts(&Token::Number("9".to_string())));
    assert_eq!(Pattern::Any.capture_name(), Some("_".to_string()));
    assert_eq!(
        Pattern::AnyString("s".to_string(), QuoteStylePattern::Any).capture_name(),
        Some("s".to_string())
    );
    assert_eq!(Pattern::Symbol("+".to_string()).capture_name(), None);
}
