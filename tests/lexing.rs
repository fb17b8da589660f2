use token_rewriter::{tokenize, LexError, QuoteStyle, Token, Tokenizer};

fn id(s: &str) -> Token {
    Token::Identifier(s.to_string())
}

fn num(s: &str) -> Token {
    Token::Number(s.to_string())
}

fn sym(s: &str) -> Token {
    Token::Symbol(s.to_string())
}

fn open() -> Token {
    Token::OpenParen("(".to_string())
}

fn close() -> Token {
    Token::CloseParen(")".to_string())
}

#[test]
fn tokenizes_call_structure() {
    let tokens = tokenize("foo(1,2)").unwrap();
    assert_eq!(
        tokens,
        vec![id("foo"), open(), num("1"), sym(","), num("2"), close()]
    );
}

#[test]
fn unterminated_string_is_fatal() {
    assert_eq!(tokenize("'abc"), Err(LexError::UnterminatedStringLiteral));
    assert_eq!(tokenize("x \"abc"), Err(LexError::UnterminatedStringLiteral));
}

#[test]
fn next_token_reports_unterminated_string() {
    let mut t = Tokenizer::new("a 'abc");
    assert_eq!(t.next_token(), Ok(Some(id("a"))));
    assert_eq!(t.next_token(), Err(LexError::UnterminatedStringLiteral));
}

#[test]
fn empty_and_blank_input_give_no_tokens() {
    assert_eq!(tokenize("").unwrap(), vec![]);
    assert_eq!(tokenize(" \t\r\n ").unwrap(), vec![]);
    let mut t = Tokenizer::new("   ");
    assert_eq!(t.next_token(), Ok(None));
    assert_eq!(t.next_token(), Ok(None));
}

#[test]
fn symbols_are_maximal_munch() {
    assert_eq!(
        tokenize("a+-b").unwrap(),
        vec![id("a"), sym("+-"), id("b")]
    );
    assert_eq!(
        tokenize("+-(").unwrap(),
        vec![sym("+-"), open()]
    );
    assert_eq!(
        tokenize("== !=").unwrap(),
        vec![sym("=="), sym("!=")]
    );
}

#[test]
fn string_literals_keep_quote_style_and_content() {
    assert_eq!(
        tokenize("'a b' \"c'd\"").unwrap(),
        vec![
            Token::StringLiteral("a b".to_string(), QuoteStyle::Single),
            Token::StringLiteral("c'd".to_string(), QuoteStyle::Double),
        ]
    );
    assert_eq!(
        tokenize("''").unwrap(),
        vec![Token::StringLiteral(String::new(), QuoteStyle::Single)]
    );
}

#[test]
fn strings_have_no_escapes() {
    assert_eq!(
        tokenize(r"'a\' b").unwrap(),
        vec![
            Token::StringLiteral(r"a\".to_string(), QuoteStyle::Single),
            id("b"),
        ]
    );
}

#[test]
fn identifiers_and_numbers_take_unicode_classes() {
    assert_eq!(
        tokenize("foo_1é bar").unwrap(),
        vec![id("foo_1é"), id("bar")]
    );
    assert_eq!(tokenize("_x").unwrap(), vec![id("_x")]);
    assert_eq!(tokenize("12٣4").unwrap(), vec![num("12٣4")]);
    assert_eq!(tokenize("12ab").unwrap(), vec![num("12"), id("ab")]);
}

#[test]
fn number_stops_at_dot() {
    assert_eq!(
        tokenize("3.14").unwrap(),
        vec![num("3"), sym("."), num("14")]
    );
}

#[test]
fn non_ascii_letter_cannot_start_a_token() {
    assert_eq!(tokenize("é"), Err(LexError::UnexpectedCharacter('é')));
    assert_eq!(tokenize("a + é"), Err(LexError::UnexpectedCharacter('é')));
}

#[test]
fn unicode_blank_ends_symbol_and_cannot_be_passed() {
    let mut t = Tokenizer::new("+\u{a0}");
    assert_eq!(t.next_token(), Ok(Some(sym("+"))));
    assert_eq!(
        t.next_token(),
        Err(LexError::UnexpectedCharacter('\u{a0}'))
    );
    assert_eq!(
        tokenize("+\u{a0}"),
        Err(LexError::UnexpectedCharacter('\u{a0}'))
    );
}

#[test]
fn vertical_tab_is_not_skipped() {
    assert_eq!(
        tokenize("a\u{b}b"),
        Err(LexError::UnexpectedCharacter('\u{b}'))
    );
    let mut t = Tokenizer::new("\u{b}");
    assert_eq!(t.next_token(), Err(LexError::UnexpectedCharacter('\u{b}')));
}

#[test]
fn next_token_reports_unpassable_character() {
    let mut t = Tokenizer::new(" é");
    assert_eq!(t.next_token(), Err(LexError::UnexpectedCharacter('é')));
}

#[test]
fn next_token_walks_the_text() {
    let mut t = Tokenizer::new(" f ( x ) ");
    assert_eq!(t.next_token(), Ok(Some(id("f"))));
    assert_eq!(t.next_token(), Ok(Some(open())));
    assert_eq!(t.next_token(), Ok(Some(id("x"))));
    assert_eq!(t.next_token(), Ok(Some(close())));
    assert_eq!(t.next_token(), Ok(None));
}

#[test]
fn token_accessors() {
    let mut t = id("foo");
    assert_eq!(t.enum_type(), "Identifier");
    assert_eq!(t.value(), "foo");
    assert_eq!(t.quote_style(), None);

    let mut s = Token::StringLiteral("hi".to_string(), QuoteStyle::Double);
    assert_eq!(s.enum_type(), "StringLiteral");
    assert_eq!(s.value(), "hi");
    assert_eq!(s.quote_style(), Some("Double".to_string()));

    let mut q = Token::StringLiteral("x".to_string(), QuoteStyle::Single);
    assert_eq!(q.quote_style(), Some("Single".to_string()));

    assert_eq!(num("7").enum_type(), "Number");
    assert_eq!(sym("+").enum_type(), "Symbol");
    assert_eq!(open().enum_type(), "OpenParen");
    let mut c = close();
    assert_eq!(c.enum_type(), "CloseParen");
    assert_eq!(c.value(), ")");
    assert_eq!(c, close());
}
