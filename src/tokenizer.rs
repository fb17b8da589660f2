use vstd::prelude::*;

use crate::text::{
    is_alphanumeric, is_numeric, is_whitespace, push_char, unicode_alphanumeric, unicode_numeric,
    unicode_whitespace,
};
use crate::token::{QuoteStyle, Token, TokenV, tokens_view};

verus! {

/// Why lexing could not produce a token sequence.
#[derive(Debug, Clone, Copy, PartialEq, Eq, Structural)]
pub enum LexError {
    /// A quote was opened and the input ended before it was closed.
    UnterminatedStringLiteral,
    /// A character that starts no token and that no symbol may hold (a
    /// non-ASCII letter or digit, or a blank other than space, tab, newline
    /// and carriage return): the scanner cannot move past it.
    UnexpectedCharacter(char),
}

/// The classes of characters that the scanner consumes in maximal runs.
pub enum CharRun {
    /// The blanks skipped between tokens.
    Blank,
    /// The characters of a number.
    Numeric,
    /// The characters of an identifier.
    Word,
    /// The characters of a symbol.
    Punct,
    /// The content of a string literal closed by the given quote.
    QuotedBy(char),
}

/// Whether a character is an ASCII digit.
pub open spec fn ascii_digit(c: char) -> bool {
    '0' <= c <= '9'
}

/// Whether a character is an ASCII letter or digit.
pub open spec fn ascii_alphanumeric(c: char) -> bool {
    ('a' <= c <= 'z') || ('A' <= c <= 'Z') || ascii_digit(c)
}

/// Whether `char::is_numeric` holds of a character, written out for ASCII.
pub open spec fn numeric(c: char) -> bool {
    if c <= '\u{7f}' {
        ascii_digit(c)
    } else {
        unicode_numeric(c)
    }
}

/// Whether `char::is_alphanumeric` holds of a character, written out for
/// ASCII.
pub open spec fn alphanumeric(c: char) -> bool {
    if c <= '\u{7f}' {
        ascii_alphanumeric(c)
    } else {
        unicode_alphanumeric(c)
    }
}

/// Whether a character extends a run of the given class.
pub open spec fn continues(run: CharRun, c: char) -> bool {
    match run {
        CharRun::Blank => c == ' ' || c == '\t' || c == '\n' || c == '\r',
        CharRun::Numeric => numeric(c),
        CharRun::Word => alphanumeric(c) || c == '_',
        CharRun::Punct => !(alphanumeric(c) || unicode_whitespace(c) || c == '(' || c == ')' || c
            == '\'' || c == '"'),
        CharRun::QuotedBy(q) => c != q,
    }
}

/// The end of the longest run of the given class that starts at `pos`.
pub open spec fn run_end(s: Seq<char>, pos: int, run: CharRun) -> int
    decreases s.len() - pos,
{
    if 0 <= pos < s.len() && continues(run, s[pos]) {
        run_end(s, pos + 1, run)
    } else {
        pos
    }
}

/// Whether a character starts an identifier.
pub open spec fn starts_identifier(c: char) -> bool {
    ('a' <= c <= 'z') || ('A' <= c <= 'Z') || c == '_'
}

/// The quote style that a quote character opens.
pub open spec fn style_of_quote(c: char) -> QuoteStyle {
    if c == '\'' {
        QuoteStyle::Single
    } else {
        QuoteStyle::Double
    }
}

/// One step of the scanner from position `pos` of `s`: what it produces and
/// the position after it. A character that starts no token and that no
/// symbol may hold (a non-ASCII letter or digit, or a blank other than the
/// four skipped ones) stops the scan with `UnexpectedCharacter`.
pub open spec fn lex_step(s: Seq<char>, pos: int) -> (Result<Option<TokenV>, LexError>, int) {
    let p = run_end(s, pos, CharRun::Blank);
    if p >= s.len() {
        (Ok(None), p)
    } else {
        let c = s[p];
        if c == '(' {
            (Ok(Some(TokenV::OpenParen(seq!['(']))), p + 1)
        } else if c == ')' {
            (Ok(Some(TokenV::CloseParen(seq![')']))), p + 1)
        } else if '0' <= c <= '9' {
            let e = run_end(s, p, CharRun::Numeric);
            (Ok(Some(TokenV::Number(s.subrange(p, e)))), e)
        } else if starts_identifier(c) {
            let e = run_end(s, p, CharRun::Word);
            (Ok(Some(TokenV::Identifier(s.subrange(p, e)))), e)
        } else if c == '\'' || c == '"' {
            let e = run_end(s, p + 1, CharRun::QuotedBy(c));
            if e >= s.len() {
                (Err(LexError::UnterminatedStringLiteral), e)
            } else {
                (Ok(Some(TokenV::StringLiteral(s.subrange(p + 1, e), style_of_quote(c)))), e + 1)
            }
        } else {
            let e = run_end(s, p, CharRun::Punct);
            if e == p {
                (Err(LexError::UnexpectedCharacter(c)), p)
            } else {
                (Ok(Some(TokenV::Symbol(s.subrange(p, e)))), e)
            }
        }
    }
}

/// The whole token sequence of `s` from position `pos`, scanning to the end.
pub open spec fn lex_from(s: Seq<char>, pos: int) -> Result<Seq<TokenV>, LexError>
    decreases s.len() - pos,
{
    let (r, next) = lex_step(s, pos);
    match r {
        Err(e) => Err(e),
        Ok(None) => Ok(Seq::empty()),
        Ok(Some(t)) => {
            if pos < next <= s.len() {
                match lex_from(s, next) {
                    Ok(rest) => Ok(seq![t] + rest),
                    Err(e) => Err(e),
                }
            } else {
                Ok(seq![t])
            }
        },
    }
}

/// The token sequence of a whole text.
pub open spec fn lex(s: Seq<char>) -> Result<Seq<TokenV>, LexError> {
    lex_from(s, 0)
}

/// `r` with `acc` put in front of its tokens.
pub open spec fn prepend(acc: Seq<TokenV>, r: Result<Seq<TokenV>, LexError>) -> Result<
    Seq<TokenV>,
    LexError,
> {
    match r {
        Ok(rest) => Ok(acc + rest),
        Err(e) => Err(e),
    }
}

/// The view of a token sequence or of the error in its place.
pub open spec fn lexed_view(r: Result<Vec<Token>, LexError>) -> Result<Seq<TokenV>, LexError> {
    match r {
        Ok(ts) => Ok(tokens_view(ts@)),
        Err(e) => Err(e),
    }
}

/// The view of what one call of `next_token` returns.
pub open spec fn step_view(r: Result<Option<Token>, LexError>) -> Result<Option<TokenV>, LexError> {
    match r {
        Ok(Some(t)) => Ok(Some(t@)),
        Ok(None) => Ok(None),
        Err(e) => Err(e),
    }
}

/// The shape every scanned token has: identifiers and numbers are not
/// empty, and a paren token's text is the paren itself.
pub open spec fn lexeme_shape(t: TokenV) -> bool {
    match t {
        TokenV::Identifier(text) => text.len() > 0,
        TokenV::Number(text) => text.len() > 0,
        TokenV::OpenParen(text) => text == seq!['('],
        TokenV::CloseParen(text) => text == seq![')'],
        _ => true,
    }
}

/// A run ends within the text, after its start, and every character before
/// its end extends it.
pub proof fn lemma_run_end(s: Seq<char>, pos: int, run: CharRun)
    requires
        0 <= pos <= s.len(),
    ensures
        pos <= run_end(s, pos, run) <= s.len(),
        forall|k: int| pos <= k < run_end(s, pos, run) ==> continues(run, #[trigger] s[k]),
        run_end(s, pos, run) < s.len() ==> !continues(run, s[run_end(s, pos, run)]),
    decreases s.len() - pos,
{
    if pos < s.len() && continues(run, s[pos]) {
        lemma_run_end(s, pos + 1, run);
    }
}

/// A step ends within the text, a step that yields a token moves forward,
/// and every token it yields has the shape of a scanned token.
pub proof fn lemma_step_bounds(s: Seq<char>, pos: int)
    requires
        0 <= pos <= s.len(),
    ensures
        pos <= lex_step(s, pos).1 <= s.len(),
        lex_step(s, pos).0 is Ok && lex_step(s, pos).0->Ok_0 is Some ==> pos < lex_step(s, pos).1,
        lex_step(s, pos).0 matches Ok(Some(t)) ==> lexeme_shape(t),
{
    let p = run_end(s, pos, CharRun::Blank);
    lemma_run_end(s, pos, CharRun::Blank);
    if p < s.len() {
        let c = s[p];
        lemma_run_end(s, p, CharRun::Numeric);
        lemma_run_end(s, p, CharRun::Word);
        lemma_run_end(s, p, CharRun::Punct);
        lemma_run_end(s, p + 1, CharRun::QuotedBy(c));
    }
}

/// Whether a character ends a symbol.
fn ends_symbol(c: char) -> (r: bool)
    ensures
        r == !continues(CharRun::Punct, c),
{
    is_alphanumeric(c) || is_whitespace(c) || c == '(' || c == ')' || c == '\'' || c == '"'
}

/// A forward-only scanner over a text.
pub struct Tokenizer {
    input: Vec<char>,
    pos: usize,
}

impl Tokenizer {
    /// The characters of the text being scanned.
    pub closed spec fn text(&self) -> Seq<char> {
        self.input@
    }

    /// The scanner's position in the text.
    pub closed spec fn position(&self) -> int {
        self.pos as int
    }

    /// A scanner at the start of `input`.
    pub fn new(input: &str) -> (r: Self)
        ensures
            r.text() == input@,
            r.position() == 0,
            0 <= r.position() <= r.text().len(),
    {
        let mut chars: Vec<char> = Vec::new();
        for c in it: input.chars()
            invariant
                chars@ == it.seq().take(it.index() as int),
                it.seq() == input@,
        {
            chars.push(c);
        }
        proof {
            assert(chars@ =~= input@);
        }
        Tokenizer { input: chars, pos: 0 }
    }

    /// Produces the next token, `None` at the end of the text, or an error: a
    /// string literal that is never closed, or a character that starts no
    /// token and that no symbol may hold. Each token it yields moves the
    /// scanner forward, so draining it ends.
    pub fn next_token(&mut self) -> (r: Result<Option<Token>, LexError>)
        requires
            old(self).position() <= old(self).text().len(),
        ensures
            0 <= final(self).position() <= final(self).text().len(),
            r matches Ok(Some(t)) ==> lexeme_shape(t@),
            r matches Ok(Some(_)) ==> old(self).position() < final(self).position(),
            final(self).text() == old(self).text(),
            lex_step(old(self).text(), old(self).position()) == (step_view(r), final(self).position()),
    {
        let ghost s = self.input@;
        let ghost start = self.pos as int;
        proof {
            lemma_step_bounds(s, start);
        }
        while self.pos < self.input.len()
            invariant
                self.input@ == s,
                s == old(self).text(),
                0 <= start <= self.pos <= s.len(),
                start == old(self).position(),
                lex_step(s, start).0 matches Ok(Some(t)) ==> lexeme_shape(t),
                lex_step(s, start).0 is Ok && lex_step(s, start).0->Ok_0 is Some ==> start < lex_step(
                    s,
                    start,
                ).1,
                run_end(s, start, CharRun::Blank) == run_end(s, self.pos as int, CharRun::Blank),
            decreases s.len() - self.pos,
        {
            let ch = self.input[self.pos];
            if ch == ' ' || ch == '\t' || ch == '\n' || ch == '\r' {
                self.pos = self.pos + 1;
            } else if ch == '(' {
                self.pos = self.pos + 1;
                proof {
                    reveal_strlit("(");
                    assert("("@ =~= seq!['(']);
                    assert(run_end(s, self.pos - 1, CharRun::Blank) == self.pos - 1);
                }
                return Ok(Some(Token::OpenParen(String::from_str("("))));
            } else if ch == ')' {
                self.pos = self.pos + 1;
                proof {
                    reveal_strlit(")");
                    assert(")"@ =~= seq![')']);
                    assert(run_end(s, self.pos - 1, CharRun::Blank) == self.pos - 1);
                }
                return Ok(Some(Token::CloseParen(String::from_str(")"))));
            } else if '0' <= ch && ch <= '9' {
                return Ok(Some(self.consume_number()));
            } else if ('a' <= ch && ch <= 'z') || ('A' <= ch && ch <= 'Z') || ch == '_' {
                return Ok(Some(self.consume_identifier()));
            } else if ch == '\'' {
                return match self.consume_string(QuoteStyle::Single) {
                    Ok(t) => Ok(Some(t)),
                    Err(e) => Err(e),
                };
            } else if ch == '"' {
                return match self.consume_string(QuoteStyle::Double) {
                    Ok(t) => Ok(Some(t)),
                    Err(e) => Err(e),
                };
            } else if ends_symbol(ch) {
                return Err(LexError::UnexpectedCharacter(ch));
            } else {
                proof {
                    lemma_run_end(s, self.pos + 1, CharRun::Punct);
                }
                return Ok(Some(self.consume_symbol()));
            }
        }
        Ok(None)
    }

    fn consume_number(&mut self) -> (r: Token)
        requires
            old(self).position() <= old(self).text().len(),
        ensures
            final(self).text() == old(self).text(),
            final(self).position() == run_end(old(self).text(), old(self).position(), CharRun::Numeric),
            final(self).position() <= final(self).text().len(),
            r@ == TokenV::Number(old(self).text().subrange(old(self).position(), final(self).position())),
    {
        let ghost s = self.input@;
        let ghost start = self.pos as int;
        let mut number = String::new();
        while self.pos < self.input.len() && is_numeric(self.input[self.pos])
            invariant
                self.input@ == s,
                s == old(self).text(),
                0 <= start <= self.pos <= s.len(),
                run_end(s, start, CharRun::Numeric) == run_end(s, self.pos as int, CharRun::Numeric),
                number@ == s.subrange(start, self.pos as int),
            decreases s.len() - self.pos,
        {
            push_char(&mut number, self.input[self.pos]);
            self.pos = self.pos + 1;
            proof {
                assert(number@ =~= s.subrange(start, self.pos as int));
            }
        }
        Token::Number(number)
    }

    fn consume_identifier(&mut self) -> (r: Token)
        requires
            old(self).position() <= old(self).text().len(),
        ensures
            final(self).text() == old(self).text(),
            final(self).position() == run_end(old(self).text(), old(self).position(), CharRun::Word),
            final(self).position() <= final(self).text().len(),
            r@ == TokenV::Identifier(old(self).text().subrange(old(self).position(), final(self).position())),
    {
        let ghost s = self.input@;
        let ghost start = self.pos as int;
        let mut identifier = String::new();
        while self.pos < self.input.len() && (is_alphanumeric(self.input[self.pos])
            || self.input[self.pos] == '_')
            invariant
                self.input@ == s,
                s == old(self).text(),
                0 <= start <= self.pos <= s.len(),
                run_end(s, start, CharRun::Word) == run_end(s, self.pos as int, CharRun::Word),
                identifier@ == s.subrange(start, self.pos as int),
            decreases s.len() - self.pos,
        {
            push_char(&mut identifier, self.input[self.pos]);
            self.pos = self.pos + 1;
            proof {
                assert(identifier@ =~= s.subrange(start, self.pos as int));
            }
        }
        Token::Identifier(identifier)
    }

    fn consume_string(&mut self, quote_style: QuoteStyle) -> (r: Result<Token, LexError>)
        requires
            old(self).position() < old(self).text().len(),
            old(self).text()[old(self).position()] == '\'' || old(self).text()[old(self).position()] == '"',
            quote_style == style_of_quote(old(self).text()[old(self).position()]),
        ensures
            final(self).text() == old(self).text(),
            final(self).position() <= final(self).text().len(),
            ({
                let s = old(self).text();
                let p = old(self).position();
                let e = run_end(s, p + 1, CharRun::QuotedBy(s[p]));
                if e >= s.len() {
                    r == Err::<Token, LexError>(LexError::UnterminatedStringLiteral)
                        && final(self).position() == e
                } else {
                    r matches Ok(t) && t@ == TokenV::StringLiteral(s.subrange(p + 1, e), quote_style)
                        && final(self).position() == e + 1
                }
            }),
    {
        let ghost s = self.input@;
        let quote = self.input[self.pos];
        assert(self.pos < self.input.len());
        self.pos = self.pos + 1;
        let ghost start = self.pos as int;
        let mut string_content = String::new();
        while self.pos < self.input.len()
            invariant
                self.input@ == s,
                s == old(self).text(),
                0 <= start <= self.pos <= s.len(),
                start == old(self).position() + 1,
                quote == s[start - 1],
                run_end(s, start, CharRun::QuotedBy(quote)) == run_end(
                    s,
                    self.pos as int,
                    CharRun::QuotedBy(quote),
                ),
                string_content@ == s.subrange(start, self.pos as int),
            decreases s.len() - self.pos,
        {
            let ch = self.input[self.pos];
            if ch == quote {
                self.pos = self.pos + 1;
                return Ok(Token::StringLiteral(string_content, quote_style));
            }
            push_char(&mut string_content, ch);
            self.pos = self.pos + 1;
            proof {
                assert(string_content@ =~= s.subrange(start, self.pos as int));
            }
        }
        Err(LexError::UnterminatedStringLiteral)
    }

    fn consume_symbol(&mut self) -> (r: Token)
        requires
            old(self).position() <= old(self).text().len(),
        ensures
            final(self).text() == old(self).text(),
            final(self).position() == run_end(old(self).text(), old(self).position(), CharRun::Punct),
            final(self).position() <= final(self).text().len(),
            r@ == TokenV::Symbol(old(self).text().subrange(old(self).position(), final(self).position())),
    {
        let ghost s = self.input@;
        let ghost start = self.pos as int;
        let mut symbol = String::new();
        while self.pos < self.input.len() && !ends_symbol(self.input[self.pos])
            invariant
                self.input@ == s,
                s == old(self).text(),
                0 <= start <= self.pos <= s.len(),
                run_end(s, start, CharRun::Punct) == run_end(s, self.pos as int, CharRun::Punct),
                symbol@ == s.subrange(start, self.pos as int),
            decreases s.len() - self.pos,
        {
            push_char(&mut symbol, self.input[self.pos]);
            self.pos = self.pos + 1;
            proof {
                assert(symbol@ =~= s.subrange(start, self.pos as int));
            }
        }
        Token::Symbol(symbol)
    }
}

/// Lexes a whole text into its token sequence, or the error that stops it.
pub fn tokenize(input: &str) -> (r: Result<Vec<Token>, LexError>)
    ensures
        lexed_view(r) == lex(input@),
        r matches Ok(ts) ==> forall|i: int| 0 <= i < ts@.len() ==> lexeme_shape(#[trigger] ts@[i]@),
{
    let mut tokenizer = Tokenizer::new(input);
    let mut tokens: Vec<Token> = Vec::new();
    loop
        invariant
            tokenizer.text() == input@,
            0 <= tokenizer.position() <= input@.len(),
            lex(input@) == prepend(tokens_view(tokens@), lex_from(input@, tokenizer.position())),
            forall|i: int| 0 <= i < tokens@.len() ==> lexeme_shape(#[trigger] tokens@[i]@),
        decreases input@.len() - tokenizer.position(),
    {
        let ghost before = tokenizer.position();
        proof {
            lemma_step_bounds(input@, before);
        }
        match tokenizer.next_token() {
            Err(e) => {
                return Err(e);
            },
            Ok(None) => {
                proof {
                    assert(tokens_view(tokens@) + Seq::empty() =~= tokens_view(tokens@));
                }
                return Ok(tokens);
            },
            Ok(Some(t)) => {
                let ghost acc = tokens_view(tokens@);
                tokens.push(t);
                proof {
                    let rest = lex_from(input@, tokenizer.position());
                    assert(tokens_view(tokens@) =~= acc.push(t@));
                    if rest is Ok {
                        assert(acc + (seq![t@] + rest->Ok_0) =~= acc.push(t@) + rest->Ok_0);
                    }
                }
            },
        }
    }
}

} // verus!
