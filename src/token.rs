use vstd::prelude::*;

verus! {

/// Which quote character delimited a string literal.
#[derive(Debug, Clone, Copy, PartialEq, Eq, Structural)]
pub enum QuoteStyle {
    Single,
    Double,
}

/// One lexical unit: its kind and its source text (and, for a string
/// literal, the quote style it was written with).
#[derive(Debug, PartialEq, Eq)]
pub enum Token {
    Identifier(String),
    Number(String),
    Symbol(String),
    OpenParen(String),
    CloseParen(String),
    StringLiteral(String, QuoteStyle),
}

/// The mathematical value of a token: its kind with its text as characters.
pub enum TokenV {
    Identifier(Seq<char>),
    Number(Seq<char>),
    Symbol(Seq<char>),
    OpenParen(Seq<char>),
    CloseParen(Seq<char>),
    StringLiteral(Seq<char>, QuoteStyle),
}

impl TokenV {
    /// The textual value carried by every kind of token.
    pub open spec fn text(self) -> Seq<char> {
        match self {
            TokenV::Identifier(s) => s,
            TokenV::Number(s) => s,
            TokenV::Symbol(s) => s,
            TokenV::OpenParen(s) => s,
            TokenV::CloseParen(s) => s,
            TokenV::StringLiteral(s, _) => s,
        }
    }

    /// The name of the token's kind.
    pub open spec fn kind_name(self) -> Seq<char> {
        match self {
            TokenV::Identifier(_) => "Identifier"@,
            TokenV::Number(_) => "Number"@,
            TokenV::Symbol(_) => "Symbol"@,
            TokenV::OpenParen(_) => "OpenParen"@,
            TokenV::CloseParen(_) => "CloseParen"@,
            TokenV::StringLiteral(_, _) => "StringLiteral"@,
        }
    }
}

impl View for Token {
    type V = TokenV;

    open spec fn view(&self) -> TokenV {
        match self {
            Token::Identifier(s) => TokenV::Identifier(s@),
            Token::Number(s) => TokenV::Number(s@),
            Token::Symbol(s) => TokenV::Symbol(s@),
            Token::OpenParen(s) => TokenV::OpenParen(s@),
            Token::CloseParen(s) => TokenV::CloseParen(s@),
            Token::StringLiteral(s, q) => TokenV::StringLiteral(s@, *q),
        }
    }
}

/// The views of a sequence of tokens.
pub open spec fn tokens_view(ts: Seq<Token>) -> Seq<TokenV> {
    ts.map_values(|t: Token| t@)
}

/// The name of a quote style.
pub open spec fn quote_style_name(q: QuoteStyle) -> Seq<char> {
    match q {
        QuoteStyle::Single => "Single"@,
        QuoteStyle::Double => "Double"@,
    }
}

impl Clone for Token {
    fn clone(&self) -> (r: Self)
        ensures
            r == *self,
    {
        match self {
            Token::Identifier(s) => Token::Identifier(s.clone()),
            Token::Number(s) => Token::Number(s.clone()),
            Token::Symbol(s) => Token::Symbol(s.clone()),
            Token::OpenParen(s) => Token::OpenParen(s.clone()),
            Token::CloseParen(s) => Token::CloseParen(s.clone()),
            Token::StringLiteral(s, q) => Token::StringLiteral(s.clone(), *q),
        }
    }
}

impl Token {
    /// The name of this token's kind.
    pub fn enum_type(&mut self) -> (r: String)
        ensures
            *final(self) == *old(self),
            r@ == old(self)@.kind_name(),
    {
        match self {
            Token::Identifier(_) => String::from_str("Identifier"),
            Token::Number(_) => String::from_str("Number"),
            Token::Symbol(_) => String::from_str("Symbol"),
            Token::OpenParen(_) => String::from_str("OpenParen"),
            Token::CloseParen(_) => String::from_str("CloseParen"),
            Token::StringLiteral(_, _) => String::from_str("StringLiteral"),
        }
    }

    /// The token's textual value.
    pub fn value(&mut self) -> (r: String)
        ensures
            *final(self) == *old(self),
            r@ == old(self)@.text(),
    {
        match self {
            Token::Identifier(s) => s.clone(),
            Token::Number(s) => s.clone(),
            Token::Symbol(s) => s.clone(),
            Token::OpenParen(s) => s.clone(),
            Token::CloseParen(s) => s.clone(),
            Token::StringLiteral(s, _) => s.clone(),
        }
    }

    /// The name of the quote style of a string literal; `None` for every
    /// other kind of token.
    pub fn quote_style(&mut self) -> (r: Option<String>)
        ensures
            *final(self) == *old(self),
            match old(self)@ {
                TokenV::StringLiteral(_, q) => r is Some && r->0@ == quote_style_name(q),
                _ => r is None,
            },
    {
        match self {
            Token::StringLiteral(_, q) => match q {
                QuoteStyle::Single => Some(String::from_str("Single")),
                QuoteStyle::Double => Some(String::from_str("Double")),
            },
            _ => None,
        }
    }
}

} // verus!
