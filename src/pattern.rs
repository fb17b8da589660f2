use vstd::prelude::*;

use crate::token::{QuoteStyle, Token, TokenV};

verus! {

/// Which quote styles a string-matching pattern accepts.
#[derive(Debug, Clone, Copy, PartialEq, Eq, Structural)]
pub enum QuoteStylePattern {
    Single,
    Double,
    Any,
}

/// One position of a rule's left-hand side.
#[derive(Debug, PartialEq, Eq)]
pub enum Pattern {
    /// Matches a specific identifier.
    Identifier(String),
    /// Matches a specific number.
    Number(String),
    /// Matches any identifier and binds it.
    AnyIdentifier(String),
    /// Matches any number and binds it.
    AnyNumber(String),
    /// Matches a specific symbol.
    Symbol(String),
    /// Matches an open parenthesis; the text `*` matches any.
    OpenParen(String),
    /// Matches a close parenthesis; the text `*` matches any.
    CloseParen(String),
    /// Matches a specific string literal.
    String(String, QuoteStylePattern),
    /// Matches any string literal and binds it.
    AnyString(String, QuoteStylePattern),
    /// Matches any single token and binds it under `_`.
    Any,
}

/// The mathematical value of a pattern.
pub enum PatternV {
    Identifier(Seq<char>),
    Number(Seq<char>),
    AnyIdentifier(Seq<char>),
    AnyNumber(Seq<char>),
    Symbol(Seq<char>),
    OpenParen(Seq<char>),
    CloseParen(Seq<char>),
    String(Seq<char>, QuoteStylePattern),
    AnyString(Seq<char>, QuoteStylePattern),
    Any,
}

impl View for Pattern {
    type V = PatternV;

    open spec fn view(&self) -> PatternV {
        match self {
            Pattern::Identifier(s) => PatternV::Identifier(s@),
            Pattern::Number(s) => PatternV::Number(s@),
            Pattern::AnyIdentifier(s) => PatternV::AnyIdentifier(s@),
            Pattern::AnyNumber(s) => PatternV::AnyNumber(s@),
            Pattern::Symbol(s) => PatternV::Symbol(s@),
            Pattern::OpenParen(s) => PatternV::OpenParen(s@),
            Pattern::CloseParen(s) => PatternV::CloseParen(s@),
            Pattern::String(s, q) => PatternV::String(s@, *q),
            Pattern::AnyString(s, q) => PatternV::AnyString(s@, *q),
            Pattern::Any => PatternV::Any,
        }
    }
}

/// The views of a sequence of patterns.
pub open spec fn patterns_view(ps: Seq<Pattern>) -> Seq<PatternV> {
    ps.map_values(|p: Pattern| p@)
}

/// The text that lets a paren pattern match either paren token.
pub open spec fn wildcard_text() -> Seq<char> {
    seq!['*']
}

/// The capture name under which `Any` binds its token.
pub open spec fn any_name() -> Seq<char> {
    seq!['_']
}

/// Whether a quote-style constraint admits a quote style.
pub open spec fn style_admits(sp: QuoteStylePattern, q: QuoteStyle) -> bool {
    match sp {
        QuoteStylePattern::Any => true,
        QuoteStylePattern::Single => q == QuoteStyle::Single,
        QuoteStylePattern::Double => q == QuoteStyle::Double,
    }
}

/// Whether a pattern position matches a token.
pub open spec fn pattern_matches(p: PatternV, t: TokenV) -> bool {
    match (p, t) {
        (PatternV::Identifier(a), TokenV::Identifier(b)) => a == b,
        (PatternV::Number(a), TokenV::Number(b)) => a == b,
        (PatternV::Symbol(a), TokenV::Symbol(b)) => a == b,
        (PatternV::OpenParen(a), TokenV::OpenParen(b)) => a == b || a == wildcard_text(),
        (PatternV::CloseParen(a), TokenV::CloseParen(b)) => a == b || a == wildcard_text(),
        (PatternV::String(a, sp), TokenV::StringLiteral(b, q)) => a == b && style_admits(sp, q),
        (PatternV::AnyIdentifier(_), TokenV::Identifier(_)) => true,
        (PatternV::AnyNumber(_), TokenV::Number(_)) => true,
        (PatternV::AnyString(_, sp), TokenV::StringLiteral(_, q)) => style_admits(sp, q),
        (PatternV::Any, _) => true,
        _ => false,
    }
}

/// The capture name of a binding pattern; `None` for a literal one.
pub open spec fn binder(p: PatternV) -> Option<Seq<char>> {
    match p {
        PatternV::AnyIdentifier(n) => Some(n),
        PatternV::AnyNumber(n) => Some(n),
        PatternV::AnyString(n, _) => Some(n),
        PatternV::Any => Some(any_name()),
        _ => None,
    }
}

impl Clone for Pattern {
    fn clone(&self) -> (r: Self)
        ensures
            r == *self,
    {
        match self {
            Pattern::Identifier(s) => Pattern::Identifier(s.clone()),
            Pattern::Number(s) => Pattern::Number(s.clone()),
            Pattern::AnyIdentifier(s) => Pattern::AnyIdentifier(s.clone()),
            Pattern::AnyNumber(s) => Pattern::AnyNumber(s.clone()),
            Pattern::Symbol(s) => Pattern::Symbol(s.clone()),
            Pattern::OpenParen(s) => Pattern::OpenParen(s.clone()),
            Pattern::CloseParen(s) => Pattern::CloseParen(s.clone()),
            Pattern::String(s, q) => Pattern::String(s.clone(), *q),
            Pattern::AnyString(s, q) => Pattern::AnyString(s.clone(), *q),
            Pattern::Any => Pattern::Any,
        }
    }
}

fn is_wildcard(s: &String) -> (r: bool)
    ensures
        r == (s@ == wildcard_text()),
{
    let star = String::from_str("*");
    proof {
        reveal_strlit("*");
        assert(star@ =~= wildcard_text());
    }
    *s == star
}

fn style_accepts(sp: QuoteStylePattern, q: QuoteStyle) -> (r: bool)
    ensures
        r == style_admits(sp, q),
{
    match sp {
        QuoteStylePattern::Any => true,
        QuoteStylePattern::Single => q == QuoteStyle::Single,
        QuoteStylePattern::Double => q == QuoteStyle::Double,
    }
}

impl Pattern {
    /// Whether this pattern position matches the token.
    pub fn accepts(&self, token: &Token) -> (r: bool)
        ensures
            r == pattern_matches(self@, token@),
    {
        match (self, token) {
            (Pattern::Identifier(a), Token::Identifier(b)) => *a == *b,
            (Pattern::Number(a), Token::Number(b)) => *a == *b,
            (Pattern::Symbol(a), Token::Symbol(b)) => *a == *b,
            (Pattern::OpenParen(a), Token::OpenParen(b)) => *a == *b || is_wildcard(a),
            (Pattern::CloseParen(a), Token::CloseParen(b)) => *a == *b || is_wildcard(a),
            (Pattern::String(a, sp), Token::StringLiteral(b, q)) => *a == *b && style_accepts(
                *sp,
                *q,
            ),
            (Pattern::AnyIdentifier(_), Token::Identifier(_)) => true,
            (Pattern::AnyNumber(_), Token::Number(_)) => true,
            (Pattern::AnyString(_, sp), Token::StringLiteral(_, q)) => style_accepts(*sp, *q),
            (Pattern::Any, _) => true,
            _ => false,
        }
    }

    /// The capture name of a binding pattern; `None` for a literal one.
    pub fn capture_name(&self) -> (r: Option<String>)
        ensures
            match binder(self@) {
                Some(n) => r is Some && r->0@ == n,
                None => r is None,
            },
    {
        match self {
            Pattern::AnyIdentifier(n) => Some(n.clone()),
            Pattern::AnyNumber(n) => Some(n.clone()),
            Pattern::AnyString(n, _) => Some(n.clone()),
            Pattern::Any => {
                let name = String::from_str("_");
                proof {
                    reveal_strlit("_");
                    assert(name@ =~= any_name());
                }
                Some(name)
            },
            _ => None,
        }
    }
}

} // verus!
