use vstd::prelude::*;

use crate::bindings::Bindings;
use crate::pattern::{binder, pattern_matches, patterns_view, Pattern, PatternV};
use crate::token::{tokens_view, Token, TokenV};

verus! {

/// Whether every position of `pats` matches the window of `toks` that starts
/// at `start`.
pub open spec fn window_matches(pats: Seq<PatternV>, toks: Seq<TokenV>, start: int) -> bool {
    forall|k: int| 0 <= k < pats.len() ==> pattern_matches(pats[k], #[trigger] toks[start + k])
}

/// The captures of the first `n` positions of `pats` over the window of
/// `toks` at `start`, in order: a later capture of a name replaces an earlier
/// one.
pub open spec fn captures_of(pats: Seq<PatternV>, toks: Seq<TokenV>, start: int, n: int) -> Map<
    Seq<char>,
    TokenV,
>
    decreases n,
{
    if n <= 0 {
        Map::empty()
    } else {
        let m = captures_of(pats, toks, start, n - 1);
        match binder(pats[n - 1]) {
            Some(name) => m.insert(name, toks[start + n - 1]),
            None => m,
        }
    }
}

/// The match records for the windows that start before `n`, in ascending
/// order of start.
pub open spec fn matches_before(pats: Seq<PatternV>, toks: Seq<TokenV>, n: int) -> Seq<
    (Map<Seq<char>, TokenV>, int),
>
    decreases n,
{
    if n <= 0 {
        Seq::empty()
    } else {
        let earlier = matches_before(pats, toks, n - 1);
        if window_matches(pats, toks, n - 1) {
            earlier.push((captures_of(pats, toks, n - 1, pats.len() as int), n - 1))
        } else {
            earlier
        }
    }
}

/// Every window of `toks` that `pats` matches, each with its captures and
/// its start, in ascending order of start. Overlapping windows all count.
pub open spec fn all_matches(pats: Seq<PatternV>, toks: Seq<TokenV>) -> Seq<
    (Map<Seq<char>, TokenV>, int),
> {
    if toks.len() < pats.len() {
        Seq::empty()
    } else {
        matches_before(pats, toks, toks.len() - pats.len() + 1)
    }
}

/// A template token with the captures put in: a non-paren token whose text
/// is a capture name becomes the captured token, whole.
pub open spec fn substitute(t: TokenV, b: Map<Seq<char>, TokenV>) -> TokenV {
    match t {
        TokenV::OpenParen(_) => t,
        TokenV::CloseParen(_) => t,
        _ => if b.contains_key(t.text()) {
            b[t.text()]
        } else {
            t
        },
    }
}

/// The replacement template with the captures put in.
pub open spec fn instantiate(template: Seq<TokenV>, b: Map<Seq<char>, TokenV>) -> Seq<TokenV> {
    template.map_values(|t: TokenV| substitute(t, b))
}

/// The mathematical value of a rule.
pub struct RuleV {
    pub pattern: Seq<PatternV>,
    pub replacement: Seq<TokenV>,
}

/// The views of a list of match records.
pub open spec fn records_view(rs: Seq<(Bindings, usize)>) -> Seq<(Map<Seq<char>, TokenV>, int)> {
    rs.map_values(|r: (Bindings, usize)| (r.0@, r.1 as int))
}

/// A pattern for a run of consecutive tokens and the tokens that replace it.
pub struct Rule {
    pattern: Vec<Pattern>,
    replacement: Vec<Token>,
}

impl View for Rule {
    type V = RuleV;

    closed spec fn view(&self) -> RuleV {
        RuleV { pattern: patterns_view(self.pattern@), replacement: tokens_view(self.replacement@) }
    }
}

impl Rule {
    /// A rule from its pattern and its replacement template.
    pub fn new(pattern: Vec<Pattern>, replacement: Vec<Token>) -> (r: Self)
        ensures
            r@ == (RuleV { pattern: patterns_view(pattern@), replacement: tokens_view(replacement@) }),
    {
        Rule { pattern, replacement }
    }

    /// The rule's pattern.
    pub fn pattern(&self) -> (r: &Vec<Pattern>)
        ensures
            patterns_view(r@) == self@.pattern,
    {
        &self.pattern
    }

    /// The rule's replacement template.
    pub fn replacement(&self) -> (r: &Vec<Token>)
        ensures
            tokens_view(r@) == self@.replacement,
    {
        &self.replacement
    }

    /// The length of the pattern.
    pub fn pattern_len(&self) -> (r: usize)
        ensures
            r == self@.pattern.len(),
    {
        self.pattern.len()
    }

    /// Whether the pattern matches the window of `tokens` at `start`.
    fn will_match(&self, tokens: &[Token], start: usize) -> (r: bool)
        requires
            start + self@.pattern.len() <= tokens@.len(),
        ensures
            r == window_matches(self@.pattern, tokens_view(tokens@), start as int),
    {
        let ghost pats = self@.pattern;
        let ghost toks = tokens_view(tokens@);
        let n = tokens.len();
        let mut k: usize = 0;
        while k < self.pattern.len()
            invariant
                pats == self@.pattern,
                toks == tokens_view(tokens@),
                pats.len() == self.pattern@.len(),
                toks.len() == tokens@.len(),
                n == tokens@.len(),
                start + pats.len() <= toks.len(),
                k <= pats.len(),
                forall|j: int| 0 <= j < k ==> pattern_matches(pats[j], #[trigger] toks[start + j]),
            decreases pats.len() - k,
        {
            if !self.pattern[k].accepts(&tokens[start + k]) {
                proof {
                    assert(!pattern_matches(pats[k as int], toks[start + k]));
                }
                return false;
            }
            k = k + 1;
        }
        true
    }

    /// The captures of the pattern over the window of `tokens` at `start`.
    fn capture(&self, tokens: &[Token], start: usize) -> (r: Bindings)
        requires
            start + self@.pattern.len() <= tokens@.len(),
        ensures
            r@ == captures_of(
                self@.pattern,
                tokens_view(tokens@),
                start as int,
                self@.pattern.len() as int,
            ),
    {
        let ghost pats = self@.pattern;
        let ghost toks = tokens_view(tokens@);
        let n = tokens.len();
        let mut bindings = Bindings::new();
        let mut k: usize = 0;
        while k < self.pattern.len()
            invariant
                pats == self@.pattern,
                toks == tokens_view(tokens@),
                pats.len() == self.pattern@.len(),
                toks.len() == tokens@.len(),
                n == tokens@.len(),
                start + pats.len() <= toks.len(),
                k <= pats.len(),
                bindings@ == captures_of(pats, toks, start as int, k as int),
            decreases pats.len() - k,
        {
            match self.pattern[k].capture_name() {
                Some(name) => {
                    bindings.insert(name, tokens[start + k].clone());
                },
                None => {},
            }
            k = k + 1;
        }
        bindings
    }

    /// Every window of `tokens` that the pattern matches, with its captures
    /// and its start, in ascending order of start; overlapping windows all
    /// count.
    pub fn matches(&self, tokens: &[Token]) -> (r: Vec<(Bindings, usize)>)
        ensures
            records_view(r@) == all_matches(self@.pattern, tokens_view(tokens@)),
    {
        let ghost pats = self@.pattern;
        let ghost toks = tokens_view(tokens@);
        let mut result: Vec<(Bindings, usize)> = Vec::new();
        if tokens.len() < self.pattern.len() {
            proof {
                assert(records_view(result@) =~= Seq::empty());
            }
            return result;
        }
        let last = tokens.len() - self.pattern.len();
        let mut i: usize = 0;
        while i <= last
            invariant
                pats == self@.pattern,
                toks == tokens_view(tokens@),
                last == toks.len() - pats.len(),
                i <= last + 1,
                records_view(result@) == matches_before(pats, toks, i as int),
            decreases last + 1 - i,
        {
            if self.will_match(tokens, i) {
                let bindings = self.capture(tokens, i);
                let ghost before = records_view(result@);
                result.push((bindings, i));
                proof {
                    assert(records_view(result@) =~= before.push(
                        (captures_of(pats, toks, i as int, pats.len() as int), i as int),
                    ));
                }
            }
            if i == last {
                return result;
            }
            i = i + 1;
        }
        result
    }

    /// The replacement template with the captures put in: each non-paren
    /// template token whose text is bound is replaced by the bound token.
    pub fn apply(&self, bindings: &Bindings) -> (r: Vec<Token>)
        ensures
            tokens_view(r@) == instantiate(self@.replacement, bindings@),
    {
        let ghost template = self@.replacement;
        let mut out: Vec<Token> = Vec::new();
        let mut k: usize = 0;
        while k < self.replacement.len()
            invariant
                template == self@.replacement,
                k <= template.len(),
                tokens_view(out@) == instantiate(template, bindings@).take(k as int),
            decreases template.len() - k,
        {
            let token = &self.replacement[k];
            let found = match token {
                Token::Identifier(text) => bindings.get(text),
                Token::Number(text) => bindings.get(text),
                Token::Symbol(text) => bindings.get(text),
                Token::StringLiteral(text, _) => bindings.get(text),
                _ => None,
            };
            let next = match found {
                Some(bound) => bound.clone(),
                None => token.clone(),
            };
            let ghost before = tokens_view(out@);
            out.push(next);
            proof {
                assert(tokens_view(out@) =~= before.push(next@));
                assert(instantiate(template, bindings@).take(k + 1) =~= instantiate(
                    template,
                    bindings@,
                ).take(k as int).push(substitute(template[k as int], bindings@)));
            }
            k = k + 1;
        }
        proof {
            assert(instantiate(template, bindings@).take(k as int) =~= instantiate(
                template,
                bindings@,
            ));
        }
        out
    }
}

/// A match record that comes from a window starting before `n` that lies
/// within `toks`, matches, and carries the captures of that window.
spec fn record_from_window(
    pats: Seq<PatternV>,
    toks: Seq<TokenV>,
    n: int,
    rec: (Map<Seq<char>, TokenV>, int),
) -> bool {
    &&& 0 <= rec.1 < n
    &&& rec.1 + pats.len() <= toks.len()
    &&& window_matches(pats, toks, rec.1)
    &&& rec.0 == captures_of(pats, toks, rec.1, pats.len() as int)
}

proof fn lemma_records_before(pats: Seq<PatternV>, toks: Seq<TokenV>, n: int)
    requires
        n <= toks.len() - pats.len() + 1,
    ensures
        forall|r: int|
            0 <= r < matches_before(pats, toks, n).len() ==> record_from_window(
                pats,
                toks,
                n,
                #[trigger] matches_before(pats, toks, n)[r],
            ),
    decreases n,
{
    if n > 0 {
        lemma_records_before(pats, toks, n - 1);
        let earlier = matches_before(pats, toks, n - 1);
        assert forall|r: int| 0 <= r < matches_before(pats, toks, n).len() implies record_from_window(
            pats,
            toks,
            n,
            #[trigger] matches_before(pats, toks, n)[r],
        ) by {
            if r < earlier.len() {
                assert(matches_before(pats, toks, n)[r] == earlier[r]);
                assert(record_from_window(pats, toks, n - 1, earlier[r]));
            }
        }
    }
}

/// The capture of a name made at position `k` stands in the captures of the
/// first `n` positions when no later position among them binds that name.
proof fn lemma_capture_stands(pats: Seq<PatternV>, toks: Seq<TokenV>, start: int, k: int, n: int)
    requires
        0 <= k < n <= pats.len(),
        binder(pats[k]) is Some,
        forall|k2: int| k < k2 < n ==> binder(#[trigger] pats[k2]) != binder(pats[k]),
    ensures
        captures_of(pats, toks, start, n).contains_key(binder(pats[k])->0),
        captures_of(pats, toks, start, n)[binder(pats[k])->0] == toks[start + k],
    decreases n,
{
    if n > k + 1 {
        lemma_capture_stands(pats, toks, start, k, n - 1);
        assert(binder(pats[n - 1]) != binder(pats[k]));
    }
}

/// A captured token is substituted whole: when a match of the rule captures
/// the token at position `k` of its window under a name that no later
/// position of the pattern rebinds, every non-paren template token whose
/// text is that name becomes that token, kind, text and quote style alike.
/// In particular a captured string literal keeps its own quote style,
/// whatever quote style (or kind) the template token was written with.
pub proof fn lemma_capture_substituted_whole(
    rule: RuleV,
    toks: Seq<TokenV>,
    r: int,
    k: int,
    j: int,
)
    requires
        0 <= r < all_matches(rule.pattern, toks).len(),
        0 <= k < rule.pattern.len(),
        binder(rule.pattern[k]) is Some,
        forall|k2: int|
            k < k2 < rule.pattern.len() ==> binder(#[trigger] rule.pattern[k2]) != binder(
                rule.pattern[k],
            ),
        0 <= j < rule.replacement.len(),
        !(rule.replacement[j] is OpenParen),
        !(rule.replacement[j] is CloseParen),
        rule.replacement[j].text() == binder(rule.pattern[k])->0,
    ensures
        ({
            let rec = all_matches(rule.pattern, toks)[r];
            &&& instantiate(rule.replacement, rec.0)[j] == toks[rec.1 + k]
            &&& toks[rec.1 + k] matches TokenV::StringLiteral(text, q) ==> instantiate(
                rule.replacement,
                rec.0,
            )[j] == TokenV::StringLiteral(text, q)
        }),
{
    let pats = rule.pattern;
    lemma_records_before(pats, toks, toks.len() - pats.len() + 1);
    let rec = all_matches(pats, toks)[r];
    assert(record_from_window(pats, toks, toks.len() - pats.len() + 1, rec));
    lemma_capture_stands(pats, toks, rec.1, k, pats.len() as int);
}

/// The records before `n` come in strictly ascending order of start, and
/// each matching window that starts before `n` has one.
proof fn lemma_records_complete(pats: Seq<PatternV>, toks: Seq<TokenV>, n: int)
    requires
        n <= toks.len() - pats.len() + 1,
    ensures
        forall|r1: int, r2: int|
            0 <= r1 < r2 < matches_before(pats, toks, n).len() ==> (#[trigger] matches_before(
                pats,
                toks,
                n,
            )[r1]).1 < (#[trigger] matches_before(pats, toks, n)[r2]).1,
        forall|i: int|
            0 <= i < n && #[trigger] window_matches(pats, toks, i) ==> exists|r: int|
                0 <= r < matches_before(pats, toks, n).len() && (#[trigger] matches_before(
                    pats,
                    toks,
                    n,
                )[r]).1 == i,
    decreases n,
{
    if n > 0 {
        lemma_records_complete(pats, toks, n - 1);
        lemma_records_before(pats, toks, n - 1);
        let earlier = matches_before(pats, toks, n - 1);
        let now = matches_before(pats, toks, n);
        assert forall|r: int| 0 <= r < earlier.len() implies #[trigger] now[r] == earlier[r] by {}
        assert forall|r: int| 0 <= r < earlier.len() implies (#[trigger] earlier[r]).1 < n - 1 by {
            assert(record_from_window(pats, toks, n - 1, earlier[r]));
        }
        assert forall|i: int| 0 <= i < n && #[trigger] window_matches(pats, toks, i) implies exists|
            r: int,
        | 0 <= r < now.len() && (#[trigger] now[r]).1 == i by {
            if i < n - 1 {
                let r = choose|r: int| 0 <= r < earlier.len() && (#[trigger] earlier[r]).1 == i;
                assert(now[r] == earlier[r]);
            } else {
                assert(now[earlier.len() as int].1 == i);
            }
        }
    }
}

/// Every window that the pattern matches is recorded, overlapping windows
/// included, and the records come in strictly ascending order of start.
pub proof fn lemma_every_matching_window_recorded(pats: Seq<PatternV>, toks: Seq<TokenV>)
    ensures
        forall|r1: int, r2: int|
            0 <= r1 < r2 < all_matches(pats, toks).len() ==> (#[trigger] all_matches(
                pats,
                toks,
            )[r1]).1 < (#[trigger] all_matches(pats, toks)[r2]).1,
        forall|i: int|
            0 <= i && i + pats.len() <= toks.len() && #[trigger] window_matches(pats, toks, i)
                ==> exists|r: int|
                0 <= r < all_matches(pats, toks).len() && (#[trigger] all_matches(
                    pats,
                    toks,
                )[r]).1 == i,
{
    if toks.len() >= pats.len() {
        lemma_records_complete(pats, toks, toks.len() - pats.len() + 1);
    }
}

} // verus!
