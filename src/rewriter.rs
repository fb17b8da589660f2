use vstd::prelude::*;

use crate::rule::{all_matches, instantiate, records_view, Rule, RuleV};
use crate::token::{tokens_view, Token, TokenV};

verus! {

/// `buf` with the `len` tokens at `at` replaced by `with`.
pub open spec fn splice(buf: Seq<TokenV>, at: int, len: int, with: Seq<TokenV>) -> Seq<TokenV> {
    buf.take(at) + with + buf.skip(at + len)
}

/// Applies match records in order to `buf`. Each record's start is shifted
/// by `offset`, the growth of the buffer from the splices made so far; a
/// record whose shifted window does not lie within the buffer is skipped.
/// Records are not checked again against what now stands at their place.
pub open spec fn apply_records(
    buf: Seq<TokenV>,
    recs: Seq<(Map<Seq<char>, TokenV>, int)>,
    pattern_len: int,
    template: Seq<TokenV>,
    offset: int,
) -> Seq<TokenV>
    decreases recs.len(),
{
    if recs.len() == 0 {
        buf
    } else {
        let at = recs[0].1 + offset;
        if at < 0 || at + pattern_len > buf.len() {
            apply_records(buf, recs.drop_first(), pattern_len, template, offset)
        } else {
            apply_records(
                splice(buf, at, pattern_len, instantiate(template, recs[0].0)),
                recs.drop_first(),
                pattern_len,
                template,
                offset + template.len() - pattern_len,
            )
        }
    }
}

/// One pass of a rule over `buf`: all matches are found in `buf` as it is,
/// then applied left to right.
pub open spec fn apply_rule(rule: RuleV, buf: Seq<TokenV>) -> Seq<TokenV> {
    apply_records(
        buf,
        all_matches(rule.pattern, buf),
        rule.pattern.len() as int,
        rule.replacement,
        0,
    )
}

/// The rules applied in order, one pass each, each to the result of the
/// one before.
pub open spec fn rewrite_with(rules: Seq<RuleV>, buf: Seq<TokenV>) -> Seq<TokenV>
    decreases rules.len(),
{
    if rules.len() == 0 {
        buf
    } else {
        rewrite_with(rules.drop_first(), apply_rule(rules[0], buf))
    }
}

/// The views of a list of rules.
pub open spec fn rules_view(rs: Seq<Rule>) -> Seq<RuleV> {
    rs.map_values(|r: Rule| r@)
}

/// Replaces the `len` tokens at `at` by `with`.
fn splice_at(tokens: &mut Vec<Token>, at: usize, len: usize, with: &Vec<Token>)
    requires
        at + len <= old(tokens)@.len(),
    ensures
        final(tokens)@.len() == old(tokens)@.len() - len + with@.len(),
        tokens_view(final(tokens)@) == splice(
            tokens_view(old(tokens)@),
            at as int,
            len as int,
            tokens_view(with@),
        ),
{
    let ghost start = tokens@;
    let mut k: usize = 0;
    while k < len
        invariant
            at + len <= start.len(),
            k <= len,
            tokens@ == start.take(at as int) + start.skip(at + k),
        decreases len - k,
    {
        tokens.remove(at);
        proof {
            assert(start.take(at as int) + start.skip(at + k + 1) =~= (start.take(at as int)
                + start.skip(at + k)).remove(at as int));
        }
        k = k + 1;
    }
    let mut m: usize = 0;
    while m < with.len()
        invariant
            at + len <= start.len(),
            m <= with@.len(),
            tokens@ == start.take(at as int) + with@.take(m as int) + start.skip(at + len),
        decreases with@.len() - m,
    {
        proof {
            assert(at + m <= tokens.len());
        }
        tokens.insert(at + m, with[m].clone());
        proof {
            assert(start.take(at as int) + with@.take(m + 1) + start.skip(at + len) =~= (
            start.take(at as int) + with@.take(m as int) + start.skip(at + len)).insert(
                at + m,
                with@[m as int],
            ));
        }
        m = m + 1;
    }
    proof {
        assert(with@.take(m as int) =~= with@);
        assert(tokens_view(tokens@) =~= splice(
            tokens_view(start),
            at as int,
            len as int,
            tokens_view(with@),
        ));
    }
}

/// One pass of `rule` over `tokens`.
fn apply_rule_to(rule: &Rule, tokens: &mut Vec<Token>)
    ensures
        tokens_view(final(tokens)@) == apply_rule(rule@, tokens_view(old(tokens)@)),
{
    let records = rule.matches(tokens.as_slice());
    let ghost v0 = tokens_view(tokens@);
    let ghost recs = records_view(records@);
    let pattern_len = rule.pattern_len();
    let initial_len = tokens.len();
    let mut offset: i128 = 0;
    let mut j: usize = 0;
    proof {
        assert(recs.skip(0) =~= recs);
    }
    while j < records.len()
        invariant
            recs == records_view(records@),
            pattern_len == rule@.pattern.len(),
            initial_len == v0.len(),
            offset == tokens.len() - initial_len,
            j <= recs.len(),
            apply_rule(rule@, v0) == apply_records(
                tokens_view(tokens@),
                recs.skip(j as int),
                pattern_len as int,
                rule@.replacement,
                offset as int,
            ),
        decreases recs.len() - j,
    {
        proof {
            assert(recs.skip(j as int).drop_first() =~= recs.skip(j + 1));
        }
        let (bindings, match_pos) = &records[j];
        let adjusted: i128 = *match_pos as i128 + offset;
        let current_len = tokens.len();
        if adjusted >= 0 && adjusted + (pattern_len as i128) <= current_len as i128 {
            let at = adjusted as usize;
            let replacement = rule.apply(bindings);
            splice_at(tokens, at, pattern_len, &replacement);
            offset = offset + replacement.len() as i128 - pattern_len as i128;
        }
        j = j + 1;
    }
    proof {
        assert(recs.skip(j as int) =~= Seq::<(Map<Seq<char>, TokenV>, int)>::empty());
    }
}

/// An ordered list of rules, applied one pass each.
pub struct Rewriter {
    rules: Vec<Rule>,
}

impl View for Rewriter {
    type V = Seq<RuleV>;

    closed spec fn view(&self) -> Seq<RuleV> {
        rules_view(self.rules@)
    }
}

impl Rewriter {
    /// A rewriter that applies `rules` in their order.
    pub fn new(rules: Vec<Rule>) -> (r: Self)
        ensures
            r@ == rules_view(rules@),
    {
        Rewriter { rules }
    }

    /// Applies every rule in order, one pass each, to the token buffer.
    /// With no rules the buffer comes back unchanged.
    pub fn rewrite(&self, tokens: Vec<Token>) -> (r: Vec<Token>)
        ensures
            tokens_view(r@) == rewrite_with(self@, tokens_view(tokens@)),
            self@.len() == 0 ==> r@ == tokens@,
    {
        let ghost rules = self@;
        let ghost v0 = tokens_view(tokens@);
        let ghost t0 = tokens@;
        let mut tokens = tokens;
        let mut n: usize = 0;
        proof {
            assert(rules.skip(0) =~= rules);
        }
        while n < self.rules.len()
            invariant
                rules == self@,
                n <= rules.len(),
                n == 0 ==> tokens@ == t0,
                rewrite_with(rules, v0) == rewrite_with(rules.skip(n as int), tokens_view(tokens@)),
            decreases rules.len() - n,
        {
            proof {
                assert(rules.skip(n as int).drop_first() =~= rules.skip(n + 1));
            }
            apply_rule_to(&self.rules[n], &mut tokens);
            n = n + 1;
        }
        proof {
            assert(rules.skip(n as int) =~= Seq::<RuleV>::empty());
        }
        tokens
    }
}

} // verus!
