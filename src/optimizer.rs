//! The token optimiser: parser tokens to the tokens that the matcher walks.
use vstd::prelude::*;
use crate::text::{concat_strings, string_of_char};
use crate::token::{
    MatcherToken, RawModel, RouteParserToken, TokenModel, copy_variant, raw_models, token_models,
};

verus! {

/// `acc` with `t` added, joined to a literal that ends `acc` when `t` is literal too.
pub open spec fn add_match(acc: Seq<TokenModel>, t: TokenModel) -> Seq<TokenModel> {
    if t is Match && acc.len() > 0 && acc.last() is Match {
        acc.drop_last().push(TokenModel::Match(acc.last()->Match_0 + t->Match_0))
    } else {
        acc.push(t)
    }
}

/// Adds the tokens `ts[i..]` to `acc` one by one, joining adjacent literals.
pub open spec fn merge_from(ts: Seq<TokenModel>, i: int, acc: Seq<TokenModel>) -> Seq<TokenModel>
    decreases ts.len() - i,
{
    if i < 0 || i >= ts.len() {
        acc
    } else {
        merge_from(ts, i + 1, add_match(acc, ts[i]))
    }
}

/// `ts` with each run of adjacent literals joined into one.
pub open spec fn merge(ts: Seq<TokenModel>) -> Seq<TokenModel> {
    merge_from(ts, 0, seq![])
}

/// No two literals stand side by side in `ts`.
pub open spec fn is_merged(ts: Seq<TokenModel>) -> bool {
    forall|i: int| 0 <= i < ts.len() - 1 ==> !(#[trigger] ts[i] is Match && ts[i + 1] is Match)
}

/// A separator at `i` that ends the path: the last token, or one just before `?` or `#`.
pub open spec fn ends_path(raw: Seq<RawModel>, i: int) -> bool {
    i + 1 == raw.len() || raw[i + 1] is QueryBegin || raw[i + 1] is FragmentBegin
}

/// The matcher token that stands for the parser token at `i`.
pub open spec fn convert_one(raw: Seq<RawModel>, i: int, allow_optional: bool) -> TokenModel {
    match raw[i] {
        RawModel::Separator => if allow_optional && ends_path(raw, i) {
            TokenModel::Optional(seq!['/'])
        } else {
            TokenModel::Match(seq!['/'])
        },
        RawModel::Match(t) => TokenModel::Match(t),
        RawModel::Capture(c) => TokenModel::Capture(c),
        RawModel::QueryBegin => TokenModel::Match(seq!['?']),
        RawModel::QuerySeparator => TokenModel::Match(seq!['&']),
        RawModel::FragmentBegin => TokenModel::Match(seq!['#']),
        RawModel::End => TokenModel::End,
    }
}

/// A pattern that ends in literal text or a capture gets an optional trailing separator.
pub open spec fn trailing_optional(raw: Seq<RawModel>, allow_optional: bool) -> bool {
    allow_optional && raw.len() > 0 && (raw.last() is Match || raw.last() is Capture)
}

/// The converted tokens, one for each parser token, before literals are joined.
pub open spec fn converted(raw: Seq<RawModel>, allow_optional: bool) -> Seq<TokenModel> {
    Seq::new(raw.len(), |i: int| convert_one(raw, i, allow_optional)) + if trailing_optional(
        raw,
        allow_optional,
    ) {
        seq![TokenModel::Optional(seq!['/'])]
    } else {
        seq![]
    }
}

/// What the optimiser makes of the parser tokens `raw`.
pub open spec fn optimize_spec(raw: Seq<RawModel>, allow_optional: bool) -> Seq<TokenModel> {
    merge(converted(raw, allow_optional))
}

fn add_match_exec(acc: &mut Vec<MatcherToken>, t: MatcherToken)
    ensures
        token_models(final(acc)@) == add_match(token_models(old(acc)@), t@),
{
    let n = acc.len();
    let joins = n > 0 && matches!(acc[n - 1], MatcherToken::Match(_)) && matches!(
        t,
        MatcherToken::Match(_)
    );
    if joins {
        let last = acc.pop().unwrap();
        assert(token_models(acc@) =~= token_models(old(acc)@).drop_last());
        match (last, t) {
            (MatcherToken::Match(a), MatcherToken::Match(b)) => {
                let joined = concat_strings(&a, &b);
                acc.push(MatcherToken::Match(joined));
            },
            _ => {},
        }
    } else {
        acc.push(t);
    }
    assert(token_models(acc@) =~= add_match(token_models(old(acc)@), t@));
}

fn convert_token(raw: &Vec<RouteParserToken>, i: usize, allow_optional: bool) -> (r: MatcherToken)
    requires
        i < raw.len(),
    ensures
        r@ == convert_one(raw_models(raw@), i as int, allow_optional),
{
    let ghost rm = raw_models(raw@);
    assert(rm[i as int] == raw@[i as int]@);
    match &raw[i] {
        RouteParserToken::Separator => {
            let ends = i + 1 == raw.len() || matches!(raw[i + 1], RouteParserToken::QueryBegin)
                || matches!(raw[i + 1], RouteParserToken::FragmentBegin);
            proof {
                if i + 1 < raw.len() {
                    assert(rm[i + 1] == raw@[i + 1]@);
                }
            }
            if allow_optional && ends {
                MatcherToken::Optional(string_of_char('/'))
            } else {
                MatcherToken::Match(string_of_char('/'))
            }
        },
        RouteParserToken::Match(t) => MatcherToken::Match(t.clone()),
        RouteParserToken::Capture(c) => MatcherToken::Capture(copy_variant(c)),
        RouteParserToken::QueryBegin => MatcherToken::Match(string_of_char('?')),
        RouteParserToken::QuerySeparator => MatcherToken::Match(string_of_char('&')),
        RouteParserToken::FragmentBegin => MatcherToken::Match(string_of_char('#')),
        RouteParserToken::End => MatcherToken::End,
    }
}

/// Optimises parser tokens for matching: literals, separators and markers become literal
/// text, adjacent literals are joined and, when `allow_optional` is set, a separator that
/// ends the path becomes optional, as does an added one after final text or capture.
pub fn optimize_tokens(tokens: Vec<RouteParserToken>, allow_optional: bool) -> (r: Vec<
    MatcherToken,
>)
    ensures
        token_models(r@) == optimize_spec(raw_models(tokens@), allow_optional),
{
    let ghost rm = raw_models(tokens@);
    let ghost u = converted(rm, allow_optional);
    let n = tokens.len();
    let mut acc: Vec<MatcherToken> = Vec::new();
    assert(token_models(acc@) =~= seq![]);
    let mut i: usize = 0;
    while i < n
        invariant
            n == tokens.len(),
            rm == raw_models(tokens@),
            u == converted(rm, allow_optional),
            i <= n,
            merge(u) == merge_from(u, i as int, token_models(acc@)),
        decreases n - i,
    {
        let t = convert_token(&tokens, i, allow_optional);
        assert(u[i as int] == t@);
        add_match_exec(&mut acc, t);
        i = i + 1;
    }
    let extra = allow_optional && n > 0 && (matches!(tokens[n - 1], RouteParserToken::Match(_))
        || matches!(tokens[n - 1], RouteParserToken::Capture(_)));
    proof {
        if n > 0 {
            assert(rm.last() == tokens@[n - 1]@);
        }
    }
    if extra {
        let t = MatcherToken::Optional(string_of_char('/'));
        assert(u[n as int] == t@);
        add_match_exec(&mut acc, t);
        assert(merge(u) == merge_from(u, n + 1, token_models(acc@)));
    } else {
        assert(u.len() == n);
    }
    acc
}

fn copy_token(t: &MatcherToken) -> (r: MatcherToken)
    ensures
        r@ == t@,
{
    match t {
        MatcherToken::Match(s) => MatcherToken::Match(s.clone()),
        MatcherToken::Optional(s) => MatcherToken::Optional(s.clone()),
        MatcherToken::Capture(c) => MatcherToken::Capture(copy_variant(c)),
        MatcherToken::End => MatcherToken::End,
    }
}

/// Joins adjacent literals of already optimised tokens.
pub fn merge_tokens(tokens: Vec<MatcherToken>) -> (r: Vec<MatcherToken>)
    ensures
        token_models(r@) == merge(token_models(tokens@)),
{
    let ghost tm = token_models(tokens@);
    let mut acc: Vec<MatcherToken> = Vec::new();
    assert(token_models(acc@) =~= seq![]);
    let mut i: usize = 0;
    let n = tokens.len();
    while i < n
        invariant
            n == tm.len(),
            tm == token_models(tokens@),
            i <= n,
            merge(tm) == merge_from(tm, i as int, token_models(acc@)),
        decreases n - i,
    {
        let t = copy_token(&tokens[i]);
        assert(t@ == tm[i as int]);
        add_match_exec(&mut acc, t);
        i = i + 1;
    }
    acc
}

proof fn lemma_add_match_keeps_merged(acc: Seq<TokenModel>, t: TokenModel)
    requires
        is_merged(acc),
    ensures
        is_merged(add_match(acc, t)),
{
    let r = add_match(acc, t);
    let n = acc.len() as int;
    if t is Match && n > 0 && acc.last() is Match {
        assert forall|j: int| 0 <= j < r.len() - 1 implies !(#[trigger] r[j] is Match && r[j
            + 1] is Match) by {
            assert(r[j] == acc[j]);
            if j + 1 < n - 1 {
                assert(r[j + 1] == acc[j + 1]);
            } else {
                assert(!(acc[n - 2] is Match && acc[n - 1] is Match));
            }
        }
    } else {
        assert forall|j: int| 0 <= j < r.len() - 1 implies !(#[trigger] r[j] is Match && r[j
            + 1] is Match) by {
            assert(r[j] == acc[j]);
            if j + 1 < n {
                assert(r[j + 1] == acc[j + 1]);
            }
        }
    }
}

proof fn lemma_merge_from_is_merged(ts: Seq<TokenModel>, i: int, acc: Seq<TokenModel>)
    requires
        is_merged(acc),
    ensures
        is_merged(merge_from(ts, i, acc)),
    decreases ts.len() - i,
{
    if 0 <= i < ts.len() {
        lemma_add_match_keeps_merged(acc, ts[i]);
        lemma_merge_from_is_merged(ts, i + 1, add_match(acc, ts[i]));
    }
}

proof fn lemma_merge_from_identity(ts: Seq<TokenModel>, i: int)
    requires
        is_merged(ts),
        0 <= i <= ts.len(),
    ensures
        merge_from(ts, i, ts.take(i)) == ts,
    decreases ts.len() - i,
{
    if i == ts.len() {
        assert(ts.take(i) =~= ts);
    } else {
        if i > 0 {
            assert(!(ts[i - 1] is Match && ts[i] is Match));
        }
        assert(ts.take(i).push(ts[i]) =~= ts.take(i + 1));
        lemma_merge_from_identity(ts, i + 1);
    }
}

/// Joining literals leaves no two literals side by side.
pub proof fn lemma_merge_is_merged(ts: Seq<TokenModel>)
    ensures
        is_merged(merge(ts)),
{
    lemma_merge_from_is_merged(ts, 0, seq![]);
}

/// Joining literals changes nothing in tokens where no two literals stand side by side.
pub proof fn lemma_merge_of_merged(ts: Seq<TokenModel>)
    requires
        is_merged(ts),
    ensures
        merge(ts) == ts,
{
    assert(ts.take(0) =~= seq![]);
    lemma_merge_from_identity(ts, 0);
}

/// Optimisation is stable: joining the literals of optimised tokens again changes nothing.
pub proof fn lemma_optimize_idempotent(raw: Seq<RawModel>, allow_optional: bool)
    ensures
        merge(optimize_spec(raw, allow_optional)) == optimize_spec(raw, allow_optional),
{
    lemma_merge_is_merged(converted(raw, allow_optional));
    lemma_merge_of_merged(optimize_spec(raw, allow_optional));
}

/// No token of `toks` is optional.
pub open spec fn no_optional(toks: Seq<TokenModel>) -> bool {
    forall|i: int| 0 <= i < toks.len() ==> !(#[trigger] toks[i] is Optional)
}

proof fn lemma_merge_from_no_optional(ts: Seq<TokenModel>, i: int, acc: Seq<TokenModel>)
    requires
        no_optional(ts),
        no_optional(acc),
    ensures
        no_optional(merge_from(ts, i, acc)),
    decreases ts.len() - i,
{
    if 0 <= i < ts.len() {
        let next = add_match(acc, ts[i]);
        assert(!(ts[i] is Optional));
        assert forall|j: int| 0 <= j < next.len() implies !(#[trigger] next[j] is Optional) by {
            if j < acc.len() - 1 {
                assert(next[j] == acc[j]);
            } else if j == acc.len() - 1 && !(ts[i] is Match && acc.len() > 0 && acc.last() is Match) {
                assert(next[j] == acc[j]);
            }
        }
        lemma_merge_from_no_optional(ts, i + 1, next);
    }
}

/// Optimisation without optional separators makes no optional token.
pub proof fn lemma_strict_has_no_optional(raw: Seq<RawModel>)
    ensures
        no_optional(optimize_spec(raw, false)),
{
    let u = converted(raw, false);
    assert forall|i: int| 0 <= i < u.len() implies !(#[trigger] u[i] is Optional) by {
        assert(u[i] == convert_one(raw, i, false));
    }
    lemma_merge_from_no_optional(u, 0, seq![]);
}

/// Every token of `toks` is literal text, required or optional.
pub open spec fn only_text(toks: Seq<TokenModel>) -> bool {
    forall|i: int| 0 <= i < toks.len() ==> (#[trigger] toks[i] is Match || toks[i] is Optional)
}

proof fn lemma_merge_from_only_text(ts: Seq<TokenModel>, i: int, acc: Seq<TokenModel>)
    requires
        only_text(ts),
        only_text(acc),
    ensures
        only_text(merge_from(ts, i, acc)),
    decreases ts.len() - i,
{
    if 0 <= i < ts.len() {
        let next = add_match(acc, ts[i]);
        assert(ts[i] is Match || ts[i] is Optional);
        assert forall|j: int| 0 <= j < next.len() implies (#[trigger] next[j] is Match
            || next[j] is Optional) by {
            if j < acc.len() - 1 {
                assert(next[j] == acc[j]);
            } else if j == acc.len() - 1 && !(ts[i] is Match && acc.len() > 0 && acc.last() is Match) {
                assert(next[j] == acc[j]);
            }
        }
        lemma_merge_from_only_text(ts, i + 1, next);
    }
}

/// Optimising parser tokens without captures or an end mark gives literal text only.
pub proof fn lemma_fixed_optimizes_to_text(raw: Seq<RawModel>, allow_optional: bool)
    requires
        forall|j: int| 0 <= j < raw.len() ==> !(#[trigger] raw[j] is Capture) && !(raw[j] is End),
    ensures
        only_text(optimize_spec(raw, allow_optional)),
{
    let u = converted(raw, allow_optional);
    assert forall|i: int| 0 <= i < u.len() implies (#[trigger] u[i] is Match || u[i] is Optional) by {
        if i < raw.len() {
            assert(u[i] == convert_one(raw, i, allow_optional));
            assert(!(raw[i] is Capture) && !(raw[i] is End));
        }
    }
    lemma_merge_from_only_text(u, 0, seq![]);
}

} // verus!
