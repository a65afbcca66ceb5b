//! A compiled route pattern with its settings.
use vstd::prelude::*;
use crate::captures::{Captures, EntryModel};
use crate::matcher::{
    MatchError, anchor, is_many, literal_at, many_search, numbered_end, run, run_exec,
    sections_of, segment_end,
};
use crate::optimizer::{
    add_match, convert_one, converted, lemma_fixed_optimizes_to_text,
    lemma_strict_has_no_optional, merge_from, no_optional, only_text, optimize_spec,
    optimize_tokens,
};
use crate::parser::{ParseError, parse, parse_spec};
use crate::text::{char_matches, chars_of, string_of_range};
use crate::token::{
    CaptureKind, MatcherToken, RawModel, RouteParserToken, TokenModel, kind_name, raw_models,
    token_models, variant_name,
};

verus! {

/// How a pattern is optimised and matched.
#[derive(Debug, Clone, Copy, PartialEq, Eq, Structural)]
pub struct MatcherSettings {
    /// No optional separators are added: every `/` of the pattern is required.
    pub strict: bool,
    /// A match must consume all of the input.
    pub complete: bool,
    /// Literal text is compared without regard to ASCII case.
    pub case_insensitive: bool,
}

impl MatcherSettings {
    pub open spec fn default_spec() -> MatcherSettings {
        MatcherSettings { strict: false, complete: true, case_insensitive: false }
    }
}

impl Default for MatcherSettings {
    fn default() -> (r: Self)
        ensures
            r == MatcherSettings::default_spec(),
    {
        MatcherSettings { strict: false, complete: true, case_insensitive: false }
    }
}

/// Matches route strings against the optimised tokens of one pattern.
#[derive(Debug, Clone, PartialEq)]
pub struct PathMatcher {
    /// Tokens that decide how a route string is matched.
    pub tokens: Vec<MatcherToken>,
    /// Settings.
    pub settings: MatcherSettings,
}

/// The result of matching `inp` against `toks`: the unconsumed rest and the captures in order.
pub open spec fn path_match(toks: Seq<TokenModel>, st: MatcherSettings, inp: Seq<char>) -> Result<
    (Seq<char>, Seq<EntryModel>),
    MatchError,
> {
    match run(toks, 0, inp, 0, st.case_insensitive, st.complete) {
        Ok((e, cs)) => Ok((inp.skip(e), cs)),
        Err(x) => Err(x),
    }
}

/// The names that a token can record.
pub open spec fn token_name(t: TokenModel) -> Option<Seq<char>> {
    match t {
        TokenModel::Capture(c) => kind_name(c),
        _ => None,
    }
}

/// Every name that some token of `toks` records.
pub open spec fn capture_name_set(toks: Seq<TokenModel>) -> Set<Seq<char>> {
    Set::new(|n: Seq<char>| exists|i: int| 0 <= i < toks.len() && token_name(toks[i]) == Some(n))
}

/// Some token of `toks` before index `i` records the name `n`.
pub open spec fn named_before(toks: Seq<TokenModel>, i: int, n: Seq<char>) -> bool {
    exists|k: int| 0 <= k < i && token_name(toks[k]) == Some(n)
}

/// Some string of `r` has the characters `n`.
pub open spec fn listed(r: Seq<String>, n: Seq<char>) -> bool {
    exists|j: int| 0 <= j < r.len() && (#[trigger] r[j])@ == n
}

impl PathMatcher {
    pub open spec fn token_view(&self) -> Seq<TokenModel> {
        token_models(self.tokens@)
    }

    /// A matcher over parser tokens, optimised for the default settings.
    pub fn from_tokens(tokens: Vec<RouteParserToken>) -> (r: PathMatcher)
        ensures
            r.token_view() == optimize_spec(raw_models(tokens@), true),
            r.settings == MatcherSettings::default_spec(),
    {
        let settings = MatcherSettings::default();
        PathMatcher { tokens: optimize_tokens(tokens, !settings.strict), settings }
    }

    /// A matcher for the pattern `i` under `settings`; the pattern's first error otherwise.
    pub fn with_settings(i: &str, settings: MatcherSettings) -> (r: Result<PathMatcher, ParseError>)
        ensures
            match parse_spec(i@) {
                Ok(raw) => r is Ok && r->Ok_0.token_view() == optimize_spec(raw, !settings.strict)
                    && r->Ok_0.settings == settings,
                Err(e) => r == Err::<PathMatcher, ParseError>(e),
            },
    {
        match parse(i) {
            Ok(tokens) => Ok(PathMatcher { tokens: optimize_tokens(tokens, !settings.strict), settings }),
            Err(e) => Err(e),
        }
    }

    /// A matcher for the pattern `i` under the default settings.
    pub fn try_from(i: &str) -> (r: Result<PathMatcher, ParseError>)
        ensures
            match parse_spec(i@) {
                Ok(raw) => r is Ok && r->Ok_0.token_view() == optimize_spec(raw, true)
                    && r->Ok_0.settings == MatcherSettings::default_spec(),
                Err(e) => r == Err::<PathMatcher, ParseError>(e),
            },
    {
        PathMatcher::with_settings(i, MatcherSettings::default())
    }

    /// Matches a route string: the unconsumed rest and the captures, or why it does not match.
    pub fn match_path(&self, i: &str) -> (r: Result<(String, Captures), MatchError>)
        ensures
            match path_match(self.token_view(), self.settings, i@) {
                Ok((rest, cs)) => r is Ok && r->Ok_0.0@ == rest && r->Ok_0.1@ == cs,
                Err(x) => r == Err::<(String, Captures), MatchError>(x),
            },
    {
        let inp = chars_of(i);
        match run_exec(
            &self.tokens,
            0,
            &inp,
            0,
            self.settings.case_insensitive,
            self.settings.complete,
        ) {
            Ok((e, entries)) => {
                let rest = string_of_range(&inp, e, inp.len());
                assert(inp@.subrange(e as int, inp@.len() as int) =~= i@.skip(e as int));
                Ok((rest, Captures { entries }))
            },
            Err(x) => Err(x),
        }
    }

    /// Every name that this matcher can record, each once, whatever the input.
    pub fn capture_names(&self) -> (r: Vec<String>)
        ensures
            forall|n: Seq<char>|
                #[trigger] capture_name_set(self.token_view()).contains(n) <==> listed(r@, n),
            forall|a: int, b: int| 0 <= a < b < r.len() ==> r@[a]@ != r@[b]@,
    {
        let ghost tm = self.token_view();
        let mut r: Vec<String> = Vec::new();
        let mut i: usize = 0;
        while i < self.tokens.len()
            invariant
                tm == self.token_view(),
                i <= self.tokens.len(),
                forall|n: Seq<char>|
                    #[trigger] named_before(tm, i as int, n) <==> listed(r@, n),
                forall|a: int, b: int| 0 <= a < b < r.len() ==> r@[a]@ != r@[b]@,
            decreases self.tokens.len() - i,
        {
            assert(tm[i as int] == self.tokens@[i as int]@);
            match &self.tokens[i] {
                MatcherToken::Capture(c) => {
                    match variant_name(c) {
                        Some(n) => {
                            let mut seen = false;
                            let mut j: usize = 0;
                            while j < r.len()
                                invariant
                                    j <= r.len(),
                                    seen <==> exists|jj: int| 0 <= jj < j && r@[jj]@ == n@,
                                decreases r.len() - j,
                            {
                                if r[j] == n {
                                    seen = true;
                                }
                                j = j + 1;
                            }
                            if !seen {
                                let ghost old_r = r@;
                                r.push(n);
                                assert forall|nn: Seq<char>| #[trigger] listed(r@, nn) <==> (
                                listed(old_r, nn) || nn == n@) by {
                                    if nn == n@ {
                                        assert(r@[old_r.len() as int]@ == nn);
                                    }
                                    if listed(old_r, nn) {
                                        let j = choose|j: int| 0 <= j < old_r.len() && (#[trigger] old_r[j])@ == nn;
                                        assert(r@[j] == old_r[j]);
                                    }
                                    if listed(r@, nn) {
                                        let j = choose|j: int| 0 <= j < r.len() && (#[trigger] r@[j])@ == nn;
                                        if j < old_r.len() {
                                            assert(r@[j] == old_r[j]);
                                        }
                                    }
                                }
                            }
                        },
                        None => {},
                    }
                },
                _ => {},
            }
            proof {
                assert forall|n: Seq<char>| #[trigger] named_before(tm, i + 1, n) <==> named_before(tm, i as int, n)
                        || token_name(tm[i as int]) == Some(n) by {
                    if token_name(tm[i as int]) == Some(n) {
                        assert(0 <= i < i + 1);
                    }
                }
            }
            i = i + 1;
        }
        assert forall|n: Seq<char>| #[trigger] capture_name_set(tm).contains(n) <==> named_before(
            tm,
            tm.len() as int,
            n,
        ) by {}
        r
    }
}

/// A parser token that stands for fixed text: literal, separator or query/fragment marker.
pub open spec fn is_fixed(t: RawModel) -> bool {
    !(t is Capture) && !(t is End)
}

/// The text that a fixed parser token stands for.
pub open spec fn fixed_text(t: RawModel) -> Seq<char> {
    match t {
        RawModel::Separator => seq!['/'],
        RawModel::Match(x) => x,
        RawModel::QueryBegin => seq!['?'],
        RawModel::QuerySeparator => seq!['&'],
        RawModel::FragmentBegin => seq!['#'],
        _ => seq![],
    }
}

/// The text of the first `i` tokens of `raw`, one after the other.
pub open spec fn fixed_prefix(raw: Seq<RawModel>, i: int) -> Seq<char>
    decreases i,
{
    if i <= 0 {
        seq![]
    } else {
        fixed_prefix(raw, i - 1) + fixed_text(raw[i - 1])
    }
}

proof fn lemma_merge_fixed(raw: Seq<RawModel>, i: int)
    requires
        1 <= i <= raw.len(),
        forall|j: int| 0 <= j < raw.len() ==> is_fixed(#[trigger] raw[j]),
    ensures
        merge_from(converted(raw, false), i, seq![TokenModel::Match(fixed_prefix(raw, i))])
            == seq![TokenModel::Match(fixed_prefix(raw, raw.len() as int))],
    decreases raw.len() - i,
{
    let u = converted(raw, false);
    if i < raw.len() {
        assert(u[i] == convert_one(raw, i, false));
        assert(is_fixed(raw[i]));
        assert(u[i] == TokenModel::Match(fixed_text(raw[i])));
        let acc = seq![TokenModel::Match(fixed_prefix(raw, i))];
        assert(add_match(acc, u[i]) =~= seq![TokenModel::Match(fixed_prefix(raw, i + 1))]);
        lemma_merge_fixed(raw, i + 1);
    }
}

/// A strict pattern of fixed text only (no captures) matches an input, completely, exactly
/// when the input is that text.
pub proof fn lemma_fixed_pattern_matches_exactly(raw: Seq<RawModel>, inp: Seq<char>)
    requires
        forall|j: int| 0 <= j < raw.len() ==> is_fixed(#[trigger] raw[j]),
    ensures
        path_match(
            optimize_spec(raw, false),
            MatcherSettings { strict: true, complete: true, case_insensitive: false },
            inp,
        ) is Ok <==> inp == fixed_prefix(raw, raw.len() as int),
{
    let u = converted(raw, false);
    let toks = optimize_spec(raw, false);
    let text = fixed_prefix(raw, raw.len() as int);
    if raw.len() == 0 {
        assert(u =~= seq![]);
        assert(toks == Seq::<TokenModel>::empty());
        if inp.len() == 0 {
            assert(inp =~= text);
        }
    } else {
        assert(u[0] == convert_one(raw, 0, false));
        assert(is_fixed(raw[0]));
        assert(fixed_prefix(raw, 0) == Seq::<char>::empty());
        assert(fixed_prefix(raw, 1) =~= fixed_text(raw[0]));
        assert(add_match(seq![], u[0]) =~= seq![TokenModel::Match(fixed_prefix(raw, 1))]);
        lemma_merge_fixed(raw, 1);
        assert(toks == seq![TokenModel::Match(text)]);
        assert(toks.len() == 1 && toks[0] == TokenModel::Match(text));
        assert(run(toks, 1, inp, text.len() as int, false, true) == if text.len() < inp.len() {
            Err::<(int, Seq<EntryModel>), MatchError>(MatchError::TrailingInput)
        } else {
            Ok((text.len() as int, Seq::<EntryModel>::empty()))
        });
        if inp == text {
            assert(literal_at(inp, 0, text, false));
        }
        if path_match(toks, MatcherSettings { strict: true, complete: true, case_insensitive: false }, inp) is Ok {
            assert(literal_at(inp, 0, text, false));
            assert(inp.len() == text.len());
            assert forall|j: int| 0 <= j < inp.len() implies inp[j] == text[j] by {
                assert(char_matches(inp[0 + j], text[j], false));
            }
            assert(inp =~= text);
        }
    }
}

/// The text that the tokens from `k` on stand for, with each capture replaced by the text of
/// the next of `cs`.
pub open spec fn render(toks: Seq<TokenModel>, k: int, cs: Seq<EntryModel>) -> Seq<char>
    decreases toks.len() - k,
{
    if k < 0 || k >= toks.len() {
        seq![]
    } else {
        match toks[k] {
            TokenModel::Match(t) => t + render(toks, k + 1, cs),
            TokenModel::Optional(t) => t + render(toks, k + 1, cs),
            TokenModel::Capture(_) => if cs.len() > 0 {
                cs[0].1 + render(toks, k + 1, cs.drop_first())
            } else {
                render(toks, k + 1, cs)
            },
            TokenModel::End => render(toks, k + 1, cs),
        }
    }
}

proof fn lemma_segment_end_bounds(inp: Seq<char>, p: int, a: Option<char>, fold: bool)
    requires
        0 <= p <= inp.len(),
    ensures
        p <= segment_end(inp, p, a, fold) <= inp.len(),
    decreases inp.len() - p,
{
    if p < inp.len() {
        lemma_segment_end_bounds(inp, p + 1, a, fold);
    }
}

proof fn lemma_numbered_end_bounds(inp: Seq<char>, p: int, n: nat)
    requires
        0 <= p <= inp.len(),
    ensures
        numbered_end(inp, p, n) is Some ==> p <= numbered_end(inp, p, n)->0 <= inp.len(),
    decreases n,
{
    lemma_segment_end_bounds(inp, p, None, false);
    let e = segment_end(inp, p, None, false);
    if n > 1 && e < inp.len() {
        lemma_numbered_end_bounds(inp, e + 1, (n - 1) as nat);
    }
}

proof fn lemma_literal_text(inp: Seq<char>, pos: int, t: Seq<char>)
    requires
        literal_at(inp, pos, t, false),
    ensures
        inp.subrange(pos, pos + t.len()) == t,
{
    assert forall|j: int| 0 <= j < t.len() implies inp.subrange(pos, pos + t.len())[j] == t[j] by {
        assert(char_matches(inp[pos + j], t[j], false));
    }
    assert(inp.subrange(pos, pos + t.len()) =~= t);
}

proof fn lemma_run_renders(
    toks: Seq<TokenModel>,
    k: int,
    inp: Seq<char>,
    pos: int,
    complete: bool,
)
    requires
        no_optional(toks),
        0 <= k,
        0 <= pos <= inp.len(),
        run(toks, k, inp, pos, false, complete) is Ok,
    ensures
        ({
            let (e, cs) = run(toks, k, inp, pos, false, complete)->Ok_0;
            pos <= e <= inp.len() && inp.subrange(pos, e) == render(toks, k, cs) && (complete
                ==> e == inp.len())
        }),
    decreases toks.len() - k, inp.len() + 2,
{
    let r = run(toks, k, inp, pos, false, complete);
    if k >= toks.len() {
        assert(inp.subrange(pos, pos) =~= Seq::<char>::empty());
    } else {
        match toks[k] {
            TokenModel::Match(t) => {
                lemma_literal_text(inp, pos, t);
                lemma_run_renders(toks, k + 1, inp, pos + t.len(), complete);
                let (e, cs) = r->Ok_0;
                assert(inp.subrange(pos, e) =~= inp.subrange(pos, pos + t.len()) + inp.subrange(
                    pos + t.len(),
                    e,
                ));
            },
            TokenModel::Optional(t) => {
                assert(toks[k] is Optional);
            },
            TokenModel::End => {
                lemma_run_renders(toks, k + 1, inp, pos, complete);
            },
            TokenModel::Capture(c) => {
                if is_many(c) {
                    lemma_many_renders(toks, k, c, inp, pos, inp.len() as int, complete);
                } else if sections_of(c) is Some {
                    lemma_numbered_end_bounds(inp, pos, sections_of(c)->0);
                    let e1 = numbered_end(inp, pos, sections_of(c)->0)->0;
                    lemma_run_renders(toks, k + 1, inp, e1, complete);
                    let (e, cs) = r->Ok_0;
                    assert(cs.drop_first() == run(toks, k + 1, inp, e1, false, complete)->Ok_0.1);
                    assert(inp.subrange(pos, e) =~= inp.subrange(pos, e1) + inp.subrange(e1, e));
                } else {
                    let e1 = segment_end(inp, pos, anchor(toks, k + 1), false);
                    lemma_segment_end_bounds(inp, pos, anchor(toks, k + 1), false);
                    lemma_run_renders(toks, k + 1, inp, e1, complete);
                    let (e, cs) = r->Ok_0;
                    assert(cs.drop_first() == run(toks, k + 1, inp, e1, false, complete)->Ok_0.1);
                    assert(inp.subrange(pos, e) =~= inp.subrange(pos, e1) + inp.subrange(e1, e));
                }
            },
        }
    }
}

proof fn lemma_many_renders(
    toks: Seq<TokenModel>,
    k: int,
    c: CaptureKind,
    inp: Seq<char>,
    pos: int,
    e: int,
    complete: bool,
)
    requires
        no_optional(toks),
        0 <= k < toks.len(),
        toks[k] is Capture,
        0 <= pos <= e <= inp.len(),
        many_search(toks, k, c, inp, pos, e, false, complete) is Ok,
    ensures
        ({
            let (end, cs) = many_search(toks, k, c, inp, pos, e, false, complete)->Ok_0;
            pos <= end <= inp.len() && inp.subrange(pos, end) == render(toks, k, cs) && (complete
                ==> end == inp.len())
        }),
    decreases toks.len() - k, e + 1,
{
    let rest = run(toks, k + 1, inp, e, false, complete);
    if rest is Ok {
        lemma_run_renders(toks, k + 1, inp, e, complete);
        let (end, cs) = many_search(toks, k, c, inp, pos, e, false, complete)->Ok_0;
        assert(cs.drop_first() == rest->Ok_0.1);
        assert(inp.subrange(pos, end) =~= inp.subrange(pos, e) + inp.subrange(e, end));
    } else {
        lemma_many_renders(toks, k, c, inp, pos, e - 1, complete);
    }
}

/// Round trip: when a strict pattern matches an input completely, putting each captured text
/// back in place of its capture gives the input again, which the pattern matches.
pub proof fn lemma_captures_round_trip(raw: Seq<RawModel>, inp: Seq<char>)
    requires
        path_match(
            optimize_spec(raw, false),
            MatcherSettings { strict: true, complete: true, case_insensitive: false },
            inp,
        ) is Ok,
    ensures
        ({
            let st = MatcherSettings { strict: true, complete: true, case_insensitive: false };
            let (rest, cs) = path_match(optimize_spec(raw, false), st, inp)->Ok_0;
            &&& rest.len() == 0
            &&& render(optimize_spec(raw, false), 0, cs) == inp
            &&& path_match(optimize_spec(raw, false), st, render(optimize_spec(raw, false), 0, cs))
                is Ok
        }),
{
    let toks = optimize_spec(raw, false);
    lemma_strict_has_no_optional(raw);
    lemma_run_renders(toks, 0, inp, 0, true);
    let (e, cs) = run(toks, 0, inp, 0, false, true)->Ok_0;
    assert(inp.subrange(0, inp.len() as int) =~= inp);
    assert(inp.skip(e) =~= Seq::<char>::empty());
}

proof fn lemma_text_tokens_accept_render(toks: Seq<TokenModel>, k: int, inp: Seq<char>, pos: int)
    requires
        only_text(toks),
        0 <= k,
        0 <= pos <= inp.len(),
        inp.subrange(pos, inp.len() as int) == render(toks, k, seq![]),
    ensures
        run(toks, k, inp, pos, false, true) == Ok::<(int, Seq<EntryModel>), MatchError>(
            (inp.len() as int, seq![]),
        ),
    decreases toks.len() - k,
{
    if k >= toks.len() {
        assert(inp.subrange(pos, inp.len() as int).len() == 0);
    } else {
        assert(toks[k] is Match || toks[k] is Optional);
        let t = if toks[k] is Match { toks[k]->Match_0 } else { toks[k]->Optional_0 };
        let rest = render(toks, k + 1, seq![]);
        assert(inp.subrange(pos, inp.len() as int) == t + rest);
        assert forall|j: int| 0 <= j < t.len() implies char_matches(#[trigger] inp[pos + j], t[j], false) by {
            assert(inp.subrange(pos, inp.len() as int)[j] == inp[pos + j]);
            assert((t + rest)[j] == t[j]);
        }
        assert(literal_at(inp, pos, t, false));
        assert forall|j: int| 0 <= j < rest.len() implies inp.subrange(
            pos + t.len(),
            inp.len() as int,
        )[j] == rest[j] by {
            assert(inp.subrange(pos, inp.len() as int)[t.len() + j] == (t + rest)[t.len() + j]);
        }
        assert(inp.subrange(pos + t.len(), inp.len() as int) =~= rest);
        lemma_text_tokens_accept_render(toks, k + 1, inp, pos + t.len());
    }
}

/// A pattern without captures or an end mark, optimised with or without optional
/// separators, matches completely the text of its tokens with every optional separator
/// written out.
pub proof fn lemma_fixed_pattern_accepts_its_text(raw: Seq<RawModel>, allow_optional: bool)
    requires
        forall|j: int| 0 <= j < raw.len() ==> !(#[trigger] raw[j] is Capture) && !(raw[j] is End),
    ensures
        path_match(
            optimize_spec(raw, allow_optional),
            MatcherSettings { strict: !allow_optional, complete: true, case_insensitive: false },
            render(optimize_spec(raw, allow_optional), 0, seq![]),
        ) is Ok,
{
    let toks = optimize_spec(raw, allow_optional);
    let inp = render(toks, 0, seq![]);
    lemma_fixed_optimizes_to_text(raw, allow_optional);
    assert(inp.subrange(0, inp.len() as int) =~= inp);
    lemma_text_tokens_accept_render(toks, 0, inp, 0);
}

} // verus!
