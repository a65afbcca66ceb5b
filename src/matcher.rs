//! The matching engine: walks an input against optimised tokens.
use vstd::prelude::*;
use crate::captures::{CaptureEntry, EntryModel, entry_models, opt_string_view};
use crate::text::{char_matches, chars_match, chars_of, string_of_range};
use crate::token::{
    CaptureKind, CaptureVariant, MatcherToken, TokenModel, kind_name, token_models, variant_name,
};

verus! {

/// Why an input does not belong to a pattern.
#[derive(Debug, Clone, Copy, PartialEq, Eq, Structural)]
pub enum MatchError {
    /// Literal text of the pattern differs from the input.
    LiteralMismatch,
    /// Input is left over where the pattern requires its end.
    TrailingInput,
    /// A capture cannot find the input it needs.
    CaptureUnsatisfiable,
    /// The input ended before a required literal.
    InputExhausted,
}

/// The outcome of matching: where the cursor ended and what was captured, in order.
pub type Outcome = Result<(int, Seq<EntryModel>), MatchError>;

/// `t` stands in `inp` at `pos`, comparing characters as `fold` says.
pub open spec fn literal_at(inp: Seq<char>, pos: int, t: Seq<char>, fold: bool) -> bool {
    &&& 0 <= pos
    &&& pos + t.len() <= inp.len()
    &&& forall|j: int| 0 <= j < t.len() ==> char_matches(#[trigger] inp[pos + j], t[j], fold)
}

/// The first character that the token at `k` requires, if it is literal text.
pub open spec fn anchor(toks: Seq<TokenModel>, k: int) -> Option<char> {
    if 0 <= k < toks.len() {
        match toks[k] {
            TokenModel::Match(t) => if t.len() > 0 { Some(t[0]) } else { None },
            TokenModel::Optional(t) => if t.len() > 0 { Some(t[0]) } else { None },
            _ => None,
        }
    } else {
        None
    }
}

/// A one-segment capture stops before `c`.
pub open spec fn stops_at(c: char, a: Option<char>, fold: bool) -> bool {
    c == '/' || (a is Some && char_matches(c, a->0, fold))
}

/// The first position at or after `p` where a one-segment capture stops, or the end of input.
pub open spec fn segment_end(inp: Seq<char>, p: int, a: Option<char>, fold: bool) -> int
    decreases inp.len() - p,
{
    if p >= inp.len() {
        inp.len() as int
    } else if stops_at(inp[p], a, fold) {
        p
    } else {
        segment_end(inp, p + 1, a, fold)
    }
}

/// Where `n` segments that start at `p` end; `None` when the input has fewer.
pub open spec fn numbered_end(inp: Seq<char>, p: int, n: nat) -> Option<int>
    decreases n,
{
    let e = segment_end(inp, p, None, false);
    if n <= 1 {
        Some(e)
    } else if e >= inp.len() {
        None
    } else {
        numbered_end(inp, e + 1, (n - 1) as nat)
    }
}

/// The section count of a numbered capture.
pub open spec fn sections_of(c: CaptureKind) -> Option<nat> {
    match c {
        CaptureKind::NumberedUnnamed(n) => Some(n),
        CaptureKind::NumberedNamed(n, _) => Some(n),
        _ => None,
    }
}

/// A capture that spans any number of segments.
pub open spec fn is_many(c: CaptureKind) -> bool {
    c is ManyUnnamed || c is ManyNamed
}

/// `rest`, with the capture `(name, value)` in front when it succeeded.
pub open spec fn with_capture(name: Option<Seq<char>>, value: Seq<char>, rest: Outcome) -> Outcome {
    match rest {
        Ok((e, cs)) => Ok((e, seq![(name, value)] + cs)),
        Err(x) => Err(x),
    }
}

/// Matching of the tokens from index `k` on, against the input from `pos` on.
pub open spec fn run(
    toks: Seq<TokenModel>,
    k: int,
    inp: Seq<char>,
    pos: int,
    fold: bool,
    complete: bool,
) -> Outcome
    decreases toks.len() - k, inp.len() + 2,
{
    if k < 0 || k >= toks.len() {
        if complete && pos < inp.len() {
            Err(MatchError::TrailingInput)
        } else {
            Ok((pos, seq![]))
        }
    } else {
        match toks[k] {
            TokenModel::Match(t) => {
                if literal_at(inp, pos, t, fold) {
                    run(toks, k + 1, inp, pos + t.len(), fold, complete)
                } else if pos >= inp.len() {
                    Err(MatchError::InputExhausted)
                } else {
                    Err(MatchError::LiteralMismatch)
                }
            },
            TokenModel::Optional(t) => {
                if literal_at(inp, pos, t, fold) {
                    run(toks, k + 1, inp, pos + t.len(), fold, complete)
                } else {
                    run(toks, k + 1, inp, pos, fold, complete)
                }
            },
            TokenModel::End => {
                if pos < inp.len() {
                    Err(MatchError::TrailingInput)
                } else {
                    run(toks, k + 1, inp, pos, fold, complete)
                }
            },
            TokenModel::Capture(c) => {
                if is_many(c) {
                    many_search(toks, k, c, inp, pos, inp.len() as int, fold, complete)
                } else if sections_of(c) is Some {
                    match numbered_end(inp, pos, sections_of(c)->0) {
                        None => Err(MatchError::CaptureUnsatisfiable),
                        Some(e) => with_capture(
                            kind_name(c),
                            inp.subrange(pos, e),
                            run(toks, k + 1, inp, e, fold, complete),
                        ),
                    }
                } else if k + 1 < toks.len() && toks[k + 1] is Capture {
                    Err(MatchError::CaptureUnsatisfiable)
                } else {
                    let e = segment_end(inp, pos, anchor(toks, k + 1), fold);
                    with_capture(
                        kind_name(c),
                        inp.subrange(pos, e),
                        run(toks, k + 1, inp, e, fold, complete),
                    )
                }
            },
        }
    }
}

/// A many-capture at `k` that starts at `pos`: the longest run `pos..e` (trying `e` from
/// the given value downwards) after which the remaining tokens match.
pub open spec fn many_search(
    toks: Seq<TokenModel>,
    k: int,
    c: CaptureKind,
    inp: Seq<char>,
    pos: int,
    e: int,
    fold: bool,
    complete: bool,
) -> Outcome
    decreases toks.len() - k, e + 1,
{
    if k < 0 || k >= toks.len() || e < 0 {
        Err(MatchError::CaptureUnsatisfiable)
    } else {
        match run(toks, k + 1, inp, e, fold, complete) {
            Ok((end, cs)) => Ok((end, seq![(kind_name(c), inp.subrange(pos, e))] + cs)),
            Err(_) => {
                if e <= pos {
                    Err(MatchError::CaptureUnsatisfiable)
                } else {
                    many_search(toks, k, c, inp, pos, e - 1, fold, complete)
                }
            },
        }
    }
}

/// The model of an executable outcome.
pub open spec fn outcome_of(r: Result<(usize, Vec<CaptureEntry>), MatchError>) -> Outcome {
    match r {
        Ok((e, v)) => Ok((e as int, entry_models(v@))),
        Err(x) => Err(x),
    }
}

fn literal_here(inp: &Vec<char>, pos: usize, t: &Vec<char>, fold: bool) -> (r: bool)
    requires
        pos <= inp.len(),
    ensures
        r == literal_at(inp@, pos as int, t@, fold),
{
    if t.len() > inp.len() - pos {
        return false;
    }
    let mut j: usize = 0;
    while j < t.len()
        invariant
            pos + t.len() <= inp.len(),
            j <= t.len(),
            forall|jj: int| 0 <= jj < j ==> char_matches(#[trigger] inp@[pos + jj], t@[jj], fold),
        decreases t.len() - j,
    {
        if !chars_match(inp[pos + j], t[j], fold) {
            return false;
        }
        j = j + 1;
    }
    true
}

fn stops_here(c: char, a: Option<char>, fold: bool) -> (r: bool)
    ensures
        r == stops_at(c, a, fold),
{
    if c == '/' {
        return true;
    }
    match a {
        Some(x) => chars_match(c, x, fold),
        None => false,
    }
}

fn segment_end_exec(inp: &Vec<char>, p: usize, a: Option<char>, fold: bool) -> (r: usize)
    requires
        p <= inp.len(),
    ensures
        r == segment_end(inp@, p as int, a, fold),
        p <= r <= inp.len(),
{
    let mut i: usize = p;
    while i < inp.len() && !stops_here(inp[i], a, fold)
        invariant
            p <= i <= inp.len(),
            segment_end(inp@, p as int, a, fold) == segment_end(inp@, i as int, a, fold),
        decreases inp.len() - i,
    {
        i = i + 1;
    }
    i
}

fn numbered_end_exec(inp: &Vec<char>, p: usize, n: usize) -> (r: Option<usize>)
    requires
        p <= inp.len(),
    ensures
        r is Some == numbered_end(inp@, p as int, n as nat) is Some,
        r is Some ==> r->0 == numbered_end(inp@, p as int, n as nat)->0 && p <= r->0 <= inp.len(),
    decreases n,
{
    let e = segment_end_exec(inp, p, None, false);
    if n <= 1 {
        Some(e)
    } else if e >= inp.len() {
        None
    } else {
        match numbered_end_exec(inp, e + 1, n - 1) {
            Some(x) => Some(x),
            None => None,
        }
    }
}

fn anchor_exec(toks: &Vec<MatcherToken>, k: usize) -> (r: Option<char>)
    ensures
        r == anchor(token_models(toks@), k as int),
{
    if k < toks.len() {
        match &toks[k] {
            MatcherToken::Match(t) => {
                let cs = chars_of(t.as_str());
                if cs.len() > 0 { Some(cs[0]) } else { None }
            },
            MatcherToken::Optional(t) => {
                let cs = chars_of(t.as_str());
                if cs.len() > 0 { Some(cs[0]) } else { None }
            },
            _ => None,
        }
    } else {
        None
    }
}

fn with_capture_exec(
    name: Option<String>,
    value: String,
    rest: Result<(usize, Vec<CaptureEntry>), MatchError>,
) -> (r: Result<(usize, Vec<CaptureEntry>), MatchError>)
    ensures
        outcome_of(r) == with_capture(
            opt_string_view(name),
            value@,
            outcome_of(rest),
        ),
        r is Ok <==> rest is Ok,
        r is Ok ==> r->Ok_0.0 == rest->Ok_0.0,
{
    match rest {
        Ok((e, mut cs)) => {
            let ghost old_cs = cs@;
            cs.insert(0, CaptureEntry { name, value });
            assert(entry_models(cs@) =~= seq![(opt_string_view(name), value@)]
                + entry_models(old_cs));
            Ok((e, cs))
        },
        Err(x) => Err(x),
    }
}

pub(crate) fn run_exec(
    toks: &Vec<MatcherToken>,
    k: usize,
    inp: &Vec<char>,
    pos: usize,
    fold: bool,
    complete: bool,
) -> (r: Result<(usize, Vec<CaptureEntry>), MatchError>)
    requires
        k <= toks.len(),
        pos <= inp.len(),
    ensures
        outcome_of(r) == run(token_models(toks@), k as int, inp@, pos as int, fold, complete),
        r is Ok ==> pos <= r->Ok_0.0 <= inp.len(),
    decreases toks.len() - k, inp.len() + 2,
{
    let ghost tm = token_models(toks@);
    if k >= toks.len() {
        if complete && pos < inp.len() {
            return Err(MatchError::TrailingInput);
        } else {
            let v: Vec<CaptureEntry> = Vec::new();
            assert(entry_models(v@) =~= seq![]);
            return Ok((pos, v));
        }
    }
    assert(tm[k as int] == toks@[k as int]@);
    match &toks[k] {
        MatcherToken::Match(t) => {
            let tc = chars_of(t.as_str());
            if literal_here(inp, pos, &tc, fold) {
                run_exec(toks, k + 1, inp, pos + tc.len(), fold, complete)
            } else if pos >= inp.len() {
                Err(MatchError::InputExhausted)
            } else {
                Err(MatchError::LiteralMismatch)
            }
        },
        MatcherToken::Optional(t) => {
            let tc = chars_of(t.as_str());
            if literal_here(inp, pos, &tc, fold) {
                run_exec(toks, k + 1, inp, pos + tc.len(), fold, complete)
            } else {
                run_exec(toks, k + 1, inp, pos, fold, complete)
            }
        },
        MatcherToken::End => {
            if pos < inp.len() {
                Err(MatchError::TrailingInput)
            } else {
                run_exec(toks, k + 1, inp, pos, fold, complete)
            }
        },
        MatcherToken::Capture(c) => {
            match c {
                CaptureVariant::ManyUnnamed | CaptureVariant::ManyNamed(_) => {
                    many_search_exec(toks, k, c, inp, pos, inp.len(), fold, complete)
                },
                CaptureVariant::NumberedUnnamed { sections }
                | CaptureVariant::NumberedNamed { sections, .. } => {
                    match numbered_end_exec(inp, pos, *sections) {
                        None => Err(MatchError::CaptureUnsatisfiable),
                        Some(e) => {
                            let rest = run_exec(toks, k + 1, inp, e, fold, complete);
                            with_capture_exec(variant_name(c), string_of_range(inp, pos, e), rest)
                        },
                    }
                },
                _ => {
                    if k + 1 < toks.len() && matches!(toks[k + 1], MatcherToken::Capture(_)) {
                        assert(tm[k + 1] == toks@[k + 1]@);
                        Err(MatchError::CaptureUnsatisfiable)
                    } else {
                        proof {
                            if k + 1 < toks.len() {
                                assert(tm[k + 1] == toks@[k + 1]@);
                            }
                        }
                        let a = anchor_exec(toks, k + 1);
                        let e = segment_end_exec(inp, pos, a, fold);
                        let rest = run_exec(toks, k + 1, inp, e, fold, complete);
                        with_capture_exec(variant_name(c), string_of_range(inp, pos, e), rest)
                    }
                },
            }
        },
    }
}

fn many_search_exec(
    toks: &Vec<MatcherToken>,
    k: usize,
    c: &CaptureVariant,
    inp: &Vec<char>,
    pos: usize,
    e: usize,
    fold: bool,
    complete: bool,
) -> (r: Result<(usize, Vec<CaptureEntry>), MatchError>)
    requires
        k < toks.len(),
        pos <= e <= inp.len(),
    ensures
        outcome_of(r) == many_search(
            token_models(toks@),
            k as int,
            c@,
            inp@,
            pos as int,
            e as int,
            fold,
            complete,
        ),
        r is Ok ==> pos <= r->Ok_0.0 <= inp.len(),
    decreases toks.len() - k, e + 1,
{
    let rest = run_exec(toks, k + 1, inp, e, fold, complete);
    match rest {
        Ok(_) => with_capture_exec(variant_name(c), string_of_range(inp, pos, e), rest),
        Err(_) => {
            if e <= pos {
                Err(MatchError::CaptureUnsatisfiable)
            } else {
                many_search_exec(toks, k, c, inp, pos, e - 1, fold, complete)
            }
        },
    }
}

} // verus!
