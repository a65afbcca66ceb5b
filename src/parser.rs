//! The pattern parser: a pattern string to parser tokens.
use vstd::prelude::*;
use crate::decimal::{all_digits, digits_value, parse_decimal};
use crate::text::{chars_of, concat_strings, string_of_char, string_of_range};
use crate::token::{CaptureKind, CaptureVariant, RawModel, RouteParserToken, raw_models};

verus! {

/// The part of a pattern being read.
#[derive(Debug, Clone, Copy, PartialEq, Eq, Structural)]
pub enum Section {
    Path,
    Query,
    Fragment,
}

/// What is wrong with a pattern.
#[derive(Debug, Clone, Copy, PartialEq, Eq, Structural)]
pub enum ParseErrorKind {
    /// A `{` without a closing `}`.
    UnterminatedCapture,
    /// The text between `{` and `}` is no capture form.
    InvalidCapture,
    /// A single `}` outside a capture.
    UnexpectedBrace,
    /// A single `!` that is not the last character.
    MisplacedExclamation,
    /// A second `?`.
    MisplacedQuery,
    /// A second `#`.
    MisplacedFragment,
}

/// A malformed pattern: what is wrong, and the character position where it was found.
#[derive(Debug, Clone, Copy, PartialEq, Eq, Structural)]
pub struct ParseError {
    pub position: usize,
    pub kind: ParseErrorKind,
}

pub open spec fn is_ident_start(c: char) -> bool {
    ('a' <= c && c <= 'z') || ('A' <= c && c <= 'Z') || c == '_'
}

pub open spec fn is_ident_char(c: char) -> bool {
    is_ident_start(c) || ('0' <= c && c <= '9')
}

/// `s` is a capture name: a letter or `_`, then letters, digits or `_`.
pub open spec fn is_ident(s: Seq<char>) -> bool {
    &&& s.len() > 0
    &&& is_ident_start(s[0])
    &&& forall|i: int| 0 <= i < s.len() ==> is_ident_char(#[trigger] s[i])
}

/// The index of the first `ch` in `s` at or after `i`, or `s.len()`.
pub open spec fn find_from(s: Seq<char>, i: int, ch: char) -> int
    decreases s.len() - i,
{
    if i >= s.len() {
        s.len() as int
    } else if s[i] == ch {
        i
    } else {
        find_from(s, i + 1, ch)
    }
}

/// A section count: digits that write a number from 1 to `usize::MAX`.
pub open spec fn is_count(s: Seq<char>) -> bool {
    all_digits(s) && 1 <= digits_value(s) <= usize::MAX
}

/// The capture that the text between `{` and `}` describes, if any.
pub open spec fn capture_of(s: Seq<char>) -> Option<CaptureKind> {
    let c = find_from(s, 0, ':');
    if c == s.len() {
        if s.len() == 0 {
            Some(CaptureKind::Unnamed)
        } else if s == seq!['*'] {
            Some(CaptureKind::ManyUnnamed)
        } else if is_count(s) {
            Some(CaptureKind::NumberedUnnamed(digits_value(s)))
        } else if is_ident(s) {
            Some(CaptureKind::Named(s))
        } else {
            None
        }
    } else {
        let head = s.take(c);
        let name = s.skip(c + 1);
        if !is_ident(name) {
            None
        } else if head == seq!['*'] {
            Some(CaptureKind::ManyNamed(name))
        } else if is_count(head) {
            Some(CaptureKind::NumberedNamed(digits_value(head), name))
        } else {
            None
        }
    }
}

/// `acc` with literal text `t` added, joined to a literal that ends `acc`.
pub open spec fn add_literal(acc: Seq<RawModel>, t: Seq<char>) -> Seq<RawModel> {
    if acc.len() > 0 && acc.last() is Match {
        acc.drop_last().push(RawModel::Match(acc.last()->Match_0 + t))
    } else {
        acc.push(RawModel::Match(t))
    }
}

pub open spec fn parse_err(i: int, kind: ParseErrorKind) -> Result<Seq<RawModel>, ParseError> {
    Err(ParseError { position: i as usize, kind })
}

/// Parsing of `p` from position `i` on, in section `sec`, after the tokens `acc`.
pub open spec fn parse_from(p: Seq<char>, i: int, sec: Section, acc: Seq<RawModel>) -> Result<
    Seq<RawModel>,
    ParseError,
>
    decreases p.len() - i,
{
    if i < 0 || i >= p.len() {
        Ok(acc)
    } else {
        let c = p[i];
        let doubled = i + 1 < p.len() && p[i + 1] == c;
        if c == '!' {
            if doubled {
                parse_from(p, i + 2, sec, add_literal(acc, seq!['!']))
            } else if i + 1 == p.len() {
                parse_from(p, i + 1, sec, acc.push(RawModel::End))
            } else {
                parse_err(i, ParseErrorKind::MisplacedExclamation)
            }
        } else if c == '{' {
            if doubled {
                parse_from(p, i + 2, sec, add_literal(acc, seq!['{']))
            } else {
                let j = find_from(p, i + 1, '}');
                if j >= p.len() || j <= i {
                    parse_err(i, ParseErrorKind::UnterminatedCapture)
                } else {
                    match capture_of(p.subrange(i + 1, j)) {
                        None => parse_err(i, ParseErrorKind::InvalidCapture),
                        Some(k) => parse_from(p, j + 1, sec, acc.push(RawModel::Capture(k))),
                    }
                }
            }
        } else if c == '}' {
            if doubled {
                parse_from(p, i + 2, sec, add_literal(acc, seq!['}']))
            } else {
                parse_err(i, ParseErrorKind::UnexpectedBrace)
            }
        } else if c == '/' {
            parse_from(p, i + 1, sec, acc.push(RawModel::Separator))
        } else if c == '?' && sec == Section::Path {
            parse_from(p, i + 1, Section::Query, acc.push(RawModel::QueryBegin))
        } else if c == '?' && sec == Section::Query {
            parse_err(i, ParseErrorKind::MisplacedQuery)
        } else if c == '&' && sec == Section::Query {
            parse_from(p, i + 1, sec, acc.push(RawModel::QuerySeparator))
        } else if c == '#' && sec != Section::Fragment {
            parse_from(p, i + 1, Section::Fragment, acc.push(RawModel::FragmentBegin))
        } else if c == '#' {
            parse_err(i, ParseErrorKind::MisplacedFragment)
        } else {
            parse_from(p, i + 1, sec, add_literal(acc, seq![c]))
        }
    }
}

/// The tokens of the pattern `p`, or the first error in it.
pub open spec fn parse_spec(p: Seq<char>) -> Result<Seq<RawModel>, ParseError> {
    parse_from(p, 0, Section::Path, seq![])
}

fn find_from_exec(v: &Vec<char>, i: usize, ch: char) -> (r: usize)
    requires
        i <= v.len(),
    ensures
        r == find_from(v@, i as int, ch),
        i <= r <= v.len(),
{
    let mut j: usize = i;
    while j < v.len() && v[j] != ch
        invariant
            i <= j <= v.len(),
            find_from(v@, i as int, ch) == find_from(v@, j as int, ch),
        decreases v.len() - j,
    {
        j = j + 1;
    }
    j
}

fn copy_range(v: &Vec<char>, from: usize, to: usize) -> (r: Vec<char>)
    requires
        from <= to <= v.len(),
    ensures
        r@ == v@.subrange(from as int, to as int),
{
    let mut r: Vec<char> = Vec::new();
    let mut i: usize = from;
    while i < to
        invariant
            from <= i <= to <= v.len(),
            r@ == v@.subrange(from as int, i as int),
        decreases to - i,
    {
        r.push(v[i]);
        i = i + 1;
        assert(r@ =~= v@.subrange(from as int, i as int));
    }
    r
}

fn is_ident_exec(v: &Vec<char>, from: usize, to: usize) -> (r: bool)
    requires
        from <= to <= v.len(),
    ensures
        r == is_ident(v@.subrange(from as int, to as int)),
{
    let ghost s = v@.subrange(from as int, to as int);
    if from == to {
        return false;
    }
    let c0 = v[from];
    if !(('a' <= c0 && c0 <= 'z') || ('A' <= c0 && c0 <= 'Z') || c0 == '_') {
        assert(s[0] == c0);
        return false;
    }
    let mut i: usize = from;
    while i < to
        invariant
            from <= i <= to <= v.len(),
            s == v@.subrange(from as int, to as int),
            forall|j: int| 0 <= j < i - from ==> is_ident_char(#[trigger] s[j]),
        decreases to - i,
    {
        let c = v[i];
        if !(('a' <= c && c <= 'z') || ('A' <= c && c <= 'Z') || c == '_' || ('0' <= c && c
            <= '9')) {
            assert(s[i - from] == c);
            return false;
        }
        i = i + 1;
    }
    true
}

/// The capture that the characters `s` (the text between `{` and `}`) describe, if any.
fn capture_of_exec(s: &Vec<char>) -> (r: Option<CaptureVariant>)
    ensures
        r is Some <==> capture_of(s@) is Some,
        r is Some ==> r->0@ == capture_of(s@)->0,
{
    let n = s.len();
    let c = find_from_exec(s, 0, ':');
    if c == n {
        if n == 0 {
            return Some(CaptureVariant::Unnamed);
        }
        if n == 1 && s[0] == '*' {
            assert(s@ =~= seq!['*']);
            return Some(CaptureVariant::ManyUnnamed);
        }
        assert(s@ != seq!['*'] || (n == 1 && s@[0] == '*'));
        assert(s@.subrange(0, n as int) =~= s@);
        match parse_decimal(s, 0, n, usize::MAX) {
            Some(v) => {
                if v >= 1 {
                    return Some(CaptureVariant::NumberedUnnamed { sections: v });
                }
            },
            None => {},
        }
        if is_ident_exec(s, 0, n) {
            let name = string_of_range(s, 0, n);
            return Some(CaptureVariant::Named(name));
        }
        None
    } else {
        assert(s@.take(c as int) =~= s@.subrange(0, c as int));
        assert(s@.skip(c + 1) =~= s@.subrange(c + 1, n as int));
        if !is_ident_exec(s, c + 1, n) {
            return None;
        }
        let name = string_of_range(s, c + 1, n);
        if c == 1 && s[0] == '*' {
            assert(s@.take(1) =~= seq!['*']);
            return Some(CaptureVariant::ManyNamed(name));
        }
        assert(s@.take(c as int) != seq!['*'] || (c == 1 && s@[0] == '*'));
        match parse_decimal(s, 0, c, usize::MAX) {
            Some(v) => {
                if v >= 1 {
                    return Some(CaptureVariant::NumberedNamed { sections: v, name });
                }
                None
            },
            None => None,
        }
    }
}

fn push_token(acc: &mut Vec<RouteParserToken>, t: RouteParserToken)
    ensures
        raw_models(final(acc)@) == raw_models(old(acc)@).push(t@),
{
    acc.push(t);
    assert(raw_models(acc@) =~= raw_models(old(acc)@).push(t@));
}

fn add_literal_exec(acc: &mut Vec<RouteParserToken>, t: String)
    ensures
        raw_models(final(acc)@) == add_literal(raw_models(old(acc)@), t@),
{
    let n = acc.len();
    if n > 0 && matches!(acc[n - 1], RouteParserToken::Match(_)) {
        let last = acc.pop().unwrap();
        assert(raw_models(acc@) =~= raw_models(old(acc)@).drop_last());
        match last {
            RouteParserToken::Match(prev) => {
                let joined = concat_strings(&prev, &t);
                push_token(acc, RouteParserToken::Match(joined));
            },
            _ => {},
        }
    } else {
        push_token(acc, RouteParserToken::Match(t));
    }
}

/// Parses a pattern into tokens; the first malformed part is reported with its position.
pub fn parse(p: &str) -> (r: Result<Vec<RouteParserToken>, ParseError>)
    ensures
        match r {
            Ok(v) => parse_spec(p@) == Ok::<Seq<RawModel>, ParseError>(raw_models(v@)),
            Err(e) => parse_spec(p@) == Err::<Seq<RawModel>, ParseError>(e),
        },
{
    let pv = chars_of(p);
    let n = pv.len();
    let mut acc: Vec<RouteParserToken> = Vec::new();
    let mut sec = Section::Path;
    let mut i: usize = 0;
    assert(raw_models(acc@) =~= seq![]);
    while i < n
        invariant
            pv@ == p@,
            n == pv.len(),
            i <= n,
            parse_spec(p@) == parse_from(pv@, i as int, sec, raw_models(acc@)),
        decreases n - i,
    {
        let c = pv[i];
        let doubled = i + 1 < n && pv[i + 1] == c;
        if c == '!' {
            if doubled {
                add_literal_exec(&mut acc, string_of_char('!'));
                i = i + 2;
            } else if i + 1 == n {
                push_token(&mut acc, RouteParserToken::End);
                i = i + 1;
            } else {
                return Err(ParseError { position: i, kind: ParseErrorKind::MisplacedExclamation });
            }
        } else if c == '{' {
            if doubled {
                add_literal_exec(&mut acc, string_of_char('{'));
                i = i + 2;
            } else {
                let j = find_from_exec(&pv, i + 1, '}');
                if j >= n {
                    return Err(ParseError { position: i, kind: ParseErrorKind::UnterminatedCapture });
                }
                let inner = copy_range(&pv, i + 1, j);
                match capture_of_exec(&inner) {
                    None => {
                        return Err(ParseError { position: i, kind: ParseErrorKind::InvalidCapture });
                    },
                    Some(v) => {
                        push_token(&mut acc, RouteParserToken::Capture(v));
                        i = j + 1;
                    },
                }
            }
        } else if c == '}' {
            if doubled {
                add_literal_exec(&mut acc, string_of_char('}'));
                i = i + 2;
            } else {
                return Err(ParseError { position: i, kind: ParseErrorKind::UnexpectedBrace });
            }
        } else if c == '/' {
            push_token(&mut acc, RouteParserToken::Separator);
            i = i + 1;
        } else if c == '?' && sec == Section::Path {
            push_token(&mut acc, RouteParserToken::QueryBegin);
            sec = Section::Query;
            i = i + 1;
        } else if c == '?' && sec == Section::Query {
            return Err(ParseError { position: i, kind: ParseErrorKind::MisplacedQuery });
        } else if c == '&' && sec == Section::Query {
            push_token(&mut acc, RouteParserToken::QuerySeparator);
            i = i + 1;
        } else if c == '#' && sec != Section::Fragment {
            push_token(&mut acc, RouteParserToken::FragmentBegin);
            sec = Section::Fragment;
            i = i + 1;
        } else if c == '#' {
            return Err(ParseError { position: i, kind: ParseErrorKind::MisplacedFragment });
        } else {
            add_literal_exec(&mut acc, string_of_char(c));
            i = i + 1;
        }
    }
    Ok(acc)
}

} // verus!
