//! Values built from route sections, and the wrappers that compose over them.
use vstd::prelude::*;
use crate::decimal::{all_digits, digits_value, parse_decimal};
use crate::text::{chars_of, string_of_range};

verus! {

/// A type whose values can be built from (a section of) a route.
pub trait Switch: Sized {
    /// `r` is what `from_path` may return for `path`.
    spec fn switch_ok(path: Seq<char>, r: Option<Self>) -> bool;

    /// `r` is what `key_not_available` may return.
    spec fn missing_ok(r: Option<Self>) -> bool;

    /// Based on a route, possibly produce a value.
    fn from_path(path: &str) -> (r: Option<Self>)
        ensures
            Self::switch_ok(path@, r),
    ;

    /// Parses an owned route.
    fn from_route(part: String) -> (r: Option<Self>)
        ensures
            Self::switch_ok(part@, r),
    ;

    /// The value that stands for a section that is absent, if the type has one.
    fn key_not_available() -> (r: Option<Self>)
        ensures
            Self::missing_ok(r),
    ;
}

/// The characters `s` with a leading `+` removed.
pub open spec fn unsigned_digits(s: Seq<char>) -> Seq<char> {
    if s.len() > 0 && s[0] == '+' {
        s.skip(1)
    } else {
        s
    }
}

/// The `usize` that `s` writes in decimal: an optional `+`, then digits.
pub open spec fn usize_of(s: Seq<char>) -> Option<usize> {
    let d = unsigned_digits(s);
    if all_digits(d) && digits_value(d) <= usize::MAX {
        Some(digits_value(d) as usize)
    } else {
        None
    }
}

/// The `isize` that `s` writes in decimal: an optional `+` or `-`, then digits.
pub open spec fn isize_of(s: Seq<char>) -> Option<isize> {
    if s.len() > 0 && s[0] == '-' {
        let d = s.skip(1);
        if all_digits(d) && digits_value(d) <= isize::MAX + 1 {
            Some((0 - digits_value(d)) as isize)
        } else {
            None
        }
    } else {
        let d = unsigned_digits(s);
        if all_digits(d) && digits_value(d) <= isize::MAX {
            Some(digits_value(d) as isize)
        } else {
            None
        }
    }
}

impl Switch for String {
    open spec fn switch_ok(path: Seq<char>, r: Option<Self>) -> bool {
        r is Some && r->0@ == path
    }

    open spec fn missing_ok(r: Option<Self>) -> bool {
        r is None
    }

    fn from_path(path: &str) -> (r: Option<Self>) {
        Some(path.to_owned())
    }

    fn from_route(part: String) -> (r: Option<Self>) {
        Some(part)
    }

    fn key_not_available() -> (r: Option<Self>) {
        None
    }
}

fn parse_unsigned(v: &Vec<char>, limit: usize) -> (r: Option<usize>)
    ensures
        r is Some <==> (all_digits(unsigned_digits(v@)) && digits_value(unsigned_digits(v@))
            <= limit),
        r is Some ==> r->0 == digits_value(unsigned_digits(v@)),
{
    let start: usize = if v.len() > 0 && v[0] == '+' { 1 } else { 0 };
    assert(v@.subrange(start as int, v@.len() as int) =~= unsigned_digits(v@));
    parse_decimal(v, start, v.len(), limit)
}

impl Switch for usize {
    open spec fn switch_ok(path: Seq<char>, r: Option<Self>) -> bool {
        r == usize_of(path)
    }

    open spec fn missing_ok(r: Option<Self>) -> bool {
        r is None
    }

    fn from_path(path: &str) -> (r: Option<Self>) {
        let v = chars_of(path);
        parse_unsigned(&v, usize::MAX)
    }

    fn from_route(part: String) -> (r: Option<Self>) {
        Self::from_path(part.as_str())
    }

    fn key_not_available() -> (r: Option<Self>) {
        None
    }
}

impl Switch for isize {
    open spec fn switch_ok(path: Seq<char>, r: Option<Self>) -> bool {
        r == isize_of(path)
    }

    open spec fn missing_ok(r: Option<Self>) -> bool {
        r is None
    }

    fn from_path(path: &str) -> (r: Option<Self>) {
        let v = chars_of(path);
        if v.len() > 0 && v[0] == '-' {
            assert(v@.subrange(1, v@.len() as int) =~= v@.skip(1));
            match parse_decimal(&v, 1, v.len(), (isize::MAX as usize) + 1) {
                Some(m) => {
                    if m == (isize::MAX as usize) + 1 {
                        Some(isize::MIN)
                    } else {
                        Some(0 - (m as isize))
                    }
                },
                None => None,
            }
        } else {
            match parse_unsigned(&v, isize::MAX as usize) {
                Some(m) => Some(m as isize),
                None => None,
            }
        }
    }

    fn from_route(part: String) -> (r: Option<Self>) {
        Self::from_path(part.as_str())
    }

    fn key_not_available() -> (r: Option<Self>) {
        None
    }
}

/// An optional value: a section that is absent gives `Some(None)`.
impl<U: Switch> Switch for Option<U> {
    open spec fn switch_ok(path: Seq<char>, r: Option<Self>) -> bool {
        match r {
            Some(Some(u)) => U::switch_ok(path, Some(u)),
            Some(None) => false,
            None => U::switch_ok(path, None),
        }
    }

    open spec fn missing_ok(r: Option<Self>) -> bool {
        r == Some(None::<U>)
    }

    fn from_path(path: &str) -> (r: Option<Self>) {
        match U::from_path(path) {
            Some(u) => Some(Some(u)),
            None => None,
        }
    }

    fn from_route(part: String) -> (r: Option<Self>) {
        match U::from_route(part) {
            Some(u) => Some(Some(u)),
            None => None,
        }
    }

    fn key_not_available() -> (r: Option<Self>) {
        Some(None)
    }
}

/// Wrapper that requires a route to start with `/`; the rest builds the inner value.
#[derive(Debug, Clone, Copy, PartialEq, Eq, Hash, PartialOrd, Ord)]
pub struct LeadingSlash<T>(pub T);

pub open spec fn starts_with(s: Seq<char>, c: char) -> bool {
    s.len() > 0 && s[0] == c
}

impl<U: Switch> Switch for LeadingSlash<U> {
    open spec fn switch_ok(path: Seq<char>, r: Option<Self>) -> bool {
        if starts_with(path, '/') {
            match r {
                Some(LeadingSlash(u)) => U::switch_ok(path.skip(1), Some(u)),
                None => U::switch_ok(path.skip(1), None),
            }
        } else {
            r is None
        }
    }

    open spec fn missing_ok(r: Option<Self>) -> bool {
        r is None
    }

    fn from_path(part: &str) -> (r: Option<Self>) {
        let v = chars_of(part);
        if v.len() > 0 && v[0] == '/' {
            let rest = string_of_range(&v, 1, v.len());
            assert(v@.subrange(1, v@.len() as int) =~= part@.skip(1));
            match U::from_path(rest.as_str()) {
                Some(u) => Some(LeadingSlash(u)),
                None => None,
            }
        } else {
            None
        }
    }

    fn from_route(part: String) -> (r: Option<Self>) {
        Self::from_path(part.as_str())
    }

    fn key_not_available() -> (r: Option<Self>) {
        None
    }
}

/// Allows a section to match with `None` when it is entirely missing, or starts with
/// `/`, `?`, `&` or `#`.
#[derive(Debug, PartialEq, Clone, Copy)]
pub struct AllowMissing<T>(pub Option<T>);

/// A route section that counts as missing: empty, or starting with `/`, `?`, `&` or `#`.
pub open spec fn looks_missing(s: Seq<char>) -> bool {
    s.len() == 0 || s[0] == '/' || s[0] == '?' || s[0] == '&' || s[0] == '#'
}

impl<U: Switch> Switch for AllowMissing<U> {
    open spec fn switch_ok(path: Seq<char>, r: Option<Self>) -> bool {
        match r {
            Some(AllowMissing(Some(u))) => U::switch_ok(path, Some(u)),
            Some(AllowMissing(None)) => U::switch_ok(path, None) && looks_missing(path),
            None => U::switch_ok(path, None) && !looks_missing(path),
        }
    }

    open spec fn missing_ok(r: Option<Self>) -> bool {
        r is None
    }

    fn from_path(part: &str) -> (r: Option<Self>) {
        let inner = U::from_path(part);
        if inner.is_some() {
            Some(AllowMissing(inner))
        } else {
            let v = chars_of(part);
            if v.len() == 0 || v[0] == '/' || v[0] == '?' || v[0] == '&' || v[0] == '#' {
                Some(AllowMissing(None))
            } else {
                None
            }
        }
    }

    fn from_route(part: String) -> (r: Option<Self>) {
        Self::from_path(part.as_str())
    }

    fn key_not_available() -> (r: Option<Self>) {
        None
    }
}

} // verus!
