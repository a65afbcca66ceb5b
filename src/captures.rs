//! What a match takes from an input, and how shapes are filled from it.
use vstd::prelude::*;
use crate::route::Switch;
use crate::text::concat_strings;
use std::collections::HashSet;

verus! {

/// One capture taken from an input: its name, if the section has one, and the text taken.
#[derive(Debug, Clone, PartialEq, Eq)]
pub struct CaptureEntry {
    pub name: Option<String>,
    pub value: String,
}

/// The model of a capture: optional name and captured text.
pub type EntryModel = (Option<Seq<char>>, Seq<char>);

pub open spec fn opt_string_view(o: Option<String>) -> Option<Seq<char>> {
    match o {
        Some(s) => Some(s@),
        None => None,
    }
}

impl View for CaptureEntry {
    type V = EntryModel;

    open spec fn view(&self) -> EntryModel {
        (opt_string_view(self.name), self.value@)
    }
}

/// The models of a sequence of captures.
pub open spec fn entry_models(es: Seq<CaptureEntry>) -> Seq<EntryModel> {
    es.map_values(|e: CaptureEntry| e@)
}

/// Captures of one match, in the order the input was read.
#[derive(Debug, Clone, PartialEq, Eq)]
pub struct Captures {
    pub entries: Vec<CaptureEntry>,
}

impl View for Captures {
    type V = Seq<EntryModel>;

    open spec fn view(&self) -> Seq<EntryModel> {
        entry_models(self.entries@)
    }
}

/// The index of the first capture named `name` at or after `i`, or `es.len()`.
pub open spec fn first_named(es: Seq<EntryModel>, name: Seq<char>, i: int) -> int
    decreases es.len() - i,
{
    if i < 0 || i >= es.len() {
        es.len() as int
    } else if es[i].0 == Some(name) {
        i
    } else {
        first_named(es, name, i + 1)
    }
}

/// The text of the first capture named `name`, if any.
pub open spec fn lookup(es: Seq<EntryModel>, name: Seq<char>) -> Option<Seq<char>> {
    let i = first_named(es, name, 0);
    if i < es.len() {
        Some(es[i].1)
    } else {
        None
    }
}

/// `es` without its first capture named `name`.
pub open spec fn without_first(es: Seq<EntryModel>, name: Seq<char>) -> Seq<EntryModel> {
    let i = first_named(es, name, 0);
    if i < es.len() {
        es.remove(i)
    } else {
        es
    }
}

/// `es` where `name` now records `value`: the first capture of that name is replaced, or a
/// new one is added at the end.
pub open spec fn with_named(es: Seq<EntryModel>, name: Seq<char>, value: Seq<char>) -> Seq<
    EntryModel,
> {
    let i = first_named(es, name, 0);
    if i < es.len() {
        es.update(i, (Some(name), value))
    } else {
        es.push((Some(name), value))
    }
}

fn string_eq(a: &String, b: &String) -> (r: bool)
    ensures
        r == (a@ == b@),
{
    a.eq(b)
}

impl Captures {
    /// No captures.
    pub fn new() -> (r: Captures)
        ensures
            r@ == Seq::<EntryModel>::empty(),
    {
        let r = Captures { entries: Vec::new() };
        assert(r@ =~= Seq::<EntryModel>::empty());
        r
    }

    /// The number of captures.
    pub fn len(&self) -> (r: usize)
        ensures
            r == self@.len(),
    {
        self.entries.len()
    }

    fn index_of(&self, name: &String) -> (r: usize)
        ensures
            r == first_named(self@, name@, 0),
            r <= self@.len(),
    {
        let mut i: usize = 0;
        while i < self.entries.len()
            invariant
                i <= self.entries.len(),
                first_named(self@, name@, 0) == first_named(self@, name@, i as int),
            decreases self.entries.len() - i,
        {
            assert(self@[i as int] == self.entries@[i as int]@);
            let found = match &self.entries[i].name {
                Some(n) => string_eq(n, name),
                None => false,
            };
            assert(found <==> self@[i as int].0 == Some(name@));
            if found {
                return i;
            }
            i = i + 1;
        }
        i
    }

    /// The text captured under `name` (the first such capture), if any.
    pub fn get(&self, name: &str) -> (r: Option<String>)
        ensures
            opt_string_view(r) == lookup(self@, name@),
    {
        let key = name.to_owned();
        let i = self.index_of(&key);
        if i < self.entries.len() {
            assert(self@[i as int] == self.entries@[i as int]@);
            Some(self.entries[i].value.clone())
        } else {
            None
        }
    }

    /// Records `value` under `name`, replacing what the first capture of that name held.
    pub fn insert(&mut self, name: &str, value: String)
        ensures
            final(self)@ == with_named(old(self)@, name@, value@),
    {
        let key = name.to_owned();
        let i = self.index_of(&key);
        let e = CaptureEntry { name: Some(key), value };
        if i < self.entries.len() {
            self.entries.set(i, e);
            assert(self@ =~= with_named(old(self)@, name@, value@));
        } else {
            self.entries.push(e);
            assert(self@ =~= with_named(old(self)@, name@, value@));
        }
    }

    /// Takes out the first capture named `name` and returns its text, if there is one.
    pub fn remove(&mut self, name: &str) -> (r: Option<String>)
        ensures
            opt_string_view(r) == lookup(old(self)@, name@),
            final(self)@ == without_first(old(self)@, name@),
    {
        let key = name.to_owned();
        let i = self.index_of(&key);
        if i < self.entries.len() {
            assert(self@[i as int] == self.entries@[i as int]@);
            let e = self.entries.remove(i);
            assert(self@ =~= without_first(old(self)@, name@));
            Some(e.value)
        } else {
            None
        }
    }

    /// The captured texts in the order the input was read, named or not.
    pub fn values(&self) -> (r: Vec<String>)
        ensures
            r.len() == self@.len(),
            forall|i: int| 0 <= i < r.len() ==> (#[trigger] r@[i])@ == self@[i].1,
    {
        let mut r: Vec<String> = Vec::new();
        let mut i: usize = 0;
        while i < self.entries.len()
            invariant
                i <= self.entries.len(),
                r.len() == i,
                forall|k: int| 0 <= k < i ==> (#[trigger] r@[k])@ == self@[k].1,
            decreases self.entries.len() - i,
        {
            assert(self@[i as int] == self.entries@[i as int]@);
            r.push(self.entries[i].value.clone());
            i = i + 1;
        }
        r
    }
}

/// Named-field rule: takes the first capture named `name` out of `caps` and builds a value
/// from its text; when there is none, the type's value for a missing section is taken.
pub fn take_named<T: Switch>(caps: &mut Captures, name: &str) -> (r: Option<T>)
    ensures
        final(caps)@ == without_first(old(caps)@, name@),
        match lookup(old(caps)@, name@) {
            Some(text) => T::switch_ok(text, r),
            None => T::missing_ok(r),
        },
{
    match caps.remove(name) {
        Some(text) => T::from_route(text),
        None => T::key_not_available(),
    }
}

/// Positional rule: takes the first of `values` and builds a value from it; when none is
/// left, the type's value for a missing section is taken.
pub fn take_next<T: Switch>(values: &mut Vec<String>) -> (r: Option<T>)
    ensures
        old(values).len() > 0 ==> final(values)@ == old(values)@.drop_first() && T::switch_ok(
            old(values)@[0]@,
            r,
        ),
        old(values).len() == 0 ==> final(values)@ == old(values)@ && T::missing_ok(r),
{
    if values.len() > 0 {
        let text = values.remove(0);
        assert(values@ =~= old(values)@.drop_first());
        T::from_route(text)
    } else {
        T::key_not_available()
    }
}

/// Why captures could not fill a shape.
#[derive(Debug, Clone, PartialEq, Eq)]
pub enum FromCapturesError {
    /// A field has no capture of its name.
    MissingField {
        /// The name of the field expected to be present.
        field_name: String,
    },
    /// A value could not be converted.
    UnknownErr,
}

impl FromCapturesError {
    /// The message that describes the error.
    pub fn to_string(&self) -> (r: String)
        ensures
            match self {
                FromCapturesError::MissingField { field_name } => r@ == "The field: '"@
                    + field_name@ + "' was not present in your path matcher."@,
                FromCapturesError::UnknownErr => r@ == "unknown error"@,
            },
    {
        match self {
            FromCapturesError::MissingField { field_name } => {
                let head = "The field: '".to_owned();
                let tail = "' was not present in your path matcher.".to_owned();
                let front = concat_strings(&head, field_name);
                concat_strings(&front, &tail)
            },
            FromCapturesError::UnknownErr => "unknown error".to_owned(),
        }
    }
}

/// A shape that can be built from the captures of a match.
pub trait FromCaptures: Sized {
    /// Builds the value from the captures.
    fn from_captures(captures: &Captures) -> Result<Self, FromCapturesError>;

    /// Checks that every field the shape needs is among the names a matcher can capture.
    /// Meant to run when a route is declared; it may panic on a shape that cannot be filled.
    fn verify(field_names: &HashSet<String>);
}

impl FromCaptures for () {
    fn from_captures(_captures: &Captures) -> (r: Result<Self, FromCapturesError>) {
        Ok(())
    }

    fn verify(_field_names: &HashSet<String>) {
    }
}

} // verus!
