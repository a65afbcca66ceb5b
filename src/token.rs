//! Tokens of a route pattern, before and after optimisation, and their models.
use vstd::prelude::*;
use crate::captures::opt_string_view;

verus! {

/// What a capture section of a pattern takes from a path.
#[derive(Debug, Clone, PartialEq, Eq)]
pub enum CaptureVariant {
    /// `{}`: one segment, not recorded under a name.
    Unnamed,
    /// `{name}`: one segment, recorded under `name`.
    Named(String),
    /// `{*}`: any number of segments, not recorded under a name.
    ManyUnnamed,
    /// `{*:name}`: any number of segments, recorded under `name`.
    ManyNamed(String),
    /// `{N}`: exactly `sections` segments, not recorded under a name.
    NumberedUnnamed { sections: usize },
    /// `{N:name}`: exactly `sections` segments, recorded under `name`.
    NumberedNamed { sections: usize, name: String },
}

/// The model of a `CaptureVariant`: names as character sequences.
pub enum CaptureKind {
    Unnamed,
    Named(Seq<char>),
    ManyUnnamed,
    ManyNamed(Seq<char>),
    NumberedUnnamed(nat),
    NumberedNamed(nat, Seq<char>),
}

impl View for CaptureVariant {
    type V = CaptureKind;

    open spec fn view(&self) -> CaptureKind {
        match self {
            CaptureVariant::Unnamed => CaptureKind::Unnamed,
            CaptureVariant::Named(n) => CaptureKind::Named(n@),
            CaptureVariant::ManyUnnamed => CaptureKind::ManyUnnamed,
            CaptureVariant::ManyNamed(n) => CaptureKind::ManyNamed(n@),
            CaptureVariant::NumberedUnnamed { sections } => CaptureKind::NumberedUnnamed(
                *sections as nat,
            ),
            CaptureVariant::NumberedNamed { sections, name } => CaptureKind::NumberedNamed(
                *sections as nat,
                name@,
            ),
        }
    }
}

/// The name under which a capture records what it took, if any.
pub open spec fn kind_name(k: CaptureKind) -> Option<Seq<char>> {
    match k {
        CaptureKind::Named(n) => Some(n),
        CaptureKind::ManyNamed(n) => Some(n),
        CaptureKind::NumberedNamed(_, n) => Some(n),
        _ => None,
    }
}

/// A copy of `v`.
pub fn copy_variant(v: &CaptureVariant) -> (r: CaptureVariant)
    ensures
        r@ == v@,
{
    match v {
        CaptureVariant::Unnamed => CaptureVariant::Unnamed,
        CaptureVariant::Named(n) => CaptureVariant::Named(n.clone()),
        CaptureVariant::ManyUnnamed => CaptureVariant::ManyUnnamed,
        CaptureVariant::ManyNamed(n) => CaptureVariant::ManyNamed(n.clone()),
        CaptureVariant::NumberedUnnamed { sections } => CaptureVariant::NumberedUnnamed {
            sections: *sections,
        },
        CaptureVariant::NumberedNamed { sections, name } => CaptureVariant::NumberedNamed {
            sections: *sections,
            name: name.clone(),
        },
    }
}

/// The name recorded by `v`, if any.
pub fn variant_name(v: &CaptureVariant) -> (r: Option<String>)
    ensures
        opt_string_view(r) == kind_name(v@),
{
    match v {
        CaptureVariant::Named(n) => Some(n.clone()),
        CaptureVariant::ManyNamed(n) => Some(n.clone()),
        CaptureVariant::NumberedNamed { name, .. } => Some(name.clone()),
        _ => None,
    }
}

/// A token as the pattern parser produces it.
#[derive(Debug, Clone, PartialEq, Eq)]
pub enum RouteParserToken {
    /// `/`.
    Separator,
    /// Literal text.
    Match(String),
    /// A capture section.
    Capture(CaptureVariant),
    /// `?`: the query begins.
    QueryBegin,
    /// `&` inside the query.
    QuerySeparator,
    /// `#`: the fragment begins.
    FragmentBegin,
    /// A final `!`: the path must end here, with no trailing separator.
    End,
}

/// The model of a `RouteParserToken`.
pub enum RawModel {
    Separator,
    Match(Seq<char>),
    Capture(CaptureKind),
    QueryBegin,
    QuerySeparator,
    FragmentBegin,
    End,
}

impl View for RouteParserToken {
    type V = RawModel;

    open spec fn view(&self) -> RawModel {
        match self {
            RouteParserToken::Separator => RawModel::Separator,
            RouteParserToken::Match(t) => RawModel::Match(t@),
            RouteParserToken::Capture(v) => RawModel::Capture(v@),
            RouteParserToken::QueryBegin => RawModel::QueryBegin,
            RouteParserToken::QuerySeparator => RawModel::QuerySeparator,
            RouteParserToken::FragmentBegin => RawModel::FragmentBegin,
            RouteParserToken::End => RawModel::End,
        }
    }
}

/// The models of a sequence of parser tokens.
pub open spec fn raw_models(ts: Seq<RouteParserToken>) -> Seq<RawModel> {
    ts.map_values(|t: RouteParserToken| t@)
}

/// A token that the matcher walks.
#[derive(Debug, Clone, PartialEq, Eq)]
pub enum MatcherToken {
    /// Literal text that must be present.
    Match(String),
    /// Literal text that is consumed when present and skipped otherwise.
    Optional(String),
    /// A capture section.
    Capture(CaptureVariant),
    /// The input must end here.
    End,
}

/// The model of a `MatcherToken`.
pub enum TokenModel {
    Match(Seq<char>),
    Optional(Seq<char>),
    Capture(CaptureKind),
    End,
}

impl View for MatcherToken {
    type V = TokenModel;

    open spec fn view(&self) -> TokenModel {
        match self {
            MatcherToken::Match(t) => TokenModel::Match(t@),
            MatcherToken::Optional(t) => TokenModel::Optional(t@),
            MatcherToken::Capture(v) => TokenModel::Capture(v@),
            MatcherToken::End => TokenModel::End,
        }
    }
}

/// The models of a sequence of matcher tokens.
pub open spec fn token_models(ts: Seq<MatcherToken>) -> Seq<TokenModel> {
    ts.map_values(|t: MatcherToken| t@)
}

} // verus!
