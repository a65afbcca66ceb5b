use route_matcher::captures::take_named;
use route_matcher::matcher::MatchError;
use route_matcher::optimizer::{merge_tokens, optimize_tokens};
use route_matcher::parser::{parse, ParseError, ParseErrorKind};
use route_matcher::path_matcher::{MatcherSettings, PathMatcher};
use route_matcher::route::{AllowMissing, LeadingSlash, Switch};
use route_matcher::token::{CaptureVariant, MatcherToken, RouteParserToken};

fn strict() -> MatcherSettings {
    MatcherSettings { strict: true, complete: true, case_insensitive: false }
}

#[test]
fn optimized_tokens_are_stable_under_merging() {
    let raw = parse("/a/b{x}c/d?q={y}#f").unwrap();
    let once = optimize_tokens(raw.clone(), true);
    let again = merge_tokens(once.clone());
    assert_eq!(once, again);
    let strict_once = optimize_tokens(raw, false);
    assert_eq!(merge_tokens(strict_once.clone()), strict_once);
}

#[test]
fn merging_joins_adjacent_literals() {
    let tokens = vec![
        MatcherToken::Match("/a".to_string()),
        MatcherToken::Match("/b".to_string()),
        MatcherToken::Optional("/".to_string()),
    ];
    assert_eq!(
        merge_tokens(tokens),
        vec![MatcherToken::Match("/a/b".to_string()), MatcherToken::Optional("/".to_string())]
    );
}

#[test]
fn round_trip_of_captures_rebuilds_input() {
    let m = PathMatcher::with_settings("/user/{id}/posts/{*:rest}", strict()).unwrap();
    let (rest, caps) = m.match_path("/user/7/posts/x/y").unwrap();
    assert_eq!(rest, "");
    let id = caps.get("id").unwrap();
    let tail = caps.get("rest").unwrap();
    assert_eq!(id, "7");
    assert_eq!(tail, "x/y");
    let rebuilt = format!("/user/{}/posts/{}", id, tail);
    assert_eq!(rebuilt, "/user/7/posts/x/y");
    assert!(m.match_path(&rebuilt).is_ok());
}

#[test]
fn fixed_pattern_matches_only_its_text() {
    let m = PathMatcher::with_settings("/a/b", strict()).unwrap();
    assert!(m.match_path("/a/b").is_ok());
    assert!(m.match_path("/a/b/").is_err());
    assert!(m.match_path("/a").is_err());
    assert!(m.match_path("/a/c").is_err());
    let tolerant = PathMatcher::try_from("/a/b").unwrap();
    assert!(tolerant.match_path("/a/b/").is_ok());
    assert!(tolerant.match_path("/a/b").is_ok());
}

#[test]
fn exact_end_rejects_trailing_separator() {
    let m = PathMatcher::try_from("/variant!").unwrap();
    assert_eq!(m.match_path("/variant/").unwrap_err(), MatchError::TrailingInput);
    assert!(m.match_path("/variant").is_ok());
}

#[test]
fn named_capture_scenario() {
    let m = PathMatcher::try_from("/variant/{item}").unwrap();
    let (_, caps) = m.match_path("/variant/thing").unwrap();
    assert_eq!(caps.len(), 1);
    assert_eq!(caps.get("item"), Some("thing".to_string()));
}

#[test]
fn unsigned_field_scenario() {
    let m = PathMatcher::try_from("/variant/{item}").unwrap();
    let (_, mut caps) = m.match_path("/variant/42").unwrap();
    assert_eq!(take_named::<usize>(&mut caps, "item"), Some(42));
    let (_, mut caps) = m.match_path("/variant/-42").unwrap();
    assert_eq!(take_named::<usize>(&mut caps, "item"), None);
}

#[test]
fn many_capture_spans_separators() {
    let m = PathMatcher::try_from("{*:cap}").unwrap();
    let (_, caps) = m.match_path("hello/there").unwrap();
    assert_eq!(caps.get("cap"), Some("hello/there".to_string()));
}

#[test]
fn declaration_order_precedence_with_complete_matching() {
    let first = PathMatcher::try_from("/variant").unwrap();
    let second = PathMatcher::try_from("/variant/stuff").unwrap();
    assert_eq!(first.match_path("/variant/stuff").unwrap_err(), MatchError::TrailingInput);
    assert!(second.match_path("/variant/stuff").is_ok());
}

#[test]
fn escaped_braces_match_literally() {
    let m = PathMatcher::try_from("/escape{{}}a").unwrap();
    assert!(m.match_path("/escape{}a").is_ok());
    assert!(m.match_path("/escapea").is_err());
}

#[test]
fn match_error_literal_mismatch() {
    let m = PathMatcher::try_from("/a").unwrap();
    assert_eq!(m.match_path("/b").unwrap_err(), MatchError::LiteralMismatch);
}

#[test]
fn match_error_input_exhausted() {
    let m = PathMatcher::try_from("/abc").unwrap();
    assert_eq!(m.match_path("").unwrap_err(), MatchError::InputExhausted);
}

#[test]
fn match_error_capture_followed_by_capture() {
    let m = PathMatcher::try_from("{a}{b}").unwrap();
    assert_eq!(m.match_path("xy").unwrap_err(), MatchError::CaptureUnsatisfiable);
}

#[test]
fn match_error_too_few_sections() {
    let m = PathMatcher::try_from("/{3}").unwrap();
    assert_eq!(m.match_path("/a/b").unwrap_err(), MatchError::CaptureUnsatisfiable);
}

#[test]
fn incomplete_matching_returns_rest() {
    let settings = MatcherSettings { strict: false, complete: false, case_insensitive: false };
    let m = PathMatcher::with_settings("/a", settings).unwrap();
    let (rest, caps) = m.match_path("/a/b/c").unwrap();
    assert_eq!(rest, "b/c");
    assert_eq!(caps.len(), 0);
}

#[test]
fn case_insensitive_literals_keep_captures_verbatim() {
    let settings = MatcherSettings { strict: false, complete: true, case_insensitive: true };
    let m = PathMatcher::with_settings("/User/{Name}", settings).unwrap();
    let (_, caps) = m.match_path("/uSER/MiXeD").unwrap();
    assert_eq!(caps.get("Name"), Some("MiXeD".to_string()));
    let sensitive = PathMatcher::try_from("/User/{Name}").unwrap();
    assert_eq!(sensitive.match_path("/uSER/x").unwrap_err(), MatchError::LiteralMismatch);
}

#[test]
fn empty_capture_is_allowed() {
    let m = PathMatcher::try_from("/a/{x}").unwrap();
    let (_, caps) = m.match_path("/a/").unwrap();
    assert_eq!(caps.get("x"), Some(String::new()));
}

#[test]
fn parser_tokens() {
    assert_eq!(
        parse("/a{b}!").unwrap(),
        vec![
            RouteParserToken::Separator,
            RouteParserToken::Match("a".to_string()),
            RouteParserToken::Capture(CaptureVariant::Named("b".to_string())),
            RouteParserToken::End,
        ]
    );
    assert_eq!(parse("ab{{!!").unwrap(), vec![RouteParserToken::Match("ab{!".to_string())]);
    assert_eq!(
        parse("{*}{*:m}{2}{12:n}{}").unwrap(),
        vec![
            RouteParserToken::Capture(CaptureVariant::ManyUnnamed),
            RouteParserToken::Capture(CaptureVariant::ManyNamed("m".to_string())),
            RouteParserToken::Capture(CaptureVariant::NumberedUnnamed { sections: 2 }),
            RouteParserToken::Capture(CaptureVariant::NumberedNamed {
                sections: 12,
                name: "n".to_string()
            }),
            RouteParserToken::Capture(CaptureVariant::Unnamed),
        ]
    );
    assert_eq!(
        parse("?a&b#c?").unwrap(),
        vec![
            RouteParserToken::QueryBegin,
            RouteParserToken::Match("a".to_string()),
            RouteParserToken::QuerySeparator,
            RouteParserToken::Match("b".to_string()),
            RouteParserToken::FragmentBegin,
            RouteParserToken::Match("c?".to_string()),
        ]
    );
    assert_eq!(parse("").unwrap(), vec![]);
}

fn parse_error(p: &str) -> ParseError {
    parse(p).unwrap_err()
}

#[test]
fn parser_errors() {
    assert_eq!(
        parse_error("/{abc"),
        ParseError { position: 1, kind: ParseErrorKind::UnterminatedCapture }
    );
    assert_eq!(parse_error("/a}"), ParseError { position: 2, kind: ParseErrorKind::UnexpectedBrace });
    assert_eq!(
        parse_error("/a!b"),
        ParseError { position: 2, kind: ParseErrorKind::MisplacedExclamation }
    );
    assert_eq!(parse_error("?a?b"), ParseError { position: 2, kind: ParseErrorKind::MisplacedQuery });
    assert_eq!(
        parse_error("#a#b"),
        ParseError { position: 2, kind: ParseErrorKind::MisplacedFragment }
    );
    assert_eq!(parse_error("{a-b}"), ParseError { position: 0, kind: ParseErrorKind::InvalidCapture });
    assert_eq!(parse_error("{0}"), ParseError { position: 0, kind: ParseErrorKind::InvalidCapture });
    assert_eq!(parse_error("{1x}"), ParseError { position: 0, kind: ParseErrorKind::InvalidCapture });
    assert_eq!(
        parse_error("{99999999999999999999}"),
        ParseError { position: 0, kind: ParseErrorKind::InvalidCapture }
    );
    assert!(PathMatcher::try_from("{oops").is_err());
}

#[test]
fn optimizer_makes_path_end_optional() {
    let tolerant = optimize_tokens(parse("/a/").unwrap(), true);
    assert_eq!(
        tolerant,
        vec![MatcherToken::Match("/a".to_string()), MatcherToken::Optional("/".to_string())]
    );
    let strict_tokens = optimize_tokens(parse("/a/").unwrap(), false);
    assert_eq!(strict_tokens, vec![MatcherToken::Match("/a/".to_string())]);
    let added = optimize_tokens(parse("/a").unwrap(), true);
    assert_eq!(
        added,
        vec![MatcherToken::Match("/a".to_string()), MatcherToken::Optional("/".to_string())]
    );
    let ended = optimize_tokens(parse("/a!").unwrap(), true);
    assert_eq!(ended, vec![MatcherToken::Match("/a".to_string()), MatcherToken::End]);
}

#[test]
fn capture_names_lists_each_name_once() {
    let m = PathMatcher::try_from("/{a}/{b}/{a}/{2:d}/{*:c}/{}").unwrap();
    let mut names = m.capture_names();
    names.sort();
    assert_eq!(names, vec!["a".to_string(), "b".to_string(), "c".to_string(), "d".to_string()]);
    assert!(PathMatcher::try_from("/x/{}").unwrap().capture_names().is_empty());
}

#[test]
fn numeric_conversions() {
    assert_eq!(usize::from_path("+5"), Some(5));
    assert_eq!(usize::from_path("18446744073709551615"), Some(usize::MAX));
    assert_eq!(usize::from_path("18446744073709551616"), None);
    assert_eq!(usize::from_path(""), None);
    assert_eq!(isize::from_path("-9223372036854775808"), Some(isize::MIN));
    assert_eq!(isize::from_path("9223372036854775808"), None);
    assert_eq!(isize::from_path("-"), None);
    assert_eq!(isize::from_route("12".to_string()), Some(12));
    assert_eq!(String::from_path("x y"), Some("x y".to_string()));
}

#[test]
fn leading_slash_wrapper() {
    assert_eq!(LeadingSlash::<usize>::from_path("/5"), Some(LeadingSlash(5)));
    assert_eq!(LeadingSlash::<usize>::from_path("5"), None);
    assert_eq!(LeadingSlash::<usize>::from_path("/x"), None);
}

#[test]
fn allow_missing_wrapper() {
    assert_eq!(AllowMissing::<usize>::from_path("7"), Some(AllowMissing(Some(7))));
    assert_eq!(AllowMissing::<usize>::from_path(""), Some(AllowMissing(None)));
    assert_eq!(AllowMissing::<usize>::from_path("/rest"), Some(AllowMissing(None)));
    assert_eq!(AllowMissing::<usize>::from_path("?q"), Some(AllowMissing(None)));
    assert_eq!(AllowMissing::<usize>::from_path("x"), None);
}

#[test]
fn option_field_takes_missing_value() {
    assert_eq!(Option::<String>::key_not_available(), Some(None));
    assert_eq!(Option::<usize>::from_path("3"), Some(Some(3)));
    assert_eq!(usize::key_not_available(), None);
}
