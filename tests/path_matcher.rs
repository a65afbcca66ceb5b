use route_matcher::path_matcher::PathMatcher;
use route_matcher::token::{CaptureVariant, RouteParserToken};

#[test]
fn basic_separator() {
    let tokens = vec![RouteParserToken::Separator];
    let path_matcher = PathMatcher::from_tokens(tokens);
    path_matcher.match_path("/").expect("should parse");
}

#[test]
fn multiple_tokens() {
    let tokens = vec![
        RouteParserToken::Separator,
        RouteParserToken::Match("hello".to_string()),
        RouteParserToken::Separator,
    ];
    let path_matcher = PathMatcher::from_tokens(tokens);
    path_matcher.match_path("/hello/").expect("should parse");
}

#[test]
fn simple_capture() {
    let tokens = vec![
        RouteParserToken::Separator,
        RouteParserToken::Capture(CaptureVariant::Named("hello".to_string())),
        RouteParserToken::Separator,
    ];
    let path_matcher = PathMatcher::from_tokens(tokens);
    let (_, matches) = path_matcher.match_path("/general_kenobi/").expect("should parse");
    assert_eq!(matches.get("hello").unwrap(), "general_kenobi".to_string())
}

#[test]
fn simple_capture_with_no_trailing_separator() {
    let tokens = vec![
        RouteParserToken::Separator,
        RouteParserToken::Capture(CaptureVariant::Named("hello".to_string())),
    ];
    let path_matcher = PathMatcher::from_tokens(tokens);
    let (_, matches) = path_matcher.match_path("/general_kenobi").expect("should parse");
    assert_eq!(matches.get("hello").unwrap(), "general_kenobi".to_string())
}

#[test]
fn match_with_trailing_match_any() {
    let tokens = vec![
        RouteParserToken::Separator,
        RouteParserToken::Match("a".to_string()),
        RouteParserToken::Separator,
        RouteParserToken::Capture(CaptureVariant::Unnamed),
    ];
    let path_matcher = PathMatcher::from_tokens(tokens);
    let (_, _matches) = path_matcher.match_path("/a/").expect("should parse");
}

#[test]
fn match_n() {
    let tokens = vec![
        RouteParserToken::Separator,
        RouteParserToken::Capture(CaptureVariant::NumberedUnnamed { sections: 3 }),
        RouteParserToken::Separator,
        RouteParserToken::Match("a".to_string()),
    ];
    let path_matcher = PathMatcher::from_tokens(tokens);
    let (_, _matches) = path_matcher.match_path("/garbage1/garbage2/garbage3/a").expect("should parse");
}

#[test]
fn match_n_no_overrun() {
    let tokens = vec![
        RouteParserToken::Separator,
        RouteParserToken::Capture(CaptureVariant::NumberedUnnamed { sections: 3 }),
    ];
    let path_matcher = PathMatcher::from_tokens(tokens);
    let (s, _matches) = path_matcher.match_path("/garbage1/garbage2/garbage3").expect("should parse");
    assert_eq!(s.len(), 0)
}

#[test]
fn match_n_named() {
    let tokens = vec![
        RouteParserToken::Separator,
        RouteParserToken::Capture(CaptureVariant::NumberedNamed {
            sections: 3,
            name: "captured".to_string(),
        }),
        RouteParserToken::Separator,
        RouteParserToken::Match("a".to_string()),
    ];
    let path_matcher = PathMatcher::from_tokens(tokens);
    let (_, matches) = path_matcher.match_path("/garbage1/garbage2/garbage3/a").expect("should parse");
    assert_eq!(matches.get("captured").unwrap(), "garbage1/garbage2/garbage3".to_string())
}

#[test]
fn match_many() {
    let tokens = vec![
        RouteParserToken::Separator,
        RouteParserToken::Capture(CaptureVariant::ManyUnnamed),
        RouteParserToken::Separator,
        RouteParserToken::Match("a".to_string()),
    ];
    let path_matcher = PathMatcher::from_tokens(tokens);
    let (_, _matches) = path_matcher.match_path("/garbage1/garbage2/garbage3/a").expect("should parse");
}

#[test]
fn match_many_named() {
    let tokens = vec![
        RouteParserToken::Separator,
        RouteParserToken::Capture(CaptureVariant::ManyNamed("captured".to_string())),
        RouteParserToken::Separator,
        RouteParserToken::Match("a".to_string()),
    ];
    let path_matcher = PathMatcher::from_tokens(tokens);
    let (_, matches) = path_matcher.match_path("/garbage1/garbage2/garbage3/a").expect("should parse");
    assert_eq!(matches.get("captured").unwrap(), "garbage1/garbage2/garbage3".to_string())
}
