use route_matcher::captures::{take_named, take_next, Captures};
use route_matcher::path_matcher::{MatcherSettings, PathMatcher};
use route_matcher::route::Switch;

fn route_settings() -> MatcherSettings {
    MatcherSettings { strict: false, complete: false, case_insensitive: true }
}

fn captures_of(pattern: &str, route: &str) -> Option<Captures> {
    let matcher = PathMatcher::with_settings(pattern, route_settings()).expect("pattern parses");
    matcher.match_path(route).ok().map(|x| x.1)
}

fn unit(pattern: &str, route: String) -> Option<()> {
    captures_of(pattern, &route).map(|_| ())
}

fn named<T: Switch>(pattern: &str, route: String, name: &str) -> Option<T> {
    let mut caps = captures_of(pattern, &route)?;
    take_named::<T>(&mut caps, name)
}

fn positional<T: Switch>(pattern: &str, route: String) -> Option<T> {
    let caps = captures_of(pattern, &route)?;
    let mut values = caps.values();
    take_next::<T>(&mut values)
}

fn positional2<T: Switch, U: Switch>(pattern: &str, route: String) -> Option<(T, U)> {
    let caps = captures_of(pattern, &route)?;
    let mut values = caps.values();
    let a = take_next::<T>(&mut values)?;
    let b = take_next::<U>(&mut values)?;
    Some((a, b))
}

fn named2(pattern: &str, route: String, n1: &str, n2: &str) -> Option<(String, String)> {
    let mut caps = captures_of(pattern, &route)?;
    let a = take_named::<String>(&mut caps, n1)?;
    let b = take_named::<String>(&mut caps, n2)?;
    Some((a, b))
}

#[test]
fn single_enum_variant() {
    let route = String::from("/variant");
    let switched = unit("/variant", route).expect("should produce item");
    assert_eq!(switched, ())
}

#[test]
fn single_enum_variant_unnamed_without_corresponding_capture_group() {
    let route = String::from("/variant");
    assert!(
        positional::<String>("/variant", route).is_none(),
        "there should not be a way to ever create this variant."
    );
    let route = String::from("/variant/some/stuff");
    assert!(
        positional::<String>("/variant", route).is_none(),
        "there should not be a way to ever create this variant."
    );
}

#[test]
fn single_enum_variant_named_capture() {
    let route = String::from("/variant/thing");
    let switched = named::<String>("/variant/{item}", route, "item").expect("should produce item");
    assert_eq!(switched, "thing".to_string())
}

#[test]
fn single_enum_variant_unnamed_capture() {
    let route = String::from("/variant/thing");
    let switched = positional::<String>("/variant/{item}", route).expect("should produce item");
    assert_eq!(switched, "thing".to_string())
}

#[test]
fn single_enum_variant_multiple_unnamed_capture() {
    let route = String::from("/variant/thing/other");
    let switched =
        positional2::<String, String>("/variant/{}/{}", route).expect("should produce item");
    assert_eq!(switched, ("thing".to_string(), "other".to_string()))
}

#[test]
fn single_enum_variant_multiple_named_capture() {
    let route = String::from("/variant/thing/other");
    let switched = named2("/variant/{item1}/{item2}", route, "item1", "item2")
        .expect("should produce item");
    assert_eq!(switched, ("thing".to_string(), "other".to_string()))
}

#[test]
fn single_enum_variant_named_capture_without_leading_separator() {
    let route = String::from("/variantthing");
    let switched = named::<String>("/variant{item}", route, "item").expect("should produce item");
    assert_eq!(switched, "thing".to_string())
}

#[test]
fn single_enum_variant_named_capture_without_any_separator() {
    let route = String::from("/variantthingstuff");
    let switched =
        named::<String>("/variant{item}stuff", route, "item").expect("should produce item");
    assert_eq!(switched, "thing".to_string())
}

#[test]
fn single_enum_variant_end() {
    let route = String::from("/variant/");
    assert!(unit("/variant!", route).is_none());
}

#[test]
fn multiple_enum_variant_end_precedence() {
    let route = String::from("/variant/stuff");
    let first = unit("/variant!", route.clone());
    let second = unit("/variant/stuff", route);
    let switched = first.map(|_| 1).or(second.map(|_| 2)).expect("should produce item");
    assert_eq!(switched, 2, "The first variant should be passed over")
}

#[test]
fn multiple_enum_variant_eager_matching() {
    let route = String::from("/variant/stuff");
    let first = unit("/variant", route.clone());
    let second = unit("/variant/stuff", route);
    let switched = first.map(|_| 1).or(second.map(|_| 2)).expect("should produce item");
    assert_eq!(switched, 1, "The first variant should match first")
}

#[test]
fn single_enum_variant_convert_usize() {
    let route = String::from("/variant/42");
    let switched = positional::<usize>("/variant/{item}", route).expect("should produce item");
    assert_eq!(switched, 42)
}

#[test]
fn single_enum_variant_convert_usize_rejects_negative() {
    let route = String::from("/variant/-42");
    assert!(positional::<usize>("/variant/{item}", route).is_none());
}

#[test]
fn single_enum_variant_convert_isize() {
    let route = String::from("/variant/-42");
    let switched = positional::<isize>("/variant/{item}", route).expect("should produce item");
    assert_eq!(switched, -42)
}

#[test]
fn single_enum_variant_missing_cap_produces_option_none() {
    let route = String::from("/variant");
    let switched =
        positional::<Option<String>>("/variant", route).expect("should produce item");
    assert_eq!(switched, None)
}

#[test]
fn leading_slash() {
    let route = String::from("/");
    let switched = unit("/", route).expect("should produce item");
    assert_eq!(switched, ())
}

#[test]
fn leading_named_capture() {
    let route = String::from("hello");
    let switched = positional::<String>("{cap}", route).expect("should produce item");
    assert_eq!(switched, "hello".to_string())
}

#[test]
fn leading_unnamed_capture() {
    let route = String::from("hello");
    let switched = positional::<String>("{}", route).expect("should produce item");
    assert_eq!(switched, "hello".to_string())
}

#[test]
fn leading_number_capture() {
    let route = String::from("hello/there");
    let switched = positional::<String>("{2:cap}", route).expect("should produce item");
    assert_eq!(switched, "hello/there".to_string())
}

#[test]
fn leading_number_capture_unnamed() {
    let route = String::from("hello/there");
    let switched = positional::<String>("{2}", route).expect("should produce item");
    assert_eq!(switched, "hello/there".to_string())
}

#[test]
fn leading_many_capture_named() {
    let route = String::from("hello/there");
    let switched = positional::<String>("{*:cap}", route).expect("should produce item");
    assert_eq!(switched, "hello/there".to_string())
}

#[test]
fn leading_many_capture_unnamed() {
    let route = String::from("hello/there");
    let switched = positional::<String>("{*}", route).expect("should produce item");
    assert_eq!(switched, "hello/there".to_string())
}

#[test]
fn leading_query_named() {
    let route = String::from("?query=lorem");
    let switched = positional::<String>("?query={hello}", route).expect("should produce item");
    assert_eq!(switched, "lorem".to_string())
}

#[test]
fn leading_query_unnamed() {
    let route = String::from("?query=lorem");
    let switched = positional::<String>("?query={}", route).expect("should produce item");
    assert_eq!(switched, "lorem".to_string())
}

#[test]
fn leading_fragment() {
    let route = String::from("#fragment");
    let switched = unit("#fragment", route).expect("should produce item");
    assert_eq!(switched, ())
}

#[test]
fn fragment_with_named_captures() {
    let route = String::from("#loremipsumdolor");
    let switched =
        positional2::<String, String>("#{cap}ipsum{cap}", route).expect("should produce item");
    assert_eq!(switched, ("lorem".to_string(), "dolor".to_string()))
}

#[test]
fn fragment_with_unnamed_captures() {
    let route = String::from("#loremipsumdolor");
    let switched =
        positional2::<String, String>("#{}ipsum{}", route).expect("should produce item");
    assert_eq!(switched, ("lorem".to_string(), "dolor".to_string()))
}

#[test]
fn escape_exclaim() {
    let route = String::from("/escape!");
    let switched = unit("/escape!!", route).expect("should produce item");
    assert_eq!(switched, ())
}

#[test]
fn escape_bracket() {
    let route = String::from("/escape{}a");
    let switched = unit("/escape{{}}a", route).expect("should produce item");
    assert_eq!(switched, ())
}

#[test]
fn basic_fragment() {
    let route = String::from("#/lorem");
    unit("#/lorem", route).expect("should produce item");
}

#[test]
fn query_within_fragment() {
    let route = String::from("#/lorem=ipsum");
    unit("#/lorem=ipsum", route).expect("should produce item");
}

#[test]
fn capture_query_within_fragment() {
    let route = String::from("#/lorem=dolor");
    let switched =
        named::<String>("#/lorem={ipsum}", route, "ipsum").expect("should produce item");
    assert_eq!(switched, "dolor".to_string())
}
