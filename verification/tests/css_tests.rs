use atomic_css::css::{CSSAtRule, CSSDeclaration, CSSRule};
use atomic_css::strutil::{fnv1a_hash, str_eq, u64_to_string};

#[test]
fn test_rule_rendering() {
    let rule = CSSRule::new("a")
        .with_declaration(CSSDeclaration::new("color", "red"))
        .with_declaration(CSSDeclaration::new("margin", "0"));
    assert_eq!(rule.get_css(), "a{color:red;margin:0;}");
}

#[test]
fn test_rule_nested_rendering() {
    let rule = CSSRule::new("a")
        .with_rule(CSSRule::new("b").with_declaration(CSSDeclaration::new("x", "y")))
        .with_at_rule(CSSAtRule::new("foo", None));
    assert_eq!(rule.get_css(), "a{b{x:y;}@foo;}");
}

#[test]
fn test_at_rule_rendering() {
    assert_eq!(CSSAtRule::new("foo", None).get_css(), "@foo;");
    assert_eq!(CSSAtRule::new("bar", Some("baz")).get_css(), "@bar baz;");

    let media = CSSAtRule::new("media", Some("(min-width: 1024px)"))
        .with_rule(CSSRule::new("a").with_declaration(CSSDeclaration::new("padding", "1.5rem")));
    assert_eq!(
        media.get_css(),
        "@media (min-width: 1024px){a{padding:1.5rem;}}"
    );

    let nested = CSSAtRule::new("supports", Some("(display: grid)"))
        .with_at_rule(CSSAtRule::new("foo", None))
        .with_declaration(CSSDeclaration::new("x", "y"));
    assert_eq!(nested.get_css(), "@supports (display: grid){@foo;x:y;}");
}

#[test]
fn test_u64_to_string() {
    assert_eq!(u64_to_string(0), "0");
    assert_eq!(u64_to_string(7), "7");
    assert_eq!(u64_to_string(9876543210), "9876543210");
    assert_eq!(u64_to_string(u64::MAX), format!("{}", u64::MAX));
}

#[test]
fn test_str_eq() {
    assert!(str_eq("", ""));
    assert!(str_eq("abc", "abc"));
    assert!(!str_eq("abc", "abd"));
    assert!(!str_eq("abc", "abcd"));
}

#[test]
fn test_fnv1a_hash() {
    // The FNV-1a offset basis for the empty input, and distinct digests for
    // distinct same-length inputs.
    assert_eq!(fnv1a_hash(""), 0xcbf29ce484222325);
    assert_ne!(fnv1a_hash("abc"), fnv1a_hash("xyz"));
    assert_eq!(fnv1a_hash("abc"), fnv1a_hash("abc"));
}
