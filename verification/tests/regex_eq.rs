use niri_core::regex_eq::RegexEq;

#[test]
fn patterns_are_compiled() {
    let regex = RegexEq::from_str("^a+b$").unwrap();
    assert_eq!(regex.0.as_str(), "^a+b$");
    assert!(regex.0.is_match("aab"));
    assert!(!regex.0.is_match("xaab"));
    let parsed: RegexEq = "^a+b$".parse().unwrap();
    assert_eq!(parsed, regex);
}

#[test]
fn a_pattern_is_refused_in_the_words_of_the_regex_crate() {
    let e = RegexEq::from_str("a(").unwrap_err();
    assert_eq!(e.to_string(), regex::Regex::new("a(").unwrap_err().to_string());
    assert!(e.to_string().contains("unclosed group"));
    assert!("*".parse::<RegexEq>().is_err());
}

#[test]
fn equality_goes_by_the_string_form() {
    let a = RegexEq::from_str("[ab]").unwrap();
    let b = RegexEq::from_str("[ab]").unwrap();
    let c = RegexEq::from_str("[ba]").unwrap();
    assert!(a == a && a == b && b == a);
    // Both match the same texts.
    assert!(a != c && c != a);
}

#[test]
fn a_clone_matches_and_equals() {
    let regex = RegexEq::from_str("^x").unwrap();
    let clone = regex.clone();
    assert_eq!(clone, regex);
    assert!(clone.0.is_match("xy") && !clone.0.is_match("yx"));
}

#[test]
fn any_regular_expression_can_be_compared() {
    let built = regex::RegexBuilder::new("[ab]").case_insensitive(true).build().unwrap();
    assert!(built.is_match("A"));
    // The flags are not part of the string form.
    assert_eq!(RegexEq(built), RegexEq::from_str("[ab]").unwrap());
}
