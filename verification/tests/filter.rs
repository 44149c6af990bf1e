use ical_filter::filter::{
    Filter, FilterError, FilterErrorKind, FilterList, FilterOperator, UNKNOWN_OPERATOR,
};

fn parse(spec: &str) -> Filter {
    Filter::parse(spec).unwrap()
}

fn rejection(spec: &str) -> FilterError {
    Filter::parse(spec).unwrap_err()
}

#[test]
fn test_load_filter() {
    let qs = "startsWith:aaa";
    let parsed = Filter::parse(qs).unwrap();
    assert_eq!(parsed.invert, false);
    assert!(matches!(
        parsed.operator,
        FilterOperator::StartsWith(a) if a == "aaa"
    ));

    let qs = "true:aaa";
    let parsed = Filter::parse(qs).unwrap();
    assert_eq!(parsed.invert, false);
    assert!(matches!(parsed.operator, FilterOperator::True));
    assert!(parsed.matches("a"));

    let qs = "!true:aaa";
    let parsed = Filter::parse(qs).unwrap();
    assert_eq!(parsed.invert, true);
    assert!(matches!(parsed.operator, FilterOperator::True));
    assert!(!parsed.matches("a"));
}

#[test]
fn equals_matches_only_the_same_text() {
    let filter = parse("equals:Standup");
    assert!(filter.matches("Standup"));
    assert!(!filter.matches("Standup "));
    assert!(!filter.matches("standup"));
    assert!(!filter.matches("Daily Standup"));
    assert!(!filter.matches(""));
}

#[test]
fn equals_with_empty_content_matches_the_empty_text() {
    let filter = parse("equals:");
    assert!(filter.matches(""));
    assert!(!filter.matches("a"));
}

#[test]
fn starts_with_matches_prefixes() {
    let filter = parse("startsWith:Dai");
    assert!(filter.matches("Daily"));
    assert!(filter.matches("Dai"));
    assert!(!filter.matches("Da"));
    assert!(!filter.matches("My Daily"));
    assert!(parse("startsWith:").matches("anything"));
}

#[test]
fn ends_with_matches_suffixes() {
    let filter = parse("endsWith:up");
    assert!(filter.matches("Standup"));
    assert!(filter.matches("up"));
    assert!(!filter.matches("p"));
    assert!(!filter.matches("upper"));
    assert!(parse("endsWith:").matches("anything"));
}

#[test]
fn contains_matches_parts() {
    let filter = parse("contains:and");
    assert!(filter.matches("Standup"));
    assert!(filter.matches("and"));
    assert!(filter.matches("sand"));
    assert!(!filter.matches("an d"));
    assert!(!filter.matches(""));
    assert!(parse("contains:").matches(""));
}

#[test]
fn operators_compare_characters_beyond_ascii() {
    assert!(parse("equals:Caf\u{e9}").matches("Caf\u{e9}"));
    assert!(!parse("equals:Caf\u{e9}").matches("Cafe"));
    assert!(parse("startsWith:\u{1f600}").matches("\u{1f600} party"));
    assert!(parse("endsWith:\u{e9}").matches("Caf\u{e9}"));
    assert!(parse("contains:f\u{e9}s").matches("Caf\u{e9}s ouverts"));
}

#[test]
fn regex_searches_anywhere() {
    let filter = parse("regex:b+c");
    assert!(filter.matches("aabbcc"));
    assert!(filter.matches("bc"));
    assert!(!filter.matches("b c"));
    let anchored = parse("regex:^Stand(up|by)$");
    assert!(anchored.matches("Standup"));
    assert!(anchored.matches("Standby"));
    assert!(!anchored.matches("Daily Standup"));
}

#[test]
fn regex_is_compiled_when_parsed() {
    let parsed = parse("regex:a.c");
    assert!(matches!(&parsed.operator, FilterOperator::Regex(re) if re.as_str() == "a.c"));
    assert!(parsed.matches("abc"));
    assert!(!parsed.matches("ac"));
}

#[test]
fn invalid_regex_is_rejected_with_the_pattern_and_a_diagnostic() {
    let FilterError(text, kind) = rejection("regex:(unclosed");
    assert_eq!(text, "(unclosed");
    match kind {
        FilterErrorKind::InvalidRegex(diagnostic) => assert!(!diagnostic.is_empty()),
        other => panic!("unexpected kind {:?}", other),
    }
}

#[test]
fn inversion_negates_each_operator() {
    let candidates = ["", "a", "aaa", "Standup", "xaay", "aa"];
    let specs = [
        "equals:aaa",
        "startsWith:aa",
        "endsWith:aa",
        "contains:aa",
        "true:aa",
        "regex:^a+$",
    ];
    for spec in specs {
        let plain = parse(spec);
        let inverted = parse(&format!("!{}", spec));
        assert!(!plain.invert);
        assert!(inverted.invert);
        for candidate in candidates {
            assert_eq!(inverted.matches(candidate), !plain.matches(candidate));
        }
    }
}

#[test]
fn true_ignores_its_content() {
    for candidate in ["", "a", "ignored", "true"] {
        assert!(parse("true:ignored").matches(candidate));
        assert!(parse("true:").matches(candidate));
        assert!(!parse("!true:ignored").matches(candidate));
    }
}

#[test]
fn content_may_hold_colons() {
    let parsed = parse("equals:a:b:c");
    assert!(matches!(&parsed.operator, FilterOperator::Equals(text) if text == "a:b:c"));
    assert!(parsed.matches("a:b:c"));
    let parsed = parse("contains::");
    assert!(parsed.matches("10:30"));
    assert!(!parsed.matches("1030"));
}

#[test]
fn content_may_start_with_an_exclamation_mark() {
    let parsed = parse("equals:!x");
    assert!(!parsed.invert);
    assert!(parsed.matches("!x"));
}

#[test]
fn foo_bar_is_an_unknown_operator() {
    let FilterError(text, kind) = rejection("foo:bar");
    assert!(matches!(kind, FilterErrorKind::UnknownOperator));
    assert_eq!(text, UNKNOWN_OPERATOR);
    assert_eq!(
        text,
        "unknown filter operator; options are equals, startsWith, endsWith, contains, true, regex"
    );
}

#[test]
fn operator_names_are_case_sensitive() {
    assert!(matches!(rejection("Equals:a").1, FilterErrorKind::UnknownOperator));
    assert!(matches!(rejection("startswith:a").1, FilterErrorKind::UnknownOperator));
    assert!(matches!(rejection(" equals:a").1, FilterErrorKind::UnknownOperator));
    assert!(matches!(rejection(":a").1, FilterErrorKind::UnknownOperator));
}

#[test]
fn double_inversion_is_an_unknown_operator() {
    assert!(matches!(rejection("!!true:a").1, FilterErrorKind::UnknownOperator));
}

#[test]
fn missing_colon_keeps_the_text_after_the_inversion_mark() {
    let FilterError(text, kind) = rejection("nocolon");
    assert!(matches!(kind, FilterErrorKind::MissingColon));
    assert_eq!(text, "nocolon");

    let FilterError(text, kind) = rejection("!nocolon");
    assert!(matches!(kind, FilterErrorKind::MissingColon));
    assert_eq!(text, "nocolon");

    let FilterError(text, kind) = rejection("");
    assert!(matches!(kind, FilterErrorKind::MissingColon));
    assert_eq!(text, "");
}

#[test]
fn operator_parse_takes_the_content_as_it_is() {
    let operator = FilterOperator::parse("contains", "a~b".to_string()).unwrap();
    assert!(operator.matches("xa~by"));
    assert!(!operator.matches("ab"));
    let FilterError(_, kind) = FilterOperator::parse("", "x".to_string()).unwrap_err();
    assert!(matches!(kind, FilterErrorKind::UnknownOperator));
}

#[test]
fn empty_list_accepts_everything() {
    let list = FilterList::parse("").unwrap();
    assert!(list.filters.is_empty());
    for candidate in ["", "a", "Standup"] {
        assert!(list.accepts(candidate));
        assert!(FilterList::new().accepts(candidate));
    }
}

#[test]
fn list_is_split_at_tildes_and_keeps_the_order() {
    let list = FilterList::parse("startsWith:Daily~!endsWith:cancelled~true:x").unwrap();
    assert_eq!(list.filters.len(), 3);
    assert!(matches!(&list.filters[0].operator, FilterOperator::StartsWith(t) if t == "Daily"));
    assert!(!list.filters[0].invert);
    assert!(matches!(&list.filters[1].operator, FilterOperator::EndsWith(t) if t == "cancelled"));
    assert!(list.filters[1].invert);
    assert!(matches!(&list.filters[2].operator, FilterOperator::True));
}

#[test]
fn list_is_a_conjunction() {
    let list = FilterList::parse("startsWith:Daily~!endsWith:cancelled").unwrap();
    assert!(list.accepts("Daily Standup"));
    assert!(!list.accepts("Daily Standup cancelled"));
    assert!(!list.accepts("Weekly Standup"));
    assert!(!list.accepts("Weekly cancelled"));
}

#[test]
fn list_of_one_filter() {
    let list = FilterList::parse("equals:Standup").unwrap();
    assert_eq!(list.filters.len(), 1);
    assert!(list.accepts("Standup"));
    assert!(!list.accepts("Retro"));
}

#[test]
fn list_fails_with_the_first_rejected_filter() {
    let FilterError(text, kind) = FilterList::parse("equals:x~nocolon~foo:bar").unwrap_err();
    assert!(matches!(kind, FilterErrorKind::MissingColon));
    assert_eq!(text, "nocolon");

    let FilterError(_, kind) = FilterList::parse("foo:bar~nocolon").unwrap_err();
    assert!(matches!(kind, FilterErrorKind::UnknownOperator));

    let FilterError(text, kind) = FilterList::parse("equals:x~regex:[").unwrap_err();
    assert!(matches!(kind, FilterErrorKind::InvalidRegex(_)));
    assert_eq!(text, "[");
}

#[test]
fn list_with_an_empty_part_is_rejected() {
    for spec in ["equals:x~", "~equals:x", "equals:x~~equals:y", "~"] {
        let FilterError(text, kind) = FilterList::parse(spec).unwrap_err();
        assert!(matches!(kind, FilterErrorKind::MissingColon));
        assert_eq!(text, "");
    }
}
