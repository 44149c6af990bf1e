use ical_filter::error::Error;
use ical_filter::event::{
    classify, extract, Candidate, Event, EventText, Field, RawEvent, RawProperty,
};
use ical_filter::filter::FilterList;
use ical_filter::timestamp::{DateParseError, Instant, Param};

fn prop(name: &str, value: &str) -> RawProperty {
    RawProperty { name: name.to_string(), value: Some(value.to_string()), params: None }
}

fn bare(name: &str) -> RawProperty {
    RawProperty { name: name.to_string(), value: None, params: None }
}

fn zoned(name: &str, value: &str, zone: &str) -> RawProperty {
    RawProperty {
        name: name.to_string(),
        value: Some(value.to_string()),
        params: Some(vec![Param { name: "TZID".to_string(), values: vec![zone.to_string()] }]),
    }
}

fn event(properties: Vec<RawProperty>) -> RawEvent {
    RawEvent { properties }
}

fn filters(spec: &str) -> FilterList {
    FilterList::parse(spec).unwrap()
}

fn at(secs: i64) -> Instant {
    Instant { secs, nanos: 0 }
}

fn kept(outcome: Result<Option<Event>, Error>) -> Event {
    outcome.unwrap().unwrap()
}

fn standup() -> Vec<RawProperty> {
    vec![
        prop("UID", "1@example.org"),
        prop("SUMMARY", "Standup"),
        prop("DTSTAMP", "19700101T000000Z"),
    ]
}

#[test]
fn minimal_event_is_normalised() {
    let e = kept(extract(&event(standup()), &FilterList::new()));
    assert_eq!(e.uid, "1@example.org");
    assert_eq!(e.summary, "Standup");
    assert_eq!(e.stamp, at(0));
    assert_eq!(e.start, None);
    assert_eq!(e.end, None);
    assert_eq!(e.created, None);
}

#[test]
fn full_event_is_normalised() {
    let mut properties = standup();
    properties.push(zoned("DTSTART", "19700101T000000", "America/New_York"));
    properties.push(zoned("DTEND", "19700101T010000", "America/New_York"));
    properties.push(prop("CREATED", "19691231T235959Z"));
    let e = kept(extract(&event(properties), &filters("equals:Standup")));
    assert_eq!(e.stamp, at(0));
    assert_eq!(e.start, Some(at(18_000)));
    assert_eq!(e.end, Some(at(21_600)));
    assert_eq!(e.created, Some(at(-1)));
}

#[test]
fn each_timestamp_uses_its_own_parameters() {
    let mut properties = standup();
    properties.push(zoned("DTSTART", "20200101T090000", "Asia/Tokyo"));
    properties.push(zoned("DTEND", "20200101T090000", "America/New_York"));
    let e = kept(extract(&event(properties), &FilterList::new()));
    assert_eq!(e.start.unwrap().to_ical_string().unwrap(), "20200101T000000Z");
    assert_eq!(e.end.unwrap().to_ical_string().unwrap(), "20200101T140000Z");
}

#[test]
fn event_without_uid_is_dropped() {
    let properties = vec![prop("SUMMARY", "Standup"), prop("DTSTAMP", "19700101T000000Z")];
    assert!(matches!(extract(&event(properties), &FilterList::new()), Ok(None)));
}

#[test]
fn event_without_summary_is_dropped() {
    let properties = vec![prop("UID", "1"), prop("DTSTAMP", "19700101T000000Z")];
    assert!(matches!(extract(&event(properties), &FilterList::new()), Ok(None)));
}

#[test]
fn event_without_stamp_is_dropped() {
    let properties = vec![prop("UID", "1"), prop("SUMMARY", "Standup")];
    assert!(matches!(extract(&event(properties), &FilterList::new()), Ok(None)));
}

#[test]
fn event_without_properties_is_dropped() {
    assert!(matches!(extract(&event(Vec::new()), &FilterList::new()), Ok(None)));
}

#[test]
fn incomplete_event_is_dropped_even_with_malformed_timestamps() {
    let properties = vec![
        prop("SUMMARY", "Standup"),
        prop("DTSTAMP", "not a date"),
        prop("DTSTART", "not a date"),
    ];
    assert!(matches!(extract(&event(properties), &FilterList::new()), Ok(None)));
}

#[test]
fn property_without_value_counts_as_missing() {
    for name in ["UID", "SUMMARY", "DTSTAMP"] {
        let mut properties = standup();
        properties.push(bare(name));
        assert!(matches!(extract(&event(properties), &FilterList::new()), Ok(None)));
    }
}

#[test]
fn malformed_stamp_is_an_error() {
    let properties =
        vec![prop("UID", "1"), prop("SUMMARY", "Standup"), prop("DTSTAMP", "yesterday")];
    assert!(matches!(
        extract(&event(properties), &FilterList::new()),
        Err(Error::Inconsistency)
    ));
}

#[test]
fn malformed_stamp_is_an_error_for_each_filter_that_accepts() {
    for spec in ["equals:Standup", "!equals:Retro", "true:x", "regex:^S"] {
        let properties =
            vec![prop("UID", "1"), prop("SUMMARY", "Standup"), prop("DTSTAMP", "yesterday")];
        assert!(matches!(
            extract(&event(properties), &filters(spec)),
            Err(Error::Inconsistency)
        ));
    }
}

#[test]
fn malformed_stamp_is_an_error_whatever_the_filters_say() {
    for spec in ["equals:Retro", "!equals:Standup", "!true:x", "startsWith:Stand~endsWith:down"] {
        let properties =
            vec![prop("UID", "1"), prop("SUMMARY", "Standup"), prop("DTSTAMP", "yesterday")];
        assert!(matches!(
            extract(&event(properties), &filters(spec)),
            Err(Error::Inconsistency)
        ));
    }
}

#[test]
fn malformed_stamp_of_an_incomplete_event_is_no_error() {
    let without_uid = vec![prop("SUMMARY", "Standup"), prop("DTSTAMP", "yesterday")];
    let without_summary = vec![prop("UID", "1"), prop("DTSTAMP", "yesterday")];
    for properties in [without_uid, without_summary] {
        assert!(matches!(extract(&event(properties), &filters("equals:Retro")), Ok(None)));
    }
}

#[test]
fn later_good_stamp_replaces_a_malformed_one() {
    let properties = vec![
        prop("UID", "1"),
        prop("SUMMARY", "Standup"),
        prop("DTSTAMP", "yesterday"),
        prop("DTSTAMP", "19700101T000000Z"),
    ];
    assert!(matches!(extract(&event(properties), &filters("equals:Retro")), Ok(None)));
}

#[test]
fn stamp_in_an_unknown_zone_is_read_as_utc() {
    let properties = vec![
        prop("UID", "1"),
        prop("SUMMARY", "Standup"),
        zoned("DTSTAMP", "19700101T000000", "Mars/Olympus_Mons"),
    ];
    let e = kept(extract(&event(properties), &FilterList::new()));
    assert_eq!(e.stamp, at(0));
}

#[test]
fn rejected_summary_is_dropped() {
    assert!(matches!(extract(&event(standup()), &filters("equals:Retro")), Ok(None)));
    assert!(matches!(extract(&event(standup()), &filters("!true:x")), Ok(None)));
    assert!(matches!(
        extract(&event(standup()), &filters("startsWith:Stand~endsWith:down")),
        Ok(None)
    ));
}

#[test]
fn rejected_summary_hides_malformed_optional_timestamps() {
    let mut properties = standup();
    properties.push(prop("DTSTART", "yesterday"));
    assert!(matches!(extract(&event(properties), &filters("equals:Retro")), Ok(None)));
}

#[test]
fn accepted_event_needs_its_optional_timestamps_to_normalise() {
    for name in ["DTSTART", "DTEND", "CREATED"] {
        let mut properties = standup();
        properties.push(prop(name, "yesterday"));
        assert!(matches!(
            extract(&event(properties), &filters("equals:Standup")),
            Err(Error::Inconsistency)
        ));
    }
}

#[test]
fn only_the_summary_is_filtered() {
    let properties = vec![
        prop("UID", "Standup"),
        prop("SUMMARY", "Retro"),
        prop("DESCRIPTION", "Standup"),
        prop("DTSTAMP", "19700101T000000Z"),
    ];
    assert!(matches!(extract(&event(properties), &filters("equals:Standup")), Ok(None)));
}

#[test]
fn last_occurrence_counts() {
    let properties = vec![
        prop("UID", "first"),
        prop("SUMMARY", "Retro"),
        prop("DTSTAMP", "yesterday"),
        prop("DTSTART", "19700101T000000Z"),
        prop("UID", "second"),
        prop("SUMMARY", "Standup"),
        prop("DTSTAMP", "19700101T000001Z"),
        prop("DTSTART", "19700101T000002Z"),
    ];
    let e = kept(extract(&event(properties), &filters("equals:Standup")));
    assert_eq!(e.uid, "second");
    assert_eq!(e.summary, "Standup");
    assert_eq!(e.stamp, at(1));
    assert_eq!(e.start, Some(at(2)));
}

#[test]
fn later_property_without_value_clears_an_optional_timestamp() {
    let mut properties = standup();
    properties.push(prop("DTSTART", "yesterday"));
    properties.push(bare("DTSTART"));
    let e = kept(extract(&event(properties), &FilterList::new()));
    assert_eq!(e.start, None);
}

#[test]
fn unknown_and_lower_case_names_are_ignored() {
    let mut properties = standup();
    properties.push(prop("uid", "other"));
    properties.push(prop("Summary", "Retro"));
    properties.push(prop("dtstamp", "yesterday"));
    properties.push(prop("DTSTART;", "yesterday"));
    properties.push(prop("LOCATION", "Room 1"));
    properties.push(prop("", "nothing"));
    let e = kept(extract(&event(properties), &filters("equals:Standup")));
    assert_eq!(e.uid, "1@example.org");
    assert_eq!(e.summary, "Standup");
    assert_eq!(e.stamp, at(0));
    assert_eq!(e.start, None);
}

#[test]
fn classify_knows_six_names() {
    assert_eq!(classify("UID"), Some(Field::Uid));
    assert_eq!(classify("SUMMARY"), Some(Field::Summary));
    assert_eq!(classify("DTSTAMP"), Some(Field::Stamp));
    assert_eq!(classify("DTSTART"), Some(Field::Start));
    assert_eq!(classify("DTEND"), Some(Field::End));
    assert_eq!(classify("CREATED"), Some(Field::Created));
    assert_eq!(classify("created"), None);
    assert_eq!(classify("LAST-MODIFIED"), None);
    assert_eq!(classify(""), None);
}

#[test]
fn candidate_starts_blank_and_observes() {
    let mut candidate = Candidate::new();
    assert!(candidate.uid.is_none() && candidate.summary.is_none() && candidate.stamp.is_none());
    assert!(candidate.start.is_none() && candidate.end.is_none() && candidate.created.is_none());
    candidate.observe(&prop("UID", "1"));
    candidate.observe(&prop("DTEND", "yesterday"));
    candidate.observe(&prop("CREATED", "19700101T000000Z"));
    assert_eq!(candidate.uid.as_deref(), Some("1"));
    assert_eq!(candidate.end, Some(Err(DateParseError::UnparsableTimestamp)));
    assert_eq!(candidate.created, Some(Ok(at(0))));
    assert!(candidate.summary.is_none());
}

fn complete() -> Candidate {
    Candidate {
        uid: Some("1".to_string()),
        summary: Some("Standup".to_string()),
        stamp: Some(Ok(at(7))),
        start: None,
        end: None,
        created: None,
    }
}

#[test]
fn finish_keeps_an_accepted_complete_candidate() {
    let mut candidate = complete();
    candidate.start = Some(Ok(at(8)));
    candidate.end = Some(Ok(at(9)));
    candidate.created = Some(Ok(at(6)));
    let e = kept(candidate.finish(true));
    assert_eq!(e.uid, "1");
    assert_eq!(e.summary, "Standup");
    assert_eq!((e.stamp, e.start, e.end, e.created), (at(7), Some(at(8)), Some(at(9)), Some(at(6))));
}

#[test]
fn finish_drops_what_is_incomplete_or_rejected() {
    assert!(matches!(complete().finish(false), Ok(None)));
    let mut candidate = complete();
    candidate.uid = None;
    candidate.stamp = Some(Err(DateParseError::UnparsableTimestamp));
    assert!(matches!(candidate.finish(true), Ok(None)));
    let mut candidate = complete();
    candidate.summary = None;
    assert!(matches!(candidate.finish(true), Ok(None)));
    let mut candidate = complete();
    candidate.stamp = None;
    assert!(matches!(candidate.finish(true), Ok(None)));
}

#[test]
fn finish_fails_on_a_malformed_stamp_before_the_verdict_counts() {
    for accepted in [true, false] {
        let mut candidate = complete();
        candidate.stamp = Some(Err(DateParseError::UnparsableTimestamp));
        assert!(matches!(candidate.finish(accepted), Err(Error::Inconsistency)));
    }
}

#[test]
fn finish_fails_on_a_malformed_optional_timestamp_only_when_accepted() {
    let malformed = Some(Err(DateParseError::UnparsableTimestamp));
    for accepted in [true, false] {
        let mut with_start = complete();
        with_start.start = malformed;
        let mut with_end = complete();
        with_end.end = malformed;
        let mut with_creation = complete();
        with_creation.created = malformed;
        for candidate in [with_start, with_end, with_creation] {
            let outcome = candidate.finish(accepted);
            if accepted {
                assert!(matches!(outcome, Err(Error::Inconsistency)));
            } else {
                assert!(matches!(outcome, Ok(None)));
            }
        }
    }
}

fn normalised() -> Event {
    Event {
        uid: "1@example.org".to_string(),
        summary: "Standup".to_string(),
        stamp: at(0),
        created: Some(at(-1)),
        start: Some(at(18_000)),
        end: Some(at(21_600)),
    }
}

#[test]
fn event_text_writes_each_timestamp_from_its_own_field() {
    let EventText { uid, summary, stamp, created, start, end } = normalised().to_text().unwrap();
    assert_eq!(uid, "1@example.org");
    assert_eq!(summary, "Standup");
    assert_eq!(stamp, "19700101T000000Z");
    assert_eq!(created.as_deref(), Some("19691231T235959Z"));
    assert_eq!(start.as_deref(), Some("19700101T050000Z"));
    assert_eq!(end.as_deref(), Some("19700101T060000Z"));
}

#[test]
fn event_text_leaves_absent_timestamps_absent() {
    let mut event = normalised();
    event.created = None;
    event.end = None;
    let text = event.to_text().unwrap();
    assert_eq!(text.created, None);
    assert_eq!(text.start.as_deref(), Some("19700101T050000Z"));
    assert_eq!(text.end, None);
}

#[test]
fn event_text_needs_every_timestamp_within_the_calendar() {
    let mut event = normalised();
    event.stamp = at(i64::MAX);
    assert!(event.to_text().is_none());
    let mut event = normalised();
    event.end = Some(at(i64::MIN));
    assert!(event.to_text().is_none());
}
