use notion_ical::calendar::{generate_calendar, timezone_usable, EventTiming};
use notion_ical::dates::{fmt_date, parse_date, parse_timestamp_utc, Date, Timestamp};
use notion_ical::event::{
    extract_event_time, fmt_datetime, DateRange, DateValue, Event, NormalizeError, PropertyValue,
    RawRecord,
};
use notion_ical::query::{FetchDriver, Filter, PageResponse, PropertyCondition};

fn ts(year: u32, month: u32, day: u32, hour: u32, minute: u32, second: u32) -> Timestamp {
    Timestamp { date: Date { year, month, day }, hour, minute, second }
}

fn record(
    id: &str,
    title: Option<&str>,
    changed: Timestamp,
    properties: Vec<(String, PropertyValue)>,
) -> RawRecord {
    RawRecord {
        id: id.to_string(),
        title: title.map(|t| t.to_string()),
        changed,
        properties,
    }
}

fn event_time(start: DateValue, end: Option<DateValue>) -> (String, PropertyValue) {
    (
        "Event time".to_string(),
        PropertyValue::Date { value: Some(DateRange { start, end }) },
    )
}

#[test]
fn format_datetime() {
    let date_time = ts(2023, 11, 15, 11, 0, 0);
    let formatted = fmt_datetime(&DateValue::DateTime(date_time));
    assert_eq!(formatted, "20231115T110000Z");
}

#[test]
fn date_round_trip() {
    let d = Date { year: 2024, month: 6, day: 1 };
    let text = fmt_date(&d);
    assert_eq!(text, "20240601");
    assert_eq!(parse_date(&text), Some(d));

    let early = Date { year: 7, month: 12, day: 31 };
    let text = fmt_date(&early);
    assert_eq!(text, "00071231");
    assert_eq!(parse_date(&text), Some(early));
}

#[test]
fn timestamp_round_trip() {
    let t = ts(2023, 1, 2, 3, 4, 5);
    let text = fmt_datetime(&DateValue::DateTime(t));
    assert_eq!(text, "20230102T030405Z");
    assert_eq!(parse_timestamp_utc(&text), Some(t));
}

#[test]
fn parse_rejects_malformed_text() {
    assert_eq!(parse_date("2024"), None);
    assert_eq!(parse_date("202406xx"), None);
    assert_eq!(parse_date("20241301"), None);
    assert_eq!(parse_date("20240100"), None);
    assert_eq!(parse_timestamp_utc("20230102T030405"), None);
    assert_eq!(parse_timestamp_utc("20230102X030405Z"), None);
    assert_eq!(parse_timestamp_utc("20230102T240000Z"), None);
}

#[test]
fn normalize_without_event_time_fails() {
    let rec = record("r-1", Some("Untimed"), ts(2024, 1, 1, 0, 0, 0), vec![]);
    assert_eq!(Event::from_record(&rec), Err(NormalizeError::MissingEventTime));

    let wrong_type = record(
        "r-2",
        Some("Wrong"),
        ts(2024, 1, 1, 0, 0, 0),
        vec![("Event time".to_string(), PropertyValue::Other)],
    );
    assert_eq!(Event::from_record(&wrong_type), Err(NormalizeError::MissingEventTime));

    let unset = record(
        "r-3",
        Some("Unset"),
        ts(2024, 1, 1, 0, 0, 0),
        vec![("Event time".to_string(), PropertyValue::Date { value: None })],
    );
    assert_eq!(Event::from_record(&unset), Err(NormalizeError::MissingEventTime));
}

#[test]
fn extract_takes_first_named_property() {
    let props = vec![
        ("Other".to_string(), PropertyValue::Other),
        event_time(DateValue::Date(Date { year: 2024, month: 6, day: 1 }), None),
    ];
    let range = extract_event_time(&props).unwrap();
    assert_eq!(range.start, DateValue::Date(Date { year: 2024, month: 6, day: 1 }));
    assert_eq!(range.end, None);
}

#[test]
fn allday_without_end_serializes_single_day() {
    let rec = record(
        "r-4",
        Some("Holiday"),
        ts(2024, 1, 1, 0, 0, 0),
        vec![event_time(DateValue::Date(Date { year: 2024, month: 6, day: 1 }), None)],
    );
    let event = Event::from_record(&rec).unwrap();
    let fields = event.to_fields(&"UTC".to_string());
    match fields.timing {
        EventTiming::AllDaySingle { day } => assert_eq!(day, "20240601"),
        _ => panic!("expected a single-day all-day block"),
    }
}

#[test]
fn timed_with_end_serializes_distinct_timestamps() {
    let rec = record(
        "r-5",
        Some("Meeting"),
        ts(2024, 1, 1, 0, 0, 0),
        vec![event_time(
            DateValue::DateTime(ts(2024, 6, 1, 9, 0, 0)),
            Some(DateValue::DateTime(ts(2024, 6, 1, 10, 30, 0))),
        )],
    );
    let event = Event::from_record(&rec).unwrap();
    let fields = event.to_fields(&"UTC".to_string());
    match fields.timing {
        EventTiming::Timed { tzid, start, end } => {
            assert_eq!(tzid, "UTC");
            assert_eq!(start, "20240601T090000");
            assert_eq!(end, Some("20240601T103000".to_string()));
            assert!(!start.is_empty());
            assert_ne!(Some(start), end);
        }
        _ => panic!("expected a time-bound event"),
    }
}

#[test]
fn pagination_two_pages_in_order() {
    let page = |id: &str, has_more: bool, cursor: Option<&str>| PageResponse {
        records: vec![record(
            id,
            Some(id),
            ts(2024, 1, 1, 0, 0, 0),
            vec![event_time(DateValue::Date(Date { year: 2024, month: 6, day: 1 }), None)],
        )],
        has_more,
        next_cursor: cursor.map(|c| c.to_string()),
    };

    let mut requests: usize = 0;
    let (mut driver, first_request) = FetchDriver::begin("user-1".to_string());
    requests += 1;
    assert_eq!(first_request.cursor, None);

    let next = driver.on_page(page("first", true, Some("cursor-1"))).unwrap();
    let second_request = next.expect("a second request must follow");
    requests += 1;
    assert_eq!(second_request.cursor, Some("cursor-1".to_string()));

    let done = driver.on_page(page("second", false, None)).unwrap();
    assert!(done.is_none());

    assert_eq!(requests, 2);
    let events = driver.into_events();
    let ids: Vec<&str> = events.iter().map(|e| e.id.as_str()).collect();
    assert_eq!(ids, vec!["first", "second"]);
}

#[test]
fn pagination_aborts_on_first_bad_record() {
    let bad_page = PageResponse {
        records: vec![
            record(
                "good",
                Some("good"),
                ts(2024, 1, 1, 0, 0, 0),
                vec![event_time(DateValue::Date(Date { year: 2024, month: 6, day: 1 }), None)],
            ),
            record("bad", Some("bad"), ts(2024, 1, 1, 0, 0, 0), vec![]),
        ],
        has_more: false,
        next_cursor: None,
    };
    let (mut driver, _) = FetchDriver::begin("user-1".to_string());
    assert!(matches!(driver.on_page(bad_page), Err(NormalizeError::MissingEventTime)));
    assert_eq!(driver.events.len(), 0);
}

#[test]
fn end_to_end_document() {
    let rec = record(
        "abc-123",
        Some("Sync"),
        ts(2024, 1, 2, 3, 4, 5),
        vec![event_time(
            DateValue::Date(Date { year: 2024, month: 6, day: 1 }),
            Some(DateValue::Date(Date { year: 2024, month: 6, day: 2 })),
        )],
    );
    let event = Event::from_record(&rec).unwrap();
    let doc = generate_calendar(vec![event], &"test-prod".to_string(), &"UTC".to_string());

    assert!(doc.contains("BEGIN:VCALENDAR"));
    assert!(doc.contains("VERSION:2.0"));
    assert!(doc.contains("CALSCALE:GREGORIAN"));
    assert!(doc.contains("PRODID:test-prod"));
    assert!(doc.contains("BEGIN:VEVENT"));
    assert!(doc.contains("UID:abc-123"));
    assert!(doc.contains("DTSTAMP:20240102T030405Z"));
    assert!(doc.contains("DTSTART;VALUE=DATE:20240601"));
    assert!(doc.contains("DTEND;VALUE=DATE:20240602"));
    assert!(doc.contains("SUMMARY:Sync"));
    assert!(doc.contains("DESCRIPTION:https://www.notion.so/Sync-abc123"));
    assert!(doc.contains("END:VEVENT"));
    assert!(doc.contains("END:VCALENDAR"));
}

#[test]
fn timed_document_carries_tzid_and_omits_absent_end() {
    let rec = record(
        "t-1",
        Some("Call"),
        ts(2024, 1, 2, 3, 4, 5),
        vec![event_time(DateValue::DateTime(ts(2024, 6, 1, 9, 0, 0)), None)],
    );
    let event = Event::from_record(&rec).unwrap();
    let doc = generate_calendar(
        vec![event],
        &"test-prod".to_string(),
        &"Europe/Berlin".to_string(),
    );
    assert!(doc.contains("DTSTART;TZID=Europe/Berlin:20240601T090000"));
    assert!(!doc.contains("DTEND"));
}

#[test]
fn empty_calendar_has_no_events() {
    let doc = generate_calendar(Vec::new(), &"test-prod".to_string(), &"UTC".to_string());
    assert!(doc.contains("BEGIN:VCALENDAR"));
    assert!(doc.contains("PRODID:test-prod"));
    assert!(!doc.contains("BEGIN:VEVENT"));
}

#[test]
fn missing_title_gets_placeholder() {
    let rec = record(
        "r-6",
        None,
        ts(2024, 1, 1, 0, 0, 0),
        vec![event_time(DateValue::Date(Date { year: 2024, month: 6, day: 1 }), None)],
    );
    let event = Event::from_record(&rec).unwrap();
    assert_eq!(event.title, "No Title");
}

#[test]
fn description_link_rewrites_title_and_id() {
    let rec = record(
        "ab-cd-12",
        Some("Team weekly sync"),
        ts(2024, 1, 1, 0, 0, 0),
        vec![event_time(DateValue::Date(Date { year: 2024, month: 6, day: 1 }), None)],
    );
    let event = Event::from_record(&rec).unwrap();
    assert_eq!(event.description(), "https://www.notion.so/Team-weekly-sync-abcd12");
}

#[test]
fn filter_combines_attendee_and_window_conditions() {
    let filter = notion_ical::query::participant_window_filter(&"user-1".to_string());
    match &filter {
        Filter::And(parts) => {
            assert_eq!(parts.len(), 2);
            match &parts[0] {
                Filter::Property { property, condition } => {
                    assert_eq!(property, "Attendees");
                    match condition {
                        PropertyCondition::PeopleContains(user) => assert_eq!(user, "user-1"),
                        _ => panic!("expected the attendee-contains condition"),
                    }
                }
                _ => panic!("expected a property condition"),
            }
            match &parts[1] {
                Filter::Property { property, condition } => {
                    assert_eq!(property, "Event time");
                    assert!(matches!(condition, PropertyCondition::DateNextYear));
                }
                _ => panic!("expected a property condition"),
            }
        }
        _ => panic!("expected a conjunction"),
    }
}

#[test]
fn largest_date_round_trips() {
    let d = Date { year: 9999, month: 12, day: 31 };
    let text = fmt_date(&d);
    assert_eq!(text, "99991231");
    assert_eq!(parse_date(&text), Some(d));
}

#[test]
fn duplicate_records_across_pages_stay_duplicated() {
    let page = |has_more: bool| PageResponse {
        records: vec![record(
            "dup",
            Some("dup"),
            ts(2024, 1, 1, 0, 0, 0),
            vec![event_time(DateValue::Date(Date { year: 2024, month: 6, day: 1 }), None)],
        )],
        has_more,
        next_cursor: None,
    };
    let (mut driver, _) = FetchDriver::begin("user-1".to_string());
    driver.on_page(page(true)).unwrap();
    driver.on_page(page(false)).unwrap();
    let events = driver.into_events();
    assert_eq!(events.len(), 2);
    assert_eq!(events[0].id, "dup");
    assert_eq!(events[1].id, "dup");
}

#[test]
fn timezone_check_requires_non_empty_ascii() {
    assert!(timezone_usable(&"UTC".to_string()));
    assert!(timezone_usable(&"Europe/Berlin".to_string()));
    assert!(!timezone_usable(&"".to_string()));
    assert!(!timezone_usable(&"Köln/Standardzeit".to_string()));
}

#[test]
fn validity_checks_reject_out_of_range_values() {
    assert!(Date { year: 2024, month: 6, day: 1 }.is_valid());
    assert!(!Date { year: 10000, month: 6, day: 1 }.is_valid());
    assert!(!Date { year: 2024, month: 0, day: 1 }.is_valid());
    assert!(!ts(2024, 6, 1, 24, 0, 0).is_valid());
    assert!(ts(2024, 6, 1, 23, 59, 59).is_valid());
}
