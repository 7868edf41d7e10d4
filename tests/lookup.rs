use holidate::cache::{cache_file, cached_holidays, entry_serves, normalize_country, CacheEntry};
use holidate::date::Date;
use holidate::error::Error;
use holidate::fetch::{classify_response, uri_for};
use holidate::holiday::{Holiday, HolidayType};
use holidate::lookup::{Event, Lookup, Step};

fn date(year: i32, month: u8, day: u8) -> Date {
    Date::from_calendar_date(year, month, day).unwrap()
}

fn holiday(year: i32, month: u8, day: u8, name: &str) -> Holiday {
    Holiday::from_record(date(year, month, day), name.to_string(), None, vec![HolidayType::Public])
}

fn file_of(step: &Step) -> Vec<String> {
    match step {
        Step::ReadCache { file } => file.clone(),
        other => panic!("expected a cache read, got {:?}", other),
    }
}

fn names(holidays: &[Holiday]) -> Vec<String> {
    holidays.iter().map(|h| h.name.clone()).collect()
}

/// Answers a lookup's steps from the given pages by year, with an empty cache.
fn run(lookup: &mut Lookup, first: Step, pages: &dyn Fn(i32) -> Vec<Holiday>) -> Result<Vec<Holiday>, Error> {
    let mut step = first;
    let mut year: i32 = 0;
    loop {
        step = match step {
            Step::ReadCache { file } => {
                year = file[2].trim_end_matches(".json").parse().unwrap();
                lookup.step(Event::CacheRead { cached: None, now: 1_000_000 })
            }
            Step::Fetch { .. } => lookup.step(Event::Received { status: 200, body: b"[...]".to_vec() }),
            Step::Decode { .. } => lookup.step(Event::Decoded { holidays: pages(year), now: 1_000_000 }),
            Step::Store { entry, .. } => lookup.step(Event::Stored { entry }),
            Step::Done { holidays } => return Ok(holidays),
            Step::Failed { error } => return Err(error),
        };
    }
}

fn two_year_pages(year: i32) -> Vec<Holiday> {
    match year {
        2023 => vec![
            holiday(2023, 1, 1, "new year 23"),
            holiday(2023, 7, 4, "independence 23"),
            holiday(2023, 11, 23, "thanksgiving 23"),
            holiday(2023, 12, 25, "christmas 23"),
        ],
        2024 => vec![
            holiday(2024, 1, 1, "new year 24"),
            holiday(2024, 1, 15, "mlk 24"),
            holiday(2024, 2, 19, "presidents 24"),
            holiday(2024, 5, 27, "memorial 24"),
        ],
        _ => vec![],
    }
}

#[test]
fn pagination_continues_into_next_year() {
    let (mut lookup, first) = Lookup::new("us", date(2023, 11, 1), 5);
    let result = run(&mut lookup, first, &two_year_pages).unwrap();
    assert_eq!(
        names(&result),
        vec!["thanksgiving 23", "christmas 23", "new year 24", "mlk 24", "presidents 24"]
    );
}

#[test]
fn result_has_quantity_holidays_on_or_after_date_in_order() {
    let reference = date(2023, 7, 4);
    let (mut lookup, first) = Lookup::new("us", reference, 3);
    let result = run(&mut lookup, first, &two_year_pages).unwrap();
    assert_eq!(result.len(), 3);
    for h in &result {
        assert!(!h.date.is_before(&reference));
    }
    for w in result.windows(2) {
        assert!(!w[1].date.is_before(&w[0].date));
    }
    assert_eq!(names(&result), vec!["independence 23", "thanksgiving 23", "christmas 23"]);
}

#[test]
fn zero_quantity_needs_no_lookup() {
    let (_, first) = Lookup::new("us", date(2023, 1, 1), 0);
    match first {
        Step::Done { holidays } => assert!(holidays.is_empty()),
        other => panic!("unexpected {:?}", other),
    }
}

#[test]
fn exhausted_after_last_year() {
    let (mut lookup, first) = Lookup::new("us", date(9998, 6, 1), 2);
    let result = run(&mut lookup, first, &|_| vec![]);
    assert_eq!(result.unwrap_err(), Error::Exhausted);
}

#[test]
fn mixed_case_country_gives_same_key_and_result() {
    let (mut upper, first_upper) = Lookup::new("Us", date(2023, 11, 1), 5);
    let (mut lower, first_lower) = Lookup::new("us", date(2023, 11, 1), 5);
    assert_eq!(file_of(&first_upper), file_of(&first_lower));
    assert_eq!(file_of(&first_upper), vec!["holidate", "us", "2023.json"]);
    let a = run(&mut upper, first_upper, &two_year_pages).unwrap();
    let b = run(&mut lower, first_lower, &two_year_pages).unwrap();
    assert_eq!(names(&a), names(&b));
}

#[test]
fn fresh_cache_entry_is_served_without_fetch() {
    let (mut lookup, first) = Lookup::new("de", date(2024, 1, 1), 2);
    assert_eq!(file_of(&first), vec!["holidate", "de", "2024.json"]);
    let entry = CacheEntry {
        fetched_at: 1000,
        year: 2024,
        country_code: "de".to_string(),
        holidays: vec![holiday(2024, 1, 1, "neujahr"), holiday(2024, 3, 29, "karfreitag")],
    };
    match lookup.step(Event::CacheRead { cached: Some(entry), now: 1000 + 23 * 3600 }) {
        Step::Done { holidays } => assert_eq!(names(&holidays), vec!["neujahr", "karfreitag"]),
        other => panic!("unexpected {:?}", other),
    }
}

#[test]
fn missing_cache_entry_falls_through_to_fetch() {
    let (mut lookup, _) = Lookup::new("DE", date(2024, 1, 1), 2);
    match lookup.step(Event::CacheRead { cached: None, now: 5 }) {
        Step::Fetch { uri } => assert_eq!(uri, "https://date.nager.at/api/v3/publicholidays/2024/de"),
        other => panic!("unexpected {:?}", other),
    }
}

#[test]
fn stale_cache_entry_falls_through_to_fetch() {
    let (mut lookup, _) = Lookup::new("de", date(2024, 1, 1), 2);
    let entry = CacheEntry {
        fetched_at: 1000,
        year: 2024,
        country_code: "de".to_string(),
        holidays: vec![holiday(2024, 1, 1, "neujahr")],
    };
    let now = 1000 + 86400 + 1;
    assert!(matches!(lookup.step(Event::CacheRead { cached: Some(entry), now }), Step::Fetch { .. }));
}

#[test]
fn fetched_page_is_stored_then_used() {
    let (mut lookup, _) = Lookup::new("de", date(2024, 1, 2), 1);
    assert!(matches!(lookup.step(Event::CacheRead { cached: None, now: 7 }), Step::Fetch { .. }));
    assert!(matches!(
        lookup.step(Event::Received { status: 200, body: b"[1]".to_vec() }),
        Step::Decode { .. }
    ));
    let page = vec![holiday(2024, 1, 1, "neujahr"), holiday(2024, 3, 29, "karfreitag")];
    let entry = match lookup.step(Event::Decoded { holidays: page, now: 7 }) {
        Step::Store { file, entry } => {
            assert_eq!(file, vec!["holidate", "de", "2024.json"]);
            assert_eq!(entry.fetched_at, 7);
            assert_eq!(entry.year, 2024);
            assert_eq!(entry.country_code, "de");
            assert_eq!(entry.holidays.len(), 2);
            entry
        }
        other => panic!("unexpected {:?}", other),
    };
    match lookup.step(Event::Stored { entry }) {
        Step::Done { holidays } => assert_eq!(names(&holidays), vec!["karfreitag"]),
        other => panic!("unexpected {:?}", other),
    }
}

#[test]
fn not_found_means_unknown_country() {
    let (mut lookup, _) = Lookup::new("xx", date(2024, 1, 1), 1);
    lookup.step(Event::CacheRead { cached: None, now: 0 });
    match lookup.step(Event::Received { status: 404, body: b"not found".to_vec() }) {
        Step::Failed { error } => assert_eq!(error, Error::UnknownCountry),
        other => panic!("unexpected {:?}", other),
    }
}

#[test]
fn empty_success_means_unknown_country() {
    let (mut lookup, _) = Lookup::new("xx", date(2024, 1, 1), 1);
    lookup.step(Event::CacheRead { cached: None, now: 0 });
    match lookup.step(Event::Received { status: 200, body: Vec::new() }) {
        Step::Failed { error } => assert_eq!(error, Error::UnknownCountry),
        other => panic!("unexpected {:?}", other),
    }
}

#[test]
fn accepts_only_the_awaited_event() {
    let (lookup, _) = Lookup::new("us", date(2024, 1, 1), 1);
    assert!(lookup.accepts(&Event::CacheRead { cached: None, now: 0 }));
    assert!(!lookup.accepts(&Event::Received { status: 200, body: Vec::new() }));
}

#[test]
fn classify_statuses() {
    assert_eq!(classify_response(404, b"{}"), Err(Error::UnknownCountry));
    assert_eq!(classify_response(404, b""), Err(Error::UnknownCountry));
    assert_eq!(classify_response(200, b""), Err(Error::UnknownCountry));
    assert_eq!(classify_response(500, b"oops"), Err(Error::Status(500)));
    assert_eq!(classify_response(400, b""), Err(Error::Status(400)));
    assert_eq!(classify_response(200, b"[]"), Ok(()));
    assert_eq!(classify_response(204, b"x"), Ok(()));
    assert_eq!(classify_response(299, b"x"), Ok(()));
    assert_eq!(classify_response(304, b"[1]"), Err(Error::Status(304)));
    assert_eq!(classify_response(304, b""), Err(Error::Status(304)));
    assert_eq!(classify_response(101, b"x"), Err(Error::Status(101)));
    assert_eq!(classify_response(199, b"x"), Err(Error::Status(199)));
    assert_eq!(classify_response(300, b"x"), Err(Error::Status(300)));
    assert_eq!(classify_response(600, b"x"), Err(Error::Status(600)));
}

#[test]
fn redirect_status_ends_lookup_with_status_error() {
    let (mut lookup, _) = Lookup::new("us", date(2024, 1, 1), 1);
    lookup.step(Event::CacheRead { cached: None, now: 0 });
    match lookup.step(Event::Received { status: 304, body: b"[]".to_vec() }) {
        Step::Failed { error } => assert_eq!(error, Error::Status(304)),
        other => panic!("unexpected {:?}", other),
    }
}

#[test]
fn uri_is_exact() {
    assert_eq!(uri_for(2024, "us"), "https://date.nager.at/api/v3/publicholidays/2024/us");
    assert_eq!(uri_for(7, "gb"), "https://date.nager.at/api/v3/publicholidays/7/gb");
    assert_eq!(uri_for(-45, "it"), "https://date.nager.at/api/v3/publicholidays/-45/it");
    assert_eq!(uri_for(0, "fr"), "https://date.nager.at/api/v3/publicholidays/0/fr");
}

#[test]
fn cache_file_is_exact() {
    assert_eq!(cache_file(2024, "us"), vec!["holidate", "us", "2024.json"]);
    assert_eq!(cache_file(-1, "nl"), vec!["holidate", "nl", "-1.json"]);
    assert_eq!(cache_file(2024, "de-by_2"), vec!["holidate", "de-by_2", "2024.json"]);
}

#[test]
fn cache_directory_escapes_unsafe_codes() {
    assert_eq!(cache_file(2024, "")[1], "%");
    assert_eq!(cache_file(2024, ".")[1], "%00002e");
    assert_eq!(cache_file(2024, "..")[1], "%00002e%00002e");
    assert_eq!(cache_file(2024, "../x")[1], "%00002e%00002e%00002fx");
    assert_eq!(cache_file(2024, "a/b")[1], "a%00002fb");
    assert_eq!(cache_file(2024, "Us")[1], "%000055s");
    assert_eq!(cache_file(2024, "%")[1], "%000025");
    assert_eq!(cache_file(2024, "é")[1], "%0000e9");
}

#[test]
fn country_code_is_lower_cased() {
    assert_eq!(normalize_country("Us"), "us");
    assert_eq!(normalize_country("DE"), "de");
    assert_eq!(normalize_country("fr"), "fr");
}

fn entry(fetched_at: i64, year: i32, code: &str) -> CacheEntry {
    CacheEntry {
        fetched_at,
        year,
        country_code: code.to_string(),
        holidays: vec![holiday(year, 5, 1, "labour"), holiday(year, 12, 25, "christmas")],
    }
}

#[test]
fn freshness_boundary() {
    let now: i64 = 1_700_000_000;
    assert!(!entry_serves(&entry(now - 86400 - 1, 2024, "us"), 2024, "us", now));
    assert!(entry_serves(&entry(now - 86400, 2024, "us"), 2024, "us", now));
    assert!(entry_serves(&entry(now - 23 * 3600, 2024, "us"), 2024, "us", now));
}

#[test]
fn entry_for_other_key_is_not_served() {
    assert!(!entry_serves(&entry(10, 2023, "us"), 2024, "us", 10));
    assert!(!entry_serves(&entry(10, 2024, "ca"), 2024, "us", 10));
    assert!(!entry_serves(&entry(10, 2024, "US"), 2024, "us", 10));
}

#[test]
fn cache_round_trip() {
    let got = cached_holidays(Some(entry(100, 2024, "us")), 2024, "us", 200).unwrap();
    assert_eq!(names(&got), vec!["labour", "christmas"]);
    assert_eq!(got[1].date, date(2024, 12, 25));
    assert!(cached_holidays(None, 2024, "us", 200).is_none());
    assert!(cached_holidays(Some(entry(100, 2024, "us")), 2025, "us", 200).is_none());
}

#[test]
fn calendar_dates() {
    assert!(Date::from_calendar_date(2024, 2, 29).is_some());
    assert!(Date::from_calendar_date(2023, 2, 29).is_none());
    assert!(Date::from_calendar_date(1900, 2, 29).is_none());
    assert!(Date::from_calendar_date(2000, 2, 29).is_some());
    assert!(Date::from_calendar_date(2024, 13, 1).is_none());
    assert!(Date::from_calendar_date(2024, 4, 31).is_none());
    assert!(Date::from_calendar_date(2024, 0, 1).is_none());
    assert!(Date::from_calendar_date(10000, 1, 1).is_none());
    let d = date(2024, 3, 9);
    assert_eq!((d.year(), d.month, d.day), (2024, 3, 9));
}

#[test]
fn date_order() {
    assert!(date(2023, 12, 31).is_before(&date(2024, 1, 1)));
    assert!(date(2024, 1, 31).is_before(&date(2024, 2, 1)));
    assert!(date(2024, 2, 1).is_before(&date(2024, 2, 2)));
    assert!(!date(2024, 2, 2).is_before(&date(2024, 2, 2)));
    assert!(!date(2024, 2, 3).is_before(&date(2024, 2, 2)));
}

#[test]
fn null_counties_become_empty() {
    let h = Holiday::from_record(date(2024, 1, 1), "x".to_string(), None, vec![HolidayType::Bank]);
    assert!(h.counties.is_empty());
    let h = Holiday::from_record(
        date(2024, 1, 1),
        "y".to_string(),
        Some(vec!["DE-BW".to_string()]),
        vec![HolidayType::Public, HolidayType::School],
    );
    assert_eq!(h.counties, vec!["DE-BW"]);
    assert_eq!(h.types, vec![HolidayType::Public, HolidayType::School]);
}

#[test]
fn holiday_type_names() {
    assert_eq!(HolidayType::Public.name(), "Public");
    assert_eq!(HolidayType::Bank.name(), "Bank");
    assert_eq!(HolidayType::School.name(), "School");
    assert_eq!(HolidayType::Authorities.name(), "Authorities");
    assert_eq!(HolidayType::Optional.name(), "Optional");
    assert_eq!(HolidayType::Observance.name(), "Observance");
}
