//! Raw values, dates, versions and environment snapshots.

use argenv::{
    json_text_token, scalar_token, EnvVars, FromRaw, JsonValue, LogLevel, ReviewDate, Tristate,
    Version,
};

#[test]
fn booleans_read_the_usual_words() {
    for t in ["true", "1", "yes", "on"] {
        assert_eq!(bool::from_raw(t), Some(true), "{t}");
    }
    for f in ["false", "0", "no", "off"] {
        assert_eq!(bool::from_raw(f), Some(false), "{f}");
    }
    assert_eq!(bool::from_raw("TRUE"), None);
    assert_eq!(bool::from_raw(""), None);
}

#[test]
fn unsigned_numbers_must_fit() {
    assert_eq!(u16::from_raw("5432"), Some(5432));
    assert_eq!(u16::from_raw("65535"), Some(65535));
    assert_eq!(u16::from_raw("65536"), None);
    assert_eq!(u8::from_raw("256"), None);
    assert_eq!(u32::from_raw("4294967295"), Some(u32::MAX));
    assert_eq!(u64::from_raw("18446744073709551615"), Some(u64::MAX));
    assert_eq!(u64::from_raw("18446744073709551616"), None);
    assert_eq!(u16::from_raw(""), None);
    assert_eq!(u16::from_raw("-1"), None);
    assert_eq!(u16::from_raw("notanumber"), None);
    assert_eq!(u16::from_raw("007"), Some(7));
}

#[test]
fn strings_take_any_text() {
    assert_eq!(String::from_raw(""), Some(String::new()));
    assert_eq!(String::from_raw("owner/repo"), Some("owner/repo".to_string()));
}

#[test]
fn closed_sets_read_their_tokens() {
    assert_eq!(LogLevel::from_raw("warn"), Some(LogLevel::Warn));
    assert_eq!(LogLevel::from_raw("Warn"), None);
    assert_eq!(LogLevel::tokens(), &["trace", "debug", "info", "warn", "error"]);
    assert_eq!(Tristate::from_raw("auto"), Some(Tristate::Auto));
    assert_eq!(Tristate::from_raw("maybe"), None);
    assert_eq!(Tristate::tokens(), &["auto", "on", "off"]);
}

#[test]
fn dates_validate_print_and_step() {
    assert!(ReviewDate::new(2024, 2, 29).is_some());
    assert!(ReviewDate::new(2023, 2, 29).is_none());
    assert!(ReviewDate::new(2024, 13, 1).is_none());
    assert!(ReviewDate::new(0, 1, 1).is_none());
    let d = ReviewDate::new(2023, 12, 31).unwrap();
    assert_eq!(d.to_text(), "2023-12-31");
    assert_eq!(d.next_day().to_text(), "2024-01-01");
    assert_eq!(ReviewDate::new(2024, 2, 28).unwrap().next_day().to_text(), "2024-02-29");
    assert_eq!(ReviewDate::new(7, 3, 9).unwrap().to_text(), "0007-03-09");
    let last = ReviewDate::new(9999, 12, 31).unwrap();
    assert_eq!(last.next_day(), last);
    assert!(ReviewDate::new(2024, 1, 2).unwrap().is_after(&ReviewDate::new(2024, 1, 1).unwrap()));
}

#[test]
fn days_since_the_epoch_become_calendar_days() {
    assert_eq!(ReviewDate::from_days_since_epoch(0).to_text(), "1970-01-01");
    assert_eq!(ReviewDate::from_days_since_epoch(59).to_text(), "1970-03-01");
    assert_eq!(ReviewDate::from_days_since_epoch(19782).to_text(), "2024-02-29");
    assert_eq!(ReviewDate::from_days_since_epoch(u64::MAX).to_text(), "9999-12-31");
    let today = ReviewDate::today();
    assert!(today.year >= 2024);
}

#[test]
fn versions_print_and_order() {
    let v = Version::new(1, 10, 3);
    assert_eq!(v.to_text(), "1.10.3");
    assert!(v.is_newer_than(&Version::new(1, 9, 99)));
    assert!(!v.is_newer_than(&v));
    assert_eq!(argenv::this_version().to_text(), "0.2.0");
}

#[test]
fn an_environment_gives_back_what_was_set() {
    let mut env = EnvVars::new();
    assert_eq!(env.get("A"), None);
    env.set("A", "1");
    env.set("B", "2");
    env.set("A", "3");
    assert_eq!(env.get("A").as_deref(), Some("3"));
    assert_eq!(env.get("B").as_deref(), Some("2"));
    assert_eq!(env.get("C"), None);
}

#[test]
fn json_defaults_read_back_as_raw_tokens() {
    assert_eq!(json_text_token("\"info\"").as_deref(), Some("info"));
    assert_eq!(json_text_token("true").as_deref(), Some("true"));
    assert_eq!(json_text_token("false").as_deref(), Some("false"));
    assert_eq!(json_text_token("7").as_deref(), Some("7"));
    assert_eq!(json_text_token("null"), None);
    assert_eq!(json_text_token("[1, 2]"), None);
    assert_eq!(json_text_token("{\"a\": 1}"), None);
    assert_eq!(json_text_token("not json"), None);
}

#[test]
fn each_json_kind_maps_to_its_token() {
    assert_eq!(scalar_token(JsonValue::Str("x y".to_string())).as_deref(), Some("x y"));
    assert_eq!(scalar_token(JsonValue::Bool(true)).as_deref(), Some("true"));
    assert_eq!(scalar_token(JsonValue::Bool(false)).as_deref(), Some("false"));
    assert_eq!(scalar_token(JsonValue::Number("-3".to_string())).as_deref(), Some("-3"));
    assert_eq!(scalar_token(JsonValue::Null), None);
    assert_eq!(scalar_token(JsonValue::Array), None);
    assert_eq!(scalar_token(JsonValue::Object), None);
    assert_eq!(scalar_token(JsonValue::Invalid), None);
}
