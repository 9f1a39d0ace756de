use ethglobal_ics::UtcTime;
use ethglobal_ics::textesc::{escape_text, unescape_text};
use ethglobal_ics::timefmt::{format_ical_dt, parse_ical_dt, parse_rfc_dt};
use ethglobal_ics::uid::event_uid;
use ethglobal_ics::request::{feed_path, json_escape, upstream_endpoint, upstream_origin, upstream_query};

#[test]
fn escape_text_exact() {
    assert_eq!(escape_text("a,b;c\\d\ne"), "a\\,b\\;c\\\\d\\ne");
    assert_eq!(escape_text("Denver, USA"), "Denver\\, USA");
    assert_eq!(escape_text("plain"), "plain");
    assert_eq!(escape_text(""), "");
}

#[test]
fn unescape_inverts_escape() {
    let cases = ["a,b;c\\d\ne", "", "Denver, USA", "line1\nline2\n\nhttps://x"];
    for c in cases {
        assert_eq!(unescape_text(&escape_text(c)), c);
    }
    assert_eq!(unescape_text("a\\Nb"), "a\nb");
}

#[test]
fn format_ical_dt_exact() {
    let t = UtcTime { year: 2024, month: 1, day: 1, hour: 0, minute: 0, second: 0 };
    assert_eq!(format_ical_dt(&t), "20240101T000000Z");
    let t2 = UtcTime { year: 999, month: 12, day: 31, hour: 23, minute: 59, second: 58 };
    assert_eq!(format_ical_dt(&t2), "09991231T235958Z");
}

#[test]
fn parse_ical_dt_inverts_format() {
    let t = UtcTime { year: 2025, month: 6, day: 15, hour: 12, minute: 34, second: 56 };
    assert_eq!(parse_ical_dt(&format_ical_dt(&t)), Some(t));
    assert_eq!(parse_ical_dt("not a datetime!"), None);
    assert_eq!(parse_ical_dt("20240001T000000Z"), None);
}

#[test]
fn parse_rfc_dt_accepts_upstream_form() {
    let t = parse_rfc_dt("2024-01-02T03:04:05Z").expect("well-formed timestamp");
    assert_eq!(t, UtcTime { year: 2024, month: 1, day: 2, hour: 3, minute: 4, second: 5 });
}

#[test]
fn parse_rfc_dt_tolerates_fraction_and_zero_offsets() {
    let expected = UtcTime { year: 2024, month: 1, day: 2, hour: 3, minute: 4, second: 5 };
    assert_eq!(parse_rfc_dt("2024-01-02T03:04:05.000Z"), Some(expected));
    assert_eq!(parse_rfc_dt("2024-01-02T03:04:05.123456789Z"), Some(expected));
    assert_eq!(parse_rfc_dt("2024-01-02T03:04:05+00:00"), Some(expected));
    assert_eq!(parse_rfc_dt("2024-01-02T03:04:05-00:00"), Some(expected));
    assert_eq!(parse_rfc_dt("2024-01-02T03:04:05.9+00:00"), Some(expected));
    assert_eq!(parse_rfc_dt("2024-01-02T03:04:05.Z"), None);
    assert_eq!(parse_rfc_dt("2024-01-02T03:04:05."), None);
    assert_eq!(parse_rfc_dt("2024-01-02T03:04:05.5"), None);
}

#[test]
fn parse_rfc_dt_rejects_bad_shapes() {
    assert_eq!(parse_rfc_dt("2024-01-02 03:04:05"), None);
    assert_eq!(parse_rfc_dt("2024-13-02T03:04:05Z"), None);
    assert_eq!(parse_rfc_dt("2024-00-02T03:04:05Z"), None);
    assert_eq!(parse_rfc_dt("2024-01-02T24:04:05Z"), None);
    assert_eq!(parse_rfc_dt(""), None);
    assert_eq!(parse_rfc_dt("2024-01-02T03:04:05+02:00"), None);
}

#[test]
fn uid_is_uuid_v5_over_dns_of_decimal_id() {
    let expected = uuid::Uuid::new_v5(&uuid::Uuid::NAMESPACE_DNS, b"1").to_string();
    assert_eq!(event_uid(1), expected);
    let expected42 = uuid::Uuid::new_v5(&uuid::Uuid::NAMESPACE_DNS, b"42").to_string();
    assert_eq!(event_uid(42), expected42);
}

#[test]
fn uid_shape_and_stability() {
    let a = event_uid(7);
    let b = event_uid(7);
    assert_eq!(a, b);
    assert_eq!(a.len(), 36);
    let chars: Vec<char> = a.chars().collect();
    assert_eq!(chars[8], '-');
    assert_eq!(chars[13], '-');
    assert_eq!(chars[14], '5');
    assert_eq!(chars[18], '-');
    assert_eq!(chars[23], '-');
    assert_ne!(a, event_uid(8));
}

#[test]
fn json_escape_exact() {
    assert_eq!(json_escape("a\"b\\c\nd\te\rf"), "a\\\"b\\\\c\\nd\\te\\rf");
}

#[test]
fn upstream_query_matches_wire_form() {
    let q = upstream_query();
    let expected = r#"{"query":"query {\n\tgetPublishedEvents {\n\t\tid\n\t\tname\n\t\tslug\n\t\ttype\n\t\tstartTime\n\t\tendTime\n\t\twebsite\n\t\tcity {\n\t\t\tname\n\t\t\tcountry {\n\t\t\t\tname\n\t\t\t}\n\t\t}\n\t}\n}"}"#;
    assert_eq!(q, expected);
    assert!(serde_json::from_str::<serde_json::Value>(&q).is_ok());
}

#[test]
fn upstream_constants() {
    assert_eq!(upstream_endpoint(), "https://api.ethglobal.com/graphql");
    assert_eq!(upstream_origin(), "https://ethglobal.com");
    assert_eq!(feed_path(), "/ethglobal.ics");
}
