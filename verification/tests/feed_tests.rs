use ethglobal_ics::UtcTime;
use ethglobal_ics::handler::{feed_response, feed_response_for_events, status_error_response, FetchResult};
use ethglobal_ics::ical::render_feed;
use ethglobal_ics::mapper::{build_feed, map_event};
use ethglobal_ics::model::{CityData, CountryData, PublishedEvent};
use ethglobal_ics::uid::event_uid;
use ethglobal_ics::reader::parse_calendar;
use ethglobal_ics::upstream::{parse_published_events, FeedError};

fn sample_event(id: u64, name: &str, slug: &str) -> PublishedEvent {
    PublishedEvent {
        id,
        name: name.to_string(),
        slug: slug.to_string(),
        event_type: "hackathon".to_string(),
        start_time: UtcTime { year: 2024, month: 1, day: 1, hour: 0, minute: 0, second: 0 },
        end_time: UtcTime { year: 2024, month: 1, day: 2, hour: 0, minute: 0, second: 0 },
        website: Some("https://example.com".to_string()),
        city: Some(CityData {
            name: "Denver".to_string(),
            country: Some(CountryData { name: "USA".to_string() }),
        }),
    }
}

const SCENARIO_A_BODY: &str = r#"{"data":{"getPublishedEvents":[{"id":1,"name":"Devcon","slug":"devcon","type":"hackathon","startTime":"2024-01-01T00:00:00Z","endTime":"2024-01-02T00:00:00Z","website":"https://example.com","city":{"name":"Denver","country":{"name":"USA"}}}]}}"#;

#[test]
fn mapper_composes_location_and_description() {
    let c = map_event(&sample_event(1, "Devcon", "devcon"));
    assert_eq!(c.uid, event_uid(1));
    assert_eq!(c.summary, "Devcon");
    assert_eq!(c.location.as_deref(), Some("Denver, USA"));
    assert_eq!(c.url.as_deref(), Some("https://example.com"));
    assert_eq!(c.description, "Devcon\nhackathon\n\nhttps://ethglobal.com/events/devcon");
}

#[test]
fn mapper_tolerates_city_without_country() {
    let mut e = sample_event(9, "NoCountry", "no-country");
    e.city = Some(CityData { name: "Denver".to_string(), country: None });
    let c = map_event(&e);
    assert_eq!(c.location.as_deref(), Some("Denver"));
}

#[test]
fn city_without_country_still_served() {
    let mut e = sample_event(9, "NoCountry", "no-country");
    e.city = Some(CityData { name: "Denver".to_string(), country: None });
    let reply = feed_response_for_events(&vec![e]);
    assert_eq!(reply.status, 200);
    assert!(reply.body.contains("BEGIN:VEVENT"));
    assert!(reply.body.contains("LOCATION:Denver\r\n"));
}

#[test]
fn one_vevent_per_record_in_order() {
    let records = vec![
        sample_event(1, "First", "first"),
        sample_event(2, "Second", "second"),
        sample_event(3, "Third", "third"),
    ];
    let feed = build_feed(&records);
    let body = render_feed(&feed);
    assert_eq!(body.matches("BEGIN:VEVENT").count(), 3);
    assert_eq!(body.matches("END:VEVENT").count(), 3);
    let p1 = body.find(&format!("UID:{}", event_uid(1))).unwrap();
    let p2 = body.find(&format!("UID:{}", event_uid(2))).unwrap();
    let p3 = body.find(&format!("UID:{}", event_uid(3))).unwrap();
    assert!(p1 < p2 && p2 < p3);
}

#[test]
fn serialization_is_idempotent() {
    let records = vec![sample_event(1, "A, B; C\\D", "a-b"), sample_event(2, "Plain", "plain")];
    let feed = build_feed(&records);
    let once = render_feed(&feed);
    let twice = render_feed(&feed);
    assert_eq!(once, twice);
    assert_eq!(once.as_bytes(), twice.as_bytes());
}

#[test]
fn rendered_feed_parses_back() {
    let records = vec![
        sample_event(5, "Summit, 2024; Main\\Stage", "summit"),
        sample_event(6, "Plain", "plain"),
    ];
    let feed = build_feed(&records);
    let body = render_feed(&feed);
    let mut recovered: Vec<(String, String, String, String)> = Vec::new();
    let mut cur: Option<(String, String, String, String)> = None;
    for line in body.split("\r\n") {
        if line == "BEGIN:VEVENT" {
            cur = Some((String::new(), String::new(), String::new(), String::new()));
        } else if line == "END:VEVENT" {
            recovered.push(cur.take().unwrap());
        } else if let Some(fields) = cur.as_mut() {
            if let Some(v) = line.strip_prefix("UID:") {
                fields.0 = v.to_string();
            } else if let Some(v) = line.strip_prefix("SUMMARY:") {
                fields.1 = v.replace("\\,", ",").replace("\\;", ";").replace("\\\\", "\\");
            } else if let Some(v) = line.strip_prefix("DTSTART:") {
                fields.2 = v.to_string();
            } else if let Some(v) = line.strip_prefix("DTEND:") {
                fields.3 = v.to_string();
            }
        }
    }
    assert_eq!(recovered.len(), 2);
    assert_eq!(recovered[0].0, event_uid(5));
    assert_eq!(recovered[0].1, "Summit, 2024; Main\\Stage");
    assert_eq!(recovered[0].2, "20240101T000000Z");
    assert_eq!(recovered[0].3, "20240102T000000Z");
    assert_eq!(recovered[1].0, event_uid(6));
    assert_eq!(recovered[1].1, "Plain");
}

#[test]
fn library_reader_inverts_serializer() {
    let records = vec![
        sample_event(5, "Summit, 2024; Main\\Stage", "summit"),
        sample_event(6, "Plain", "plain"),
    ];
    let feed = build_feed(&records);
    let body = render_feed(&feed);
    let parsed = parse_calendar(&body).expect("a rendered feed reads back");
    assert_eq!(parsed.len(), 2);
    assert_eq!(parsed[0].uid, event_uid(5));
    assert_eq!(parsed[0].summary, "Summit, 2024; Main\\Stage");
    assert_eq!(parsed[0].dtstart, records[0].start_time);
    assert_eq!(parsed[0].dtend, records[0].end_time);
    assert_eq!(parsed[1].uid, event_uid(6));
    assert_eq!(parsed[1].summary, "Plain");
}

#[test]
fn reader_rejects_misplaced_markers() {
    assert!(parse_calendar("END:VEVENT\r\n").is_none());
    assert!(parse_calendar("BEGIN:VEVENT\r\nBEGIN:VEVENT\r\n").is_none());
    assert!(parse_calendar("BEGIN:VEVENT\r\nUID:x\r\nEND:VEVENT\r\n").is_none());
    let empty = parse_calendar("BEGIN:VCALENDAR\r\nEND:VCALENDAR\r\n").expect("no blocks");
    assert!(empty.is_empty());
}

#[test]
fn parse_accepts_scenario_a_body() {
    let events = parse_published_events(SCENARIO_A_BODY).expect("well-shaped body");
    assert_eq!(events.len(), 1);
    assert_eq!(events[0].id, 1);
    assert_eq!(events[0].name, "Devcon");
    assert_eq!(events[0].slug, "devcon");
    assert_eq!(events[0].event_type, "hackathon");
    assert_eq!(
        events[0].start_time,
        UtcTime { year: 2024, month: 1, day: 1, hour: 0, minute: 0, second: 0 }
    );
    assert_eq!(events[0].website.as_deref(), Some("https://example.com"));
    let city = events[0].city.as_ref().unwrap();
    assert_eq!(city.name, "Denver");
    assert_eq!(city.country.as_ref().unwrap().name, "USA");
}

#[test]
fn scenario_a_success_reply() {
    let reply = feed_response(FetchResult::Body(SCENARIO_A_BODY.to_string()));
    assert_eq!(reply.status, 200);
    assert_eq!(reply.content_type, "text/calendar; charset=utf-8");
    assert_eq!(reply.body.matches("BEGIN:VEVENT").count(), 1);
    assert!(reply.body.contains("LOCATION:Denver\\, USA\r\n"));
    assert!(reply.body.contains("URL:https://example.com\r\n"));
    let expected_uid = uuid::Uuid::new_v5(&uuid::Uuid::NAMESPACE_DNS, b"1").to_string();
    assert!(reply.body.contains(&format!("UID:{}\r\n", expected_uid)));
    let names: Vec<&str> = reply.extra_headers.iter().map(|h| h.name.as_str()).collect();
    assert_eq!(
        names,
        vec![
            "Content-Disposition",
            "Cache-Control",
            "Pragma",
            "Expires",
            "Access-Control-Allow-Origin"
        ]
    );
    assert_eq!(reply.extra_headers[0].value, "attachment; filename=\"ethglobal.ics\"");
    assert_eq!(reply.extra_headers[1].value, "no-cache, no-store, must-revalidate");
    assert_eq!(reply.extra_headers[4].value, "*");
}

#[test]
fn scenario_b_upstream_error_status() {
    let reply = feed_response(FetchResult::HttpStatus(500));
    assert_eq!(reply.body, "Error: 500 Internal Server Error");
    assert_eq!(reply.content_type, "text/plain; charset=utf-8");
    assert_eq!(reply.status, 502);
    assert!(reply.extra_headers.is_empty());
    let direct = status_error_response(503);
    assert_eq!(direct.body, "Error: 503 Service Unavailable");
    let unknown = status_error_response(599);
    assert_eq!(unknown.body, "Error: 599");
}

#[test]
fn scenario_c_malformed_shape() {
    let reply = feed_response(FetchResult::Body("{\"unexpected\":\"shape\"}".to_string()));
    assert_eq!(reply.status, 400);
    assert_eq!(reply.content_type, "text/plain; charset=utf-8");
    assert!(reply.extra_headers.is_empty());
}

#[test]
fn scenario_d_transport_failure() {
    let reply = feed_response(FetchResult::Transport);
    assert_eq!(reply.status, 502);
    assert_eq!(reply.content_type, "text/plain; charset=utf-8");
    assert_eq!(reply.body, "Request failed");
}

#[test]
fn parse_rejects_invalid_json() {
    assert!(matches!(parse_published_events("not json at all"), Err(FeedError::MalformedResponse)));
    assert!(matches!(parse_published_events(""), Err(FeedError::MalformedResponse)));
}

#[test]
fn parse_rejects_missing_and_mistyped_fields() {
    let missing_name = r#"{"data":{"getPublishedEvents":[{"id":1,"slug":"s","type":"t","startTime":"2024-01-01T00:00:00Z","endTime":"2024-01-02T00:00:00Z"}]}}"#;
    assert!(matches!(parse_published_events(missing_name), Err(FeedError::MalformedResponse)));
    let bad_id = r#"{"data":{"getPublishedEvents":[{"id":"one","name":"n","slug":"s","type":"t","startTime":"2024-01-01T00:00:00Z","endTime":"2024-01-02T00:00:00Z"}]}}"#;
    assert!(matches!(parse_published_events(bad_id), Err(FeedError::MalformedResponse)));
    let bad_time = r#"{"data":{"getPublishedEvents":[{"id":1,"name":"n","slug":"s","type":"t","startTime":"soon","endTime":"2024-01-02T00:00:00Z"}]}}"#;
    assert!(matches!(parse_published_events(bad_time), Err(FeedError::MalformedResponse)));
    let not_a_list = r#"{"data":{"getPublishedEvents":{"id":1}}}"#;
    assert!(matches!(parse_published_events(not_a_list), Err(FeedError::MalformedResponse)));
}

#[test]
fn parse_keeps_optionals_absent() {
    let body = r#"{"data":{"getPublishedEvents":[{"id":3,"name":"n","slug":"s","type":"t","startTime":"2024-01-01T00:00:00Z","endTime":"2024-01-02T00:00:00Z","website":null,"city":null}]}}"#;
    let events = parse_published_events(body).expect("well-shaped body");
    assert_eq!(events.len(), 1);
    assert!(events[0].website.is_none());
    assert!(events[0].city.is_none());
}

#[test]
fn parse_accepts_fractional_and_offset_timestamps() {
    let body = r#"{"data":{"getPublishedEvents":[{"id":4,"name":"n","slug":"s","type":"t","startTime":"2024-01-01T00:00:00.000Z","endTime":"2024-01-02T00:00:00+00:00"}]}}"#;
    let events = parse_published_events(body).expect("tolerated timestamp forms");
    assert_eq!(events.len(), 1);
    assert_eq!(
        events[0].start_time,
        UtcTime { year: 2024, month: 1, day: 1, hour: 0, minute: 0, second: 0 }
    );
    assert_eq!(
        events[0].end_time,
        UtcTime { year: 2024, month: 1, day: 2, hour: 0, minute: 0, second: 0 }
    );
    let shifted = r#"{"data":{"getPublishedEvents":[{"id":4,"name":"n","slug":"s","type":"t","startTime":"2024-01-01T00:00:00+02:00","endTime":"2024-01-02T00:00:00Z"}]}}"#;
    assert!(matches!(parse_published_events(shifted), Err(FeedError::MalformedResponse)));
}

#[test]
fn empty_event_list_gives_empty_calendar() {
    let body = r#"{"data":{"getPublishedEvents":[]}}"#;
    let reply = feed_response(FetchResult::Body(body.to_string()));
    assert_eq!(reply.status, 200);
    assert_eq!(reply.body.matches("BEGIN:VEVENT").count(), 0);
    assert!(reply.body.starts_with("BEGIN:VCALENDAR\r\n"));
    assert!(reply.body.contains("X-WR-CALNAME:ETHGlobal Events\r\n"));
    assert!(reply.body.ends_with("END:VCALENDAR\r\n"));
}
