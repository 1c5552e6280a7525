//! What a response is served as, how long it stays fresh, and what an endpoint
//! says of itself.

use ikigai_http::freshness::{
    caller_max_age, content_type, freshness_window, response_forbids_store, response_max_age,
    with_freshness,
};
use ikigai_http::status::{exists_outcome, source_outcome};
use ikigai_http::{Error, HttpEndpoint, HttpResponse, Method, Representation, Verb};

fn with(headers: &[(&str, &str)]) -> HttpResponse {
    HttpResponse {
        status: 200,
        headers: headers
            .iter()
            .map(|(name, value)| (name.to_string(), value.to_string()))
            .collect(),
        body: Vec::new(),
    }
}

fn page() -> Representation {
    Representation {
        media_type: "text/html".to_string(),
        bytes: b"page".to_vec(),
        until: None,
        threads: Vec::new(),
    }
}

#[test]
fn the_first_header_of_a_name_counts() {
    let response = with(&[("X-A", "1"), ("x-a", "2"), ("X-B", "3")]);
    assert_eq!(response.header("x-A"), Some("1"));
    assert_eq!(response.header("X-b"), Some("3"));
    assert_eq!(response.header("X-"), None);
    assert_eq!(with(&[]).header("X-A"), None);
}

#[test]
fn a_media_type_is_served_without_parameters() {
    for (value, expected) in [
        ("text/html", "text/html"),
        ("text/html;charset=utf-8", "text/html"),
        ("  text/html  ; a=b; c=d", "text/html"),
        ("\u{2003}text/html\u{a0};", "text/html"),
        ("\u{200b}text/html", "\u{200b}text/html"),
        ("; charset=utf-8", ""),
        ("", ""),
    ] {
        assert_eq!(content_type(&with(&[("Content-Type", value)])), expected);
    }
    assert_eq!(content_type(&with(&[])), "application/octet-stream");
}

#[test]
fn an_origin_forbids_caching_in_any_case() {
    for (value, expected) in [
        ("no-store", true),
        ("No-Cache", true),
        ("public, NO-STORE", true),
        ("max-age=60, no-cache=\"x\"", true),
        ("x-no-store-y", true),
        ("no store", false),
        ("max-age=60", false),
        ("", false),
    ] {
        let response = with(&[("CACHE-CONTROL", value)]);
        assert_eq!(response_forbids_store(&response), expected, "{value}");
    }
    assert!(!response_forbids_store(&with(&[])));
}

#[test]
fn the_first_usable_max_age_of_an_origin_counts() {
    for (value, expected) in [
        ("max-age=60", Some(60)),
        ("public,  Max-Age= 7 , must-revalidate", Some(7)),
        ("max-age=x, max-age=8", Some(8)),
        ("max-age=9, max-age=10", Some(9)),
        ("max-age=+5", Some(5)),
        ("max-age=-5", None),
        ("max-age=", None),
        ("max-age", None),
        ("s-maxage=5", None),
        ("max-age=18446744073709551615", Some(u64::MAX)),
        ("max-age=18446744073709551616", None),
        ("max-age=007", Some(7)),
    ] {
        let response = with(&[("cache-control", value)]);
        assert_eq!(response_max_age(&response), expected, "{value}");
    }
    assert_eq!(response_max_age(&with(&[])), None);
}

#[test]
fn a_caller_states_seconds() {
    for (value, expected) in [
        ("3600", Some(3600)),
        (" 60\n", Some(60)),
        ("+1", Some(1)),
        ("++1", None),
        ("+", None),
        ("", None),
        ("1.5", None),
        ("\u{0661}", None),
        ("0", Some(0)),
    ] {
        assert_eq!(caller_max_age(Some(value)), expected, "{value:?}");
    }
    assert_eq!(caller_max_age(None), None);
}

#[test]
fn the_window_is_the_callers_then_the_origins() {
    let silent = with(&[]);
    let minute = with(&[("cache-control", "max-age=60")]);
    let forbidden = with(&[("cache-control", "max-age=60, no-store")]);
    assert_eq!(freshness_window(&silent, None), None);
    assert_eq!(freshness_window(&silent, Some("5")), Some(5));
    assert_eq!(freshness_window(&minute, None), Some(60));
    assert_eq!(freshness_window(&minute, Some("5")), Some(5));
    assert_eq!(freshness_window(&minute, Some("600")), Some(600));
    assert_eq!(freshness_window(&minute, Some("soon")), Some(60));
    assert_eq!(freshness_window(&forbidden, None), None);
    assert_eq!(freshness_window(&forbidden, Some("5")), None);
}

#[test]
fn a_deadline_is_counted_in_milliseconds_and_saturates() {
    for (secs, now, until) in [
        (60, 0, 60_000),
        (60, 1_000_000, 1_060_000),
        (0, 7, 7),
        (u64::MAX, 0, u64::MAX),
        (1, u64::MAX, u64::MAX),
        (u64::MAX / 1000, 615, u64::MAX),
        (u64::MAX / 1000, 614, u64::MAX - 1),
    ] {
        let repr = with_freshness(page(), Some(secs), Some(now), "thread");
        assert_eq!(repr.media_type, "text/html");
        assert_eq!(repr.bytes, b"page");
        assert_eq!(repr.until, Some(until), "{secs} from {now}");
        assert_eq!(repr.threads, ["thread"]);
    }
    for (window, now) in [(None, None), (None, Some(1)), (Some(1), None)] {
        let repr = with_freshness(page(), window, now, "thread");
        assert_eq!(repr.until, None);
        assert!(repr.threads.is_empty());
        assert_eq!(repr.bytes, b"page");
    }
}

#[test]
fn a_representation_keeps_the_threads_it_depends_on() {
    let mut own = page();
    own.until = Some(5);
    own.threads = vec!["own".to_string(), "other".to_string()];
    let fresh = with_freshness(own.clone(), Some(60), Some(0), "thread");
    assert_eq!(fresh.until, Some(60_000));
    for thread in ["own", "other", "thread"] {
        assert!(fresh.threads.iter().any(|t| t == thread), "{thread}");
    }
    assert!(fresh
        .threads
        .iter()
        .all(|t| ["own", "other", "thread"].contains(&t.as_str())));
    assert_eq!(fresh.bytes, own.bytes);
    assert_eq!(fresh.media_type, own.media_type);
    // Without a window, or without a clock, it stays as it is.
    for (window, now) in [(None, Some(0)), (Some(60), None)] {
        let same = with_freshness(own.clone(), window, now, "thread");
        assert_eq!(same.until, Some(5));
        assert_eq!(same.threads, own.threads);
    }
}

#[test]
fn absent_is_what_is_not_found() {
    for status in 0..=700 {
        let gone = matches!(source_outcome(status), Err(Error::NotFound(_)));
        assert_eq!(exists_outcome(status), !gone, "{status}");
        assert_eq!(source_outcome(status).is_ok(), (200..400).contains(&status));
    }
}

#[test]
fn a_description_states_what_a_request_may_give() {
    for (method, verb, output, last) in [
        (Method::Get, Verb::Source, "application/octet-stream", "max_age"),
        (Method::Head, Verb::Exists, "text/plain", "max_age"),
        (Method::Post, Verb::Sink, "application/octet-stream", "content_type"),
        (Method::Put, Verb::Sink, "application/octet-stream", "content_type"),
        (Method::Patch, Verb::Sink, "application/octet-stream", "content_type"),
        (Method::Delete, Verb::Delete, "application/octet-stream", "content_type"),
    ] {
        let description = HttpEndpoint::new(method, ()).describe();
        assert_eq!(description.id, method.id());
        assert_eq!(description.title, format!("HTTP {}", method.as_str()));
        assert_eq!(description.verb, verb);
        assert_eq!(description.requires, "urn:cap:net:*");
        assert_eq!(description.output, output);
        assert!(description.summary.contains("capability-gated by `urn:cap:net`"));
        let names: Vec<&str> = description.inputs.iter().map(|i| i.name).collect();
        assert_eq!(
            names[..5],
            ["url", "accept", "authorization", "range", "headers"]
        );
        assert_eq!(names.last(), Some(&last));
        assert_eq!(names.len(), if method.is_mutating() { 7 } else { 6 });
        for input in &description.inputs {
            assert_eq!(input.required, input.name == "url");
            let class = match input.name {
                "url" => "anyURI",
                "max_age" => "nonNegativeInteger",
                _ => "string",
            };
            assert_eq!(
                input.class,
                format!("http://www.w3.org/2001/XMLSchema#{class}")
            );
        }
    }
}
