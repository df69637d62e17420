use std::sync::Arc;

use axum::http::header::{HeaderName, HeaderValue};
use axum::http::{HeaderMap, Method};
use bytes::Bytes;
use request_duplicator::context::SharedRequestContext;
use request_duplicator::dispatcher::Dispatcher;
use request_duplicator::headers::{read_targets_header, strip_control_headers};
use request_duplicator::intake::{read_targets, Admission, DuplicateResponse};
use request_duplicator::priority::Priority;
use request_duplicator::targets::{parse_targets, TargetsError};

fn headers(fields: &[(&str, &[u8])]) -> HeaderMap {
    let mut map = HeaderMap::new();
    for (name, value) in fields {
        map.append(
            HeaderName::from_bytes(name.as_bytes()).unwrap(),
            HeaderValue::from_bytes(value).unwrap(),
        );
    }
    map
}

fn values(map: &HeaderMap, name: &str) -> Vec<Vec<u8>> {
    map.get_all(name).iter().map(|v| v.as_bytes().to_vec()).collect()
}

#[test]
fn target_list_is_parsed_in_order() {
    let parsed = parse_targets("[\"http://a/\", \"http://b/x?y=1\", \"c\"]").unwrap();
    assert_eq!(parsed, vec!["http://a/", "http://b/x?y=1", "c"]);
}

#[test]
fn empty_target_list_is_a_list() {
    assert_eq!(parse_targets("[]").unwrap(), Vec::<String>::new());
    assert_eq!(parse_targets(" [ ] ").unwrap(), Vec::<String>::new());
}

#[test]
fn target_list_keeps_duplicates_and_escapes() {
    let parsed = parse_targets("[\"a\",\"a\",\"q\\\"uote\",\"\\u00e9\"]").unwrap();
    assert_eq!(parsed, vec!["a", "a", "q\"uote", "\u{e9}"]);
}

#[test]
fn text_that_is_no_array_of_strings_is_malformed() {
    for text in [
        "",
        "http://a/",
        "\"http://a/\"",
        "[1, 2]",
        "[\"a\", 1]",
        "[\"a\"",
        "[\"a\"] trailing",
        "{\"data\": [\"a\"]}",
        "[[\"a\"]]",
        "null",
        "[null]",
    ] {
        assert_eq!(parse_targets(text), Err(TargetsError::Malformed), "{:?}", text);
    }
}

#[test]
fn targets_header_is_read_as_text() {
    let map = headers(&[
        ("accept", b"*/*"),
        ("x-duplicate-targets", b"[\"http://a/\"]"),
    ]);
    assert_eq!(read_targets_header(&map), Some("[\"http://a/\"]".to_string()));
}

#[test]
fn targets_header_is_found_whatever_its_spelling_on_the_wire() {
    let map = headers(&[("X-Duplicate-Targets", b"[]")]);
    assert_eq!(read_targets_header(&map), Some("[]".to_string()));
}

#[test]
fn first_value_of_targets_header_counts() {
    let map = headers(&[
        ("x-duplicate-targets", b"[\"first\"]"),
        ("x-duplicate-targets", b"[\"second\"]"),
    ]);
    assert_eq!(read_targets_header(&map), Some("[\"first\"]".to_string()));
    assert_eq!(read_targets(&map).unwrap(), vec!["first"]);
}

#[test]
fn absent_targets_header_reads_as_none() {
    assert_eq!(read_targets_header(&HeaderMap::new()), None);
    let map = headers(&[("x-duplicate-target", b"[]"), ("host", b"h")]);
    assert_eq!(read_targets_header(&map), None);
    assert_eq!(read_targets(&map), Err(TargetsError::MissingHeader));
}

#[test]
fn targets_header_with_opaque_bytes_reads_as_none() {
    let map = headers(&[("x-duplicate-targets", b"[\"caf\xc3\xa9\"]")]);
    assert_eq!(read_targets_header(&map), None);
    assert_eq!(read_targets(&map), Err(TargetsError::MissingHeader));
}

#[test]
fn targets_header_may_hold_tabs() {
    let map = headers(&[("x-duplicate-targets", b"[\t\"a\"\t]")]);
    assert_eq!(read_targets_header(&map), Some("[\t\"a\"\t]".to_string()));
    assert_eq!(read_targets(&map).unwrap(), vec!["a"]);
}

#[test]
fn malformed_targets_header_is_reported() {
    let map = headers(&[("x-duplicate-targets", b"not json")]);
    assert_eq!(read_targets(&map), Err(TargetsError::Malformed));
}

#[test]
fn control_headers_are_stripped_and_the_rest_is_kept() {
    let map = headers(&[
        ("host", b"duplicator.local"),
        ("accept", b"text/html"),
        ("x-duplicate-targets", b"[\"a\"]"),
        ("accept", b"application/json"),
        ("x-duplicate-targets", b"[\"b\"]"),
        ("content-type", b"text/plain"),
    ]);
    let kept = strip_control_headers(map);
    assert!(kept.get("host").is_none());
    assert!(kept.get("x-duplicate-targets").is_none());
    assert_eq!(kept.keys_len(), 2);
    assert_eq!(kept.len(), 3);
    assert_eq!(values(&kept, "accept"), vec![b"text/html".to_vec(), b"application/json".to_vec()]);
    assert_eq!(values(&kept, "content-type"), vec![b"text/plain".to_vec()]);
}

#[test]
fn stripping_headers_that_are_absent_keeps_everything() {
    let map = headers(&[("accept", b"*/*"), ("x-other", b"1")]);
    let kept = strip_control_headers(map);
    assert_eq!(kept.len(), 2);
    assert_eq!(values(&kept, "accept"), vec![b"*/*".to_vec()]);
    assert_eq!(values(&kept, "x-other"), vec![b"1".to_vec()]);
}

#[test]
fn context_stores_the_sanitized_request() {
    let map = headers(&[
        ("Host", b"duplicator.local"),
        ("x-duplicate-targets", b"[\"a\"]"),
        ("x-trace", b"abc"),
    ]);
    let context = SharedRequestContext::new(Method::PUT, map, Bytes::from_static(b"body"));
    assert_eq!(context.method(), &Method::PUT);
    assert_eq!(context.body(), &Bytes::from_static(b"body"));
    assert_eq!(context.headers().len(), 1);
    assert_eq!(values(context.headers(), "x-trace"), vec![b"abc".to_vec()]);
    assert!(context.headers().get("host").is_none());
    assert!(context.headers().get("x-duplicate-targets").is_none());
}

#[test]
fn duplicate_queues_one_task_per_target() {
    let mut dispatcher = Dispatcher::new(10, 3);
    let map = headers(&[
        ("host", b"duplicator.local"),
        ("x-duplicate-targets", b"[\"http://a/\",\"http://b/\",\"http://c/\"]"),
        ("x-trace", b"abc"),
    ]);
    let admission =
        dispatcher.duplicate(Method::POST, map, Bytes::from_static(b"body"), Priority::Low);
    assert_eq!(admission, Admission::Accepted(3));
    assert_eq!(dispatcher.metrics().low, 3);
    assert_eq!(dispatcher.metrics().high, 0);
    assert_eq!(dispatcher.waiting(Priority::Low), 3);

    let first = dispatcher.dequeue().unwrap();
    let second = dispatcher.dequeue().unwrap();
    let third = dispatcher.dequeue().unwrap();
    assert!(dispatcher.dequeue().is_none());
    assert_eq!(first.target, "http://a/");
    assert_eq!(second.target, "http://b/");
    assert_eq!(third.target, "http://c/");
    for task in [&first, &second, &third] {
        assert_eq!(task.remaining_attempts, 3);
        assert_eq!(task.priority, Priority::Low);
        assert!(Arc::ptr_eq(&task.context, &first.context));
    }
    assert_eq!(Arc::strong_count(&first.context), 3);
    assert_eq!(first.context.method(), &Method::POST);
    assert_eq!(first.context.body(), &Bytes::from_static(b"body"));
    assert_eq!(first.context.headers().len(), 1);
    assert_eq!(values(first.context.headers(), "x-trace"), vec![b"abc".to_vec()]);
}

#[test]
fn duplicate_uses_the_priority_it_is_given() {
    let mut dispatcher = Dispatcher::new(10, 7);
    let map = headers(&[("x-duplicate-targets", b"[\"t\"]")]);
    let admission = dispatcher.duplicate(Method::GET, map, Bytes::new(), Priority::High);
    assert_eq!(admission, Admission::Accepted(1));
    assert_eq!(dispatcher.metrics().high, 1);
    assert_eq!(dispatcher.metrics().low, 0);
    let task = dispatcher.dequeue().unwrap();
    assert_eq!(task.priority, Priority::High);
    assert_eq!(task.remaining_attempts, 7);
}

#[test]
fn duplicate_without_targets_header_is_rejected() {
    let mut dispatcher = Dispatcher::new(10, 3);
    let map = headers(&[("host", b"h")]);
    let admission = dispatcher.duplicate(Method::POST, map, Bytes::new(), Priority::High);
    assert_eq!(admission, Admission::Rejected(TargetsError::MissingHeader));
    assert_eq!(admission.status(), 400);
    assert_eq!(admission.response(), DuplicateResponse::Failure);
    assert_eq!(dispatcher.metrics().high, 0);
    assert!(dispatcher.dequeue().is_none());
}

#[test]
fn duplicate_with_malformed_targets_is_rejected() {
    let mut dispatcher = Dispatcher::new(10, 3);
    let map = headers(&[("x-duplicate-targets", b"[\"a\", 2]")]);
    let admission = dispatcher.duplicate(Method::POST, map, Bytes::new(), Priority::Low);
    assert_eq!(admission, Admission::Rejected(TargetsError::Malformed));
    assert_eq!(dispatcher.metrics().low, 0);
    assert!(dispatcher.dequeue().is_none());
}

#[test]
fn duplicate_of_empty_list_is_accepted_and_queues_nothing() {
    let mut dispatcher = Dispatcher::new(0, 3);
    let map = headers(&[("x-duplicate-targets", b"[]")]);
    let admission = dispatcher.duplicate(Method::POST, map, Bytes::new(), Priority::Low);
    assert_eq!(admission, Admission::Accepted(0));
    assert_eq!(admission.status(), 202);
    assert_eq!(admission.response(), DuplicateResponse::Success);
    assert_eq!(dispatcher.metrics().low, 0);
}

#[test]
fn duplicate_is_all_or_nothing() {
    let mut dispatcher = Dispatcher::new(3, 3);
    let two = headers(&[("x-duplicate-targets", b"[\"a\",\"b\"]")]);
    assert_eq!(
        dispatcher.duplicate(Method::POST, two.clone(), Bytes::new(), Priority::Low),
        Admission::Accepted(2)
    );
    let admission = dispatcher.duplicate(Method::POST, two.clone(), Bytes::new(), Priority::Low);
    assert_eq!(admission, Admission::Overloaded);
    assert_eq!(admission.status(), 503);
    assert_eq!(admission.response(), DuplicateResponse::Failure);
    assert_eq!(dispatcher.metrics().low, 2);
    assert_eq!(dispatcher.waiting(Priority::Low), 2);
    assert_eq!(
        dispatcher.duplicate(Method::POST, two, Bytes::new(), Priority::High),
        Admission::Accepted(2)
    );
    let one = headers(&[("x-duplicate-targets", b"[\"c\"]")]);
    assert_eq!(
        dispatcher.duplicate(Method::POST, one, Bytes::new(), Priority::Low),
        Admission::Accepted(1)
    );
    assert_eq!(dispatcher.metrics().low, 3);
    assert_eq!(dispatcher.metrics().high, 2);
}

#[test]
fn submit_queues_in_list_order_behind_what_waits() {
    let mut dispatcher = Dispatcher::new(5, 4);
    let context = Arc::new(SharedRequestContext::new(
        Method::POST,
        HeaderMap::new(),
        Bytes::new(),
    ));
    let first = vec!["a".to_string()];
    let second = vec!["b".to_string(), "c".to_string()];
    assert_eq!(dispatcher.submit(&context, &first, Priority::High), Some(1));
    assert_eq!(dispatcher.submit(&context, &second, Priority::High), Some(2));
    assert_eq!(Arc::strong_count(&context), 4);
    let too_many = vec!["d".to_string(), "e".to_string(), "f".to_string()];
    assert_eq!(dispatcher.submit(&context, &too_many, Priority::High), None);
    assert_eq!(Arc::strong_count(&context), 4);
    assert_eq!(dispatcher.metrics().high, 3);
    let mut order = Vec::new();
    while let Some(task) = dispatcher.dequeue() {
        assert_eq!(task.remaining_attempts, 4);
        order.push(task.target);
    }
    assert_eq!(order, vec!["a", "b", "c"]);
}

#[test]
fn stripping_keeps_every_other_header_among_many() {
    let mut fields: Vec<(String, Vec<u8>)> = Vec::new();
    for i in 0..40 {
        fields.push((format!("x-field-{}", i), format!("first-{}", i).into_bytes()));
        if i == 7 {
            fields.push(("host".to_string(), b"one".to_vec()));
        }
        if i % 5 == 0 {
            fields.push(("x-duplicate-targets".to_string(), format!("[\"{}\"]", i).into_bytes()));
        }
        if i % 3 == 0 {
            fields.push((format!("x-field-{}", i), format!("second-{}", i).into_bytes()));
        }
    }
    let mut map = HeaderMap::new();
    for (name, value) in &fields {
        map.append(
            HeaderName::from_bytes(name.as_bytes()).unwrap(),
            HeaderValue::from_bytes(value).unwrap(),
        );
    }
    assert_eq!(read_targets_header(&map), Some("[\"0\"]".to_string()));
    let kept = strip_control_headers(map);
    assert!(read_targets_header(&kept).is_none());
    assert!(kept.get("host").is_none());
    assert_eq!(kept.keys_len(), 40);
    for i in 0..40 {
        let mut expected = vec![format!("first-{}", i).into_bytes()];
        if i % 3 == 0 {
            expected.push(format!("second-{}", i).into_bytes());
        }
        assert_eq!(values(&kept, &format!("x-field-{}", i)), expected);
    }
}
