use slatedb_benchmark::instrumented_http::{
    classify_method, classify_s3_request, client_bool, client_count, client_duration, client_u32,
    client_usize, decide_target, endpoint_authority, is_host_or_subdomain, is_list_objects_query,
    is_metadata_host, matches_target_authority, record_attempt, record_outcome, record_status,
    transport_failure, Attempt, BodyEvent, ClientOptionError, ResponseBody, TransportFailure,
};
use slatedb_benchmark::instrumented_store::{HttpMethod, StoreMetrics};

fn classify(method: &str, uri: &str) -> Option<HttpMethod> {
    let uri: http::Uri = uri.parse().expect("valid uri");
    classify_s3_request(
        method,
        uri.authority().map(|authority| authority.as_str()),
        uri.query(),
        None,
    )
}

fn exchange(metrics: &mut StoreMetrics, method: HttpMethod, status: u16, body: &[u8]) {
    record_attempt(metrics, method, Attempt::Answered(status));
    let mut reader = ResponseBody::new(method);
    reader.observe(metrics, BodyEvent::Data(body.len() as u64));
    reader.observe(metrics, BodyEvent::Nothing);
}

#[test]
fn classifies_physical_http_methods() {
    let cases = [
        ("GET", "https://s3.example/bucket/key", HttpMethod::Get),
        ("HEAD", "https://s3.example/bucket/key", HttpMethod::Head),
        (
            "GET",
            "https://s3.example/bucket?list-type=2",
            HttpMethod::List,
        ),
        (
            "GET",
            "https://s3.example/bucket?prefix=data&list-type=2",
            HttpMethod::List,
        ),
        ("POST", "https://s3.example/bucket?delete", HttpMethod::Post),
        (
            "POST",
            "https://s3.example/bucket/key?uploads",
            HttpMethod::Post,
        ),
        (
            "POST",
            "https://s3.example/bucket/key?uploadId=one",
            HttpMethod::Post,
        ),
        (
            "DELETE",
            "https://s3.example/bucket/key?uploadId=one",
            HttpMethod::Delete,
        ),
    ];
    for (method, uri, expected) in cases {
        assert_eq!(classify(method, uri), Some(expected));
    }

    assert_eq!(
        classify("PUT", "https://s3.example/bucket/to"),
        Some(HttpMethod::Put)
    );
}

#[test]
fn counts_each_attempt_status_and_full_response_body() {
    let mut metrics = StoreMetrics::new();
    let error_body = b"slow down";
    let success_body = b"response including coalesced gaps";
    let expected_bytes = (error_body.len() + success_body.len()) as u64;
    exchange(&mut metrics, HttpMethod::Get, 503, error_body);
    exchange(&mut metrics, HttpMethod::Get, 200, success_body);

    let snapshot = metrics.snapshot();
    assert_eq!(snapshot.requests.get("GET"), Some(2));
    assert_eq!(snapshot.successful_requests.get("GET"), Some(1));
    assert_eq!(snapshot.request_errors.get("GET"), Some(1));
    assert_eq!(snapshot.server_errors.get("GET"), Some(1));
    assert_eq!(snapshot.transport_errors.get("GET"), Some(0));
    assert_eq!(snapshot.response_bytes.get("GET"), Some(expected_bytes));
}

#[test]
fn counts_not_found_without_treating_it_as_a_request_error() {
    let mut metrics = StoreMetrics::new();
    exchange(&mut metrics, HttpMethod::Get, 404, b"missing");

    let snapshot = metrics.snapshot();
    assert_eq!(snapshot.requests.get("GET"), Some(1));
    assert_eq!(snapshot.not_found_responses.get("GET"), Some(1));
    assert_eq!(snapshot.request_errors.get("GET"), Some(0));
}

#[test]
fn observes_retries_below_the_object_store_api() {
    let mut metrics = StoreMetrics::new();
    let method = classify("PUT", "https://s3.example/bucket/key").expect("counted request");
    for (status, body) in [(503, &b"slow down"[..]), (200, &b""[..])] {
        metrics.record_request_bytes(method, b"value".len() as u64);
        exchange(&mut metrics, method, status, body);
    }

    let snapshot = metrics.snapshot();
    assert_eq!(snapshot.requests.get("PUT"), Some(2));
    assert_eq!(snapshot.successful_requests.get("PUT"), Some(1));
    assert_eq!(snapshot.server_errors.get("PUT"), Some(1));
    assert_eq!(snapshot.request_bytes.get("PUT"), Some(10));
}

#[test]
fn statuses_fall_into_their_classes() {
    let mut metrics = StoreMetrics::new();
    for status in [200, 304, 404, 403, 429, 500, 599, 100, 600] {
        record_status(&mut metrics, HttpMethod::Head, status);
    }
    let snapshot = metrics.snapshot();
    assert_eq!(snapshot.successful_requests.head, 2);
    assert_eq!(snapshot.not_found_responses.head, 1);
    assert_eq!(snapshot.client_errors.head, 2);
    assert_eq!(snapshot.server_errors.head, 2);
    assert_eq!(snapshot.request_errors.head, 6);
    assert_eq!(snapshot.transport_errors.head, 0);
    assert_eq!(snapshot.requests.head, 0);
    assert_eq!(snapshot.errors(), 6);
}

#[test]
fn requests_without_a_response_are_transport_errors() {
    let mut metrics = StoreMetrics::new();
    record_attempt(&mut metrics, HttpMethod::Post, Attempt::Failed);
    record_outcome(&mut metrics, HttpMethod::Post, Attempt::Failed);
    let snapshot = metrics.snapshot();
    assert_eq!(snapshot.requests.post, 1);
    assert_eq!(snapshot.request_errors.post, 2);
    assert_eq!(snapshot.transport_errors.post, 2);
}

#[test]
fn broken_bodies_count_once() {
    let mut metrics = StoreMetrics::new();
    let mut body = ResponseBody::new(HttpMethod::Get);
    body.observe(&mut metrics, BodyEvent::Data(3));
    body.observe(&mut metrics, BodyEvent::Broken);
    body.observe(&mut metrics, BodyEvent::Broken);
    assert!(body.error_recorded);
    let snapshot = metrics.snapshot();
    assert_eq!(snapshot.response_bytes.get, 3);
    assert_eq!(snapshot.transport_errors.get, 1);
    assert_eq!(snapshot.request_errors.get, 1);
}

#[test]
fn credential_services_are_not_counted_without_a_target() {
    assert_eq!(classify("GET", "http://169.254.169.254/latest"), None);
    assert_eq!(classify("GET", "http://169.254.170.2:80/v2"), None);
    assert!(is_metadata_host("fd00:ec2::254"));
    assert!(!is_metadata_host("169.254.169.253"));
    assert_eq!(classify_s3_request("GET", None, None, None), None);
    assert_eq!(classify("PATCH", "https://s3.example/b"), Some(HttpMethod::Other));
    assert_eq!(classify("OPTIONS", "https://s3.example/b"), Some(HttpMethod::Other));
}

#[test]
fn targets_cover_their_host_and_the_names_below_it() {
    let target = endpoint_authority("https://S3.Example:9000/path").expect("authority");
    assert_eq!(target, "s3.example:9000");
    assert_eq!(endpoint_authority("not a uri"), None);
    assert_eq!(endpoint_authority("/path"), None);

    assert!(matches_target_authority("s3.example:9000", &target));
    assert!(matches_target_authority("bucket.S3.example", &target));
    assert!(!matches_target_authority("s3.example.org", &target));
    assert!(!matches_target_authority("elses3.example", &target));
    assert!(is_host_or_subdomain("a.b", "B"));
    assert!(!is_host_or_subdomain(".b", "b"));

    let other = classify_s3_request("GET", Some("other.example"), None, Some("s3.example"));
    assert_eq!(other, None);
    let below = classify_s3_request("PUT", Some("b.s3.example"), None, Some("s3.example"));
    assert_eq!(below, Some(HttpMethod::Put));
}

#[test]
fn targets_are_decided_from_the_two_hosts() {
    let host = |text: &str| Some(text.to_string());
    assert!(decide_target("A:1", None, "a:1", None));
    assert!(decide_target("b.a:1", host("b.a"), "a:2", host("a")));
    assert!(!decide_target("b:1", host("b"), "a:1", host("a")));
    assert!(!decide_target("b:1", None, "a:1", host("a")));
}

#[test]
fn only_a_whole_parameter_lists_objects() {
    assert!(is_list_objects_query("list-type=2"));
    assert!(is_list_objects_query("a=b&list-type=2&c=d"));
    assert!(!is_list_objects_query("list-type=20"));
    assert!(!is_list_objects_query("xlist-type=2"));
    assert!(!is_list_objects_query(""));
    assert_eq!(
        classify_method("HEAD", Some("list-type=2"), true),
        Some(HttpMethod::Head)
    );
    assert_eq!(classify_method("GET", Some("list-type=2"), false), None);
}

#[test]
fn client_options_are_read_or_refused() {
    assert_eq!(client_bool(None), Ok(false));
    assert_eq!(client_bool(Some("true")), Ok(true));
    assert_eq!(client_bool(Some("false")), Ok(false));
    assert_eq!(client_bool(Some("yes")), Err(ClientOptionError));
    assert_eq!(client_count(None, 9), Ok(None));
    assert_eq!(client_count(Some("9"), 9), Ok(Some(9)));
    assert_eq!(client_count(Some("10"), 9), Err(ClientOptionError));
    assert_eq!(client_usize(Some("512")), Ok(Some(512)));
    assert_eq!(client_usize(Some("-1")), Err(ClientOptionError));
    assert_eq!(client_u32(Some("4294967295")), Ok(Some(u32::MAX)));
    assert_eq!(client_u32(Some("4294967296")), Err(ClientOptionError));
    assert_eq!(client_duration(None), Ok(None));
    assert_eq!(client_duration(Some("1m 30s")), Ok(Some(90_000_000_000)));
    assert_eq!(client_duration(Some("soon")), Err(ClientOptionError));
    assert_eq!(
        client_duration(Some("18446744073709551615s")),
        Ok(Some(18_446_744_073_709_551_615_000_000_000))
    );
    assert_eq!(
        client_duration(Some("18446744073709551615s 1000ms")),
        Err(ClientOptionError)
    );
    assert_eq!(
        client_duration(Some("18446744073709551614s 999ms 1ms")),
        Ok(Some(18_446_744_073_709_551_615_000_000_000))
    );
    assert_eq!(
        client_duration(Some("18446744073709551615s 0.5s 500ms")),
        Err(ClientOptionError)
    );
    assert_eq!(
        client_duration(Some("600000000000min")),
        Ok(Some(36_000_000_000_000_000_000_000))
    );
    assert_eq!(
        client_duration(Some("584542046090years 7months")),
        Ok(Some(18_446_744_073_708_194_112_000_000_000))
    );
    assert_eq!(
        client_duration(Some("584542046091years")),
        Err(ClientOptionError)
    );
    assert_eq!(
        client_duration(Some("1.25days 3\u{b5}s")),
        Ok(Some(108_000_000_003_000))
    );
    assert_eq!(
        client_duration(Some("99999999999999999999s")),
        Err(ClientOptionError)
    );
    assert_eq!(
        client_duration(Some("1 000 000 ms 0.5h")),
        Ok(Some(2_800_000_000_000))
    );
}

#[test]
fn transport_failures_are_told_apart() {
    assert_eq!(
        transport_failure(true, true, true),
        TransportFailure::Timeout
    );
    assert_eq!(
        transport_failure(false, true, true),
        TransportFailure::Connect
    );
    assert_eq!(
        transport_failure(false, false, true),
        TransportFailure::Decode
    );
    assert_eq!(
        transport_failure(false, false, false),
        TransportFailure::Request
    );
}
