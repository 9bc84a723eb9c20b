use slatedb_benchmark::instrumented_store::{HttpMethod, MethodCounts, StoreMetrics, StoreSnapshot};

#[test]
fn snapshots_physical_http_methods_and_body_bytes() {
    let mut metrics = StoreMetrics::new();
    metrics.record_request(HttpMethod::Get);
    metrics.record_request_bytes(HttpMethod::Get, 7);
    metrics.record_response_bytes(HttpMethod::Get, 11);
    metrics.record_success(HttpMethod::Get);

    let snapshot = metrics.snapshot();
    assert_eq!(snapshot.requests.get("GET"), Some(1));
    assert_eq!(snapshot.successful_requests.get("GET"), Some(1));
    assert_eq!(snapshot.body_bytes("GET"), 18);
}

#[test]
fn methods_are_named_and_ordered() {
    let names = ["GET", "PUT", "HEAD", "DELETE", "POST", "OTHER"];
    let methods = [
        HttpMethod::Get,
        HttpMethod::Put,
        HttpMethod::Head,
        HttpMethod::Delete,
        HttpMethod::Post,
        HttpMethod::Other,
    ];
    for (position, (method, name)) in methods.into_iter().zip(names).enumerate() {
        assert_eq!(method.index(), position);
        assert_eq!(method.name(), name);
        let mut metrics = StoreMetrics::new();
        metrics.record_request(method);
        assert_eq!(metrics.snapshot().requests.get(name), Some(1));
        assert_eq!(metrics.snapshot().requests.count(method), 1);
    }
    assert_eq!(MethodCounts::new().get("get"), None);
    assert_eq!(MethodCounts::new().get("LIST"), None);
    let mut metrics = StoreMetrics::new();
    metrics.record_request(HttpMethod::Get);
    metrics.record_request(HttpMethod::List);
    assert_eq!(metrics.snapshot().requests.get("GET"), Some(2));
}

#[test]
fn differences_do_not_go_below_zero() {
    let mut metrics = StoreMetrics::new();
    metrics.record_request(HttpMethod::Put);
    let start = metrics.snapshot();
    metrics.record_request(HttpMethod::Put);
    metrics.record_request(HttpMethod::Put);
    metrics.record_server_error(HttpMethod::Put);
    let end = metrics.snapshot();

    let window = end.difference(&start);
    assert_eq!(window.requests.put, 2);
    assert_eq!(window.server_errors.put, 1);
    assert_eq!(start.difference(&end).requests.put, 0);
    assert_eq!(end.difference(&end), StoreSnapshot::new());
    assert_eq!(window.body_bytes("unknown"), 0);
}

#[test]
fn request_errors_are_the_sum_of_their_causes() {
    let mut metrics = StoreMetrics::new();
    metrics.record_client_error(HttpMethod::Put);
    metrics.record_server_error(HttpMethod::Put);
    metrics.record_server_error(HttpMethod::Put);
    metrics.record_other_error(HttpMethod::Put);
    metrics.record_transport_error(HttpMethod::Put);
    metrics.record_not_found(HttpMethod::Put);
    metrics.record_client_error(HttpMethod::Get);
    let snapshot = metrics.snapshot();
    assert_eq!(snapshot.request_errors.get("PUT"), Some(5));
    assert_eq!(snapshot.client_errors.get("PUT"), Some(1));
    assert_eq!(snapshot.server_errors.get("PUT"), Some(2));
    assert_eq!(snapshot.transport_errors.get("PUT"), Some(1));
    assert_eq!(snapshot.request_errors.get("GET"), Some(1));
    assert_eq!(snapshot.request_errors.get("OTHER"), Some(0));
}
