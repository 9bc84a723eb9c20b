//! Classification and accounting of the HTTP requests behind an object store.

use crate::durations;
use crate::durations::read_nanos;
use crate::instrumented_store::{HttpMethod, StoreMetrics, StoreSnapshot};
use crate::text::{
    ascii_lowercase, chars_of, matches_at, parse_unsigned, same_text, same_text_ignoring_case,
};
use vstd::prelude::*;

verus! {

/// The authority that `http::Uri` finds in a text, `None` where it is no URI or has none.
pub uninterp spec fn uri_authority(text: Seq<char>) -> Option<Seq<char>>;

/// The host that `http::uri::Authority` finds in a text, `None` where it is no authority.
pub uninterp spec fn authority_host(text: Seq<char>) -> Option<Seq<char>>;

/// The characters of an optional string.
pub open spec fn text_of(s: Option<String>) -> Option<Seq<char>> {
    match s {
        Some(v) => Some(v@),
        None => None,
    }
}

/// `http::Uri` read from a text, reduced to its authority: the result is the one that
/// `uri_authority` names.
#[verifier::external_body]
fn authority_of(text: &str) -> (r: Option<String>)
    ensures
        text_of(r) == uri_authority(text@),
{
    let uri: http::Uri = text.parse().ok()?;
    uri.authority().map(|authority| authority.as_str().to_string())
}

/// `http::uri::Authority` read from a text, reduced to its host: the result is the one that
/// `authority_host` names.
#[verifier::external_body]
fn host_of(text: &str) -> (r: Option<String>)
    ensures
        text_of(r) == authority_host(text@),
{
    let authority: http::uri::Authority = text.parse().ok()?;
    Some(authority.host().to_string())
}

/// The authority of an endpoint, in lower case.
pub open spec fn endpoint_authority_of(authority: Option<Seq<char>>) -> Option<Seq<char>> {
    match authority {
        Some(text) => Some(crate::text::lower_text(text)),
        None => None,
    }
}

/// Returns the authority of an endpoint in lower case, or `None` where it has none.
pub fn endpoint_authority(endpoint: &str) -> (r: Option<String>)
    ensures
        text_of(r) == endpoint_authority_of(uri_authority(endpoint@)),
{
    match authority_of(endpoint) {
        Some(authority) => Some(ascii_lowercase(authority.as_str())),
        None => None,
    }
}

/// Whether a host is the target's host or a name below it.
pub open spec fn host_belongs(host: Seq<char>, target: Seq<char>) -> bool {
    let host = crate::text::lower_text(host);
    let target = crate::text::lower_text(target);
    host == target || (crate::text::has_suffix(host, seq!['.'] + target) && host.len() > target.len() + 1)
}

/// Tells whether a host is the target's host or a name below it.
pub fn is_host_or_subdomain(host: &str, target: &str) -> (r: bool)
    ensures
        r == host_belongs(host@, target@),
{
    let host = ascii_lowercase(host);
    let target = ascii_lowercase(target);
    if same_text(host.as_str(), target.as_str()) {
        return true;
    }
    let h = chars_of(host.as_str());
    let t = chars_of(target.as_str());
    if h.len() < 2 || h.len() - 2 < t.len() {
        proof {
            let suffix = seq!['.'] + target@;
            assert(suffix.len() == target@.len() + 1);
        }
        return false;
    }
    let at: usize = h.len() - t.len();
    proof {
        let suffix = seq!['.'] + target@;
        assert(suffix.len() == target@.len() + 1);
        let whole = host@.subrange(at - 1, host@.len() as int);
        let tail = host@.subrange(at as int, host@.len() as int);
        assert(whole =~= seq![host@[at - 1]] + tail);
        if whole == suffix {
            assert(suffix[0] == '.');
            assert(tail =~= whole.skip(1));
            assert(suffix.skip(1) =~= target@);
        }
    }
    h[at - 1] == '.' && matches_at(&h, &t, at)
}

/// Whether a request's authority belongs to the target, given the hosts of the two.
pub open spec fn authority_matches(
    authority: Seq<char>,
    authority_host: Option<Seq<char>>,
    target: Seq<char>,
    target_host: Option<Seq<char>>,
) -> bool {
    crate::text::same_ignoring_case(authority, target) || (match (authority_host, target_host) {
        (Some(host), Some(target)) => host_belongs(host, target),
        _ => false,
    })
}

/// Decides whether a request's authority belongs to the target, given the hosts of the two.
pub fn decide_target(
    authority: &str,
    authority_host: Option<String>,
    target: &str,
    target_host: Option<String>,
) -> (r: bool)
    ensures
        r == authority_matches(
            authority@,
            text_of(authority_host),
            target@,
            text_of(target_host),
        ),
{
    if same_text_ignoring_case(authority, target) {
        return true;
    }
    match (authority_host, target_host) {
        (Some(host), Some(target)) => is_host_or_subdomain(host.as_str(), target.as_str()),
        _ => false,
    }
}

/// Tells whether a request's authority is the target's, or that of a host below it.
pub fn matches_target_authority(authority: &str, target: &str) -> (r: bool)
    ensures
        r == authority_matches(
            authority@,
            authority_host(authority@),
            target@,
            authority_host(target@),
        ),
{
    decide_target(authority, host_of(authority), target, host_of(target))
}

/// Whether a host serves instance credentials.
pub open spec fn metadata_host(host: Seq<char>) -> bool {
    host == "169.254.169.254"@ || host == "169.254.170.2"@ || host == "fd00:ec2::254"@
}

/// Tells whether a host serves instance credentials.
pub fn is_metadata_host(host: &str) -> (r: bool)
    ensures
        r == metadata_host(host@),
{
    same_text(host, "169.254.169.254") || same_text(host, "169.254.170.2") || same_text(
        host,
        "fd00:ec2::254",
    )
}

/// Whether one parameter of a query, from `at` to `at + len`, is bounded by `&` or the ends.
pub open spec fn is_parameter(query: Seq<char>, at: int, len: int) -> bool {
    &&& at == 0 || query[at - 1] == '&'
    &&& at + len == query.len() || query[at + len] == '&'
}

/// Whether a query holds the parameter `list-type` with the value `2`.
pub open spec fn lists_objects(query: Seq<char>) -> bool {
    exists|at: int|
        #[trigger] crate::text::occurs_at(query, "list-type=2"@, at) && is_parameter(
            query,
            at,
            "list-type=2"@.len() as int,
        )
}

/// Tells whether a query asks for a list of objects.
pub fn is_list_objects_query(query: &str) -> (r: bool)
    ensures
        r == lists_objects(query@),
{
    let q = chars_of(query);
    let n = chars_of("list-type=2");
    let mut at: usize = 0;
    while at < q.len()
        invariant
            at <= q.len(),
            q@ == query@,
            n@ == "list-type=2"@,
            forall|k: int|
                0 <= k < at ==> !(#[trigger] crate::text::occurs_at(q@, n@, k) && is_parameter(
                    q@,
                    k,
                    n@.len() as int,
                )),
        decreases q.len() - at,
    {
        if matches_at(&q, &n, at) {
            let starts = at == 0 || q[at - 1] == '&';
            let ends = at + n.len() == q.len() || q[at + n.len()] == '&';
            if starts && ends {
                return true;
            }
        }
        at += 1;
    }
    proof {
        reveal_strlit("list-type=2");
        assert(n@.len() == 11);
    }
    false
}

/// What a request counts as, given whether it belongs to the store.
pub open spec fn classified(
    method: Seq<char>,
    query: Option<Seq<char>>,
    targeted: bool,
) -> Option<HttpMethod> {
    if !targeted {
        None
    } else if method == "GET"@ && query is Some && lists_objects(query->0) {
        Some(HttpMethod::List)
    } else {
        Some(HttpMethod::of_token(method))
    }
}

/// Whether a request belongs to the store: to the target where there is one, else to any host
/// that does not serve credentials.
pub open spec fn is_targeted(
    authority: Option<Seq<char>>,
    host: Option<Seq<char>>,
    target: Option<Seq<char>>,
    target_host: Option<Seq<char>>,
) -> bool {
    match (authority, target) {
        (None, _) => false,
        (Some(authority), Some(target)) => authority_matches(authority, host, target, target_host),
        (Some(_), None) => !(host is Some && metadata_host(host->0)),
    }
}

/// Classifies a request that does or does not belong to the store.
pub fn classify_method(method: &str, query: Option<&str>, targeted: bool) -> (r: Option<HttpMethod>)
    ensures
        r == classified(
            method@,
            match query {
                Some(q) => Some(q@),
                None => None,
            },
            targeted,
        ),
{
    if !targeted {
        return None;
    }
    if same_text(method, "GET") {
        if let Some(q) = query {
            if is_list_objects_query(q) {
                return Some(HttpMethod::List);
            }
        }
    }
    Some(HttpMethod::from_http(method))
}

/// Classifies a request by its method, authority and query.
///
/// Requests to other hosts than the target, or to a credential service where there is no target,
/// are not counted.
pub fn classify_s3_request(
    method: &str,
    authority: Option<&str>,
    query: Option<&str>,
    target_authority: Option<&str>,
) -> (r: Option<HttpMethod>)
    ensures
        r == classified(
            method@,
            match query {
                Some(q) => Some(q@),
                None => None,
            },
            match authority {
                Some(a) => is_targeted(
                    Some(a@),
                    authority_host(a@),
                    match target_authority {
                        Some(t) => Some(t@),
                        None => None,
                    },
                    match target_authority {
                        Some(t) => authority_host(t@),
                        None => None,
                    },
                ),
                None => false,
            },
        ),
{
    let targeted: bool = match (authority, target_authority) {
        (Some(a), Some(t)) => matches_target_authority(a, t),
        (Some(a), None) => match host_of(a) {
            Some(host) => !is_metadata_host(host.as_str()),
            None => true,
        },
        (None, _) => false,
    };
    classify_method(method, query, targeted)
}

/// What a response status counts as.
#[derive(Debug, Clone, Copy, PartialEq, Eq, Structural)]
pub enum StatusClass {
    Success,
    NotFound,
    ClientError,
    ServerError,
    OtherError,
}

/// The class of a response status.
pub open spec fn status_class(status: u16) -> StatusClass {
    if 200 <= status < 400 {
        StatusClass::Success
    } else if status == 404 {
        StatusClass::NotFound
    } else if 400 <= status < 500 {
        StatusClass::ClientError
    } else if 500 <= status < 600 {
        StatusClass::ServerError
    } else {
        StatusClass::OtherError
    }
}

/// The counters after a response of a class.
pub open spec fn with_status(
    s: StoreSnapshot,
    method: HttpMethod,
    class: StatusClass,
) -> StoreSnapshot {
    match class {
        StatusClass::Success => StoreSnapshot {
            successful_requests: s.successful_requests.bumped(method, 1),
            ..s
        },
        StatusClass::NotFound => StoreSnapshot {
            not_found_responses: s.not_found_responses.bumped(method, 1),
            ..s
        },
        StatusClass::ClientError => StoreSnapshot {
            request_errors: s.request_errors.bumped(method, 1),
            client_errors: s.client_errors.bumped(method, 1),
            ..s
        },
        StatusClass::ServerError => StoreSnapshot {
            request_errors: s.request_errors.bumped(method, 1),
            server_errors: s.server_errors.bumped(method, 1),
            ..s
        },
        StatusClass::OtherError => StoreSnapshot {
            request_errors: s.request_errors.bumped(method, 1),
            ..s
        },
    }
}

/// Counts a response by its status.
pub fn record_status(metrics: &mut StoreMetrics, method: HttpMethod, status: u16)
    ensures
        final(metrics).counters() == with_status(
            old(metrics).counters(),
            method,
            status_class(status),
        ),
{
    if 200 <= status && status < 400 {
        metrics.record_success(method);
    } else if status == 404 {
        metrics.record_not_found(method);
    } else if 400 <= status && status < 500 {
        metrics.record_client_error(method);
    } else if 500 <= status && status < 600 {
        metrics.record_server_error(method);
    } else {
        metrics.record_other_error(method);
    }
}

/// What became of one request attempt.
#[derive(Debug, Clone, Copy, PartialEq, Eq, Structural)]
pub enum Attempt {
    /// A response with this status came back.
    Answered(u16),
    /// No response came back.
    Failed,
}

/// The counters after one attempt: the request, then its status or its failure.
pub open spec fn with_attempt(s: StoreSnapshot, method: HttpMethod, attempt: Attempt) -> StoreSnapshot {
    let sent = StoreSnapshot { requests: s.requests.bumped(method, 1), ..s };
    match attempt {
        Attempt::Answered(status) => with_status(sent, method, status_class(status)),
        Attempt::Failed => StoreSnapshot {
            request_errors: sent.request_errors.bumped(method, 1),
            transport_errors: sent.transport_errors.bumped(method, 1),
            ..sent
        },
    }
}

/// Counts what came of a request that was counted when it was sent.
pub fn record_outcome(metrics: &mut StoreMetrics, method: HttpMethod, attempt: Attempt)
    ensures
        final(metrics).counters() == (match attempt {
            Attempt::Answered(status) => with_status(
                old(metrics).counters(),
                method,
                status_class(status),
            ),
            Attempt::Failed => StoreSnapshot {
                request_errors: old(metrics).counters().request_errors.bumped(method, 1),
                transport_errors: old(metrics).counters().transport_errors.bumped(method, 1),
                ..old(metrics).counters()
            },
        }),
{
    match attempt {
        Attempt::Answered(status) => record_status(metrics, method, status),
        Attempt::Failed => metrics.record_transport_error(method),
    }
}

/// Counts one attempt from the request to its outcome.
pub fn record_attempt(metrics: &mut StoreMetrics, method: HttpMethod, attempt: Attempt)
    ensures
        final(metrics).counters() == with_attempt(old(metrics).counters(), method, attempt),
{
    metrics.record_request(method);
    record_outcome(metrics, method, attempt);
}

/// One step of reading a response body.
#[derive(Debug, Clone, Copy, PartialEq, Eq, Structural)]
pub enum BodyEvent {
    /// A frame of this many data bytes.
    Data(u64),
    /// A frame without data, or the end.
    Nothing,
    /// The body broke off.
    Broken,
}

/// Accounting of one response body.
#[derive(Debug, Clone, Copy, PartialEq, Eq, Structural)]
pub struct ResponseBody {
    pub method: HttpMethod,
    pub error_recorded: bool,
}

impl ResponseBody {
    /// Starts the accounting of a body.
    pub fn new(method: HttpMethod) -> (r: Self)
        ensures
            r == (ResponseBody { method, error_recorded: false }),
    {
        ResponseBody { method, error_recorded: false }
    }

    /// Counts one step of the body; the first failure counts as a transport error, and further
    /// failures do not count.
    pub fn observe(&mut self, metrics: &mut StoreMetrics, event: BodyEvent)
        ensures
            final(self).method == old(self).method,
            final(self).error_recorded == (old(self).error_recorded || event == BodyEvent::Broken),
            final(metrics).counters() == (match event {
                BodyEvent::Data(bytes) => StoreSnapshot {
                    response_bytes: old(metrics).counters().response_bytes.bumped(
                        old(self).method,
                        bytes,
                    ),
                    ..old(metrics).counters()
                },
                BodyEvent::Nothing => old(metrics).counters(),
                BodyEvent::Broken => if old(self).error_recorded {
                    old(metrics).counters()
                } else {
                    StoreSnapshot {
                        request_errors: old(metrics).counters().request_errors.bumped(
                            old(self).method,
                            1,
                        ),
                        transport_errors: old(metrics).counters().transport_errors.bumped(
                            old(self).method,
                            1,
                        ),
                        ..old(metrics).counters()
                    }
                },
            }),
    {
        match event {
            BodyEvent::Data(bytes) => metrics.record_response_bytes(self.method, bytes),
            BodyEvent::Nothing => {},
            BodyEvent::Broken => {
                if !self.error_recorded {
                    metrics.record_transport_error(self.method);
                    self.error_recorded = true;
                }
            },
        }
    }
}

/// A missing object is counted as such and not as a failed request.
pub proof fn missing_objects_are_not_errors(s: StoreSnapshot, method: HttpMethod)
    ensures
        with_attempt(s, method, Attempt::Answered(404)).request_errors == s.request_errors,
        with_attempt(s, method, Attempt::Answered(404)).not_found_responses
            == s.not_found_responses.bumped(method, 1),
{
}

/// Every attempt counts as one request, whatever becomes of it, and as exactly one of a success,
/// a missing object and an error.
pub proof fn attempts_are_counted_once(s: StoreSnapshot, method: HttpMethod, attempt: Attempt)
    ensures
        with_attempt(s, method, attempt).requests == s.requests.bumped(method, 1),
        ({
            let t = with_attempt(s, method, attempt);
            let success = t.successful_requests == s.successful_requests.bumped(method, 1);
            let missing = t.not_found_responses == s.not_found_responses.bumped(method, 1);
            let error = t.request_errors == s.request_errors.bumped(method, 1);
            &&& (success && t.not_found_responses == s.not_found_responses && t.request_errors
                == s.request_errors) || (missing && t.successful_requests == s.successful_requests
                && t.request_errors == s.request_errors) || (error && t.successful_requests
                == s.successful_requests && t.not_found_responses == s.not_found_responses)
        }),
{
}

/// Whether the errors with a known cause are no more than all errors of each method.
pub open spec fn errors_are_explained(s: StoreSnapshot) -> bool {
    forall|m: HttpMethod|
        #[trigger] s.client_errors.of(m) + s.server_errors.of(m) + s.transport_errors.of(m)
            <= s.request_errors.of(m)
}

/// Counting an attempt keeps the causes of errors within the errors, while no counter wraps.
pub proof fn attempts_explain_errors(s: StoreSnapshot, method: HttpMethod, attempt: Attempt)
    requires
        errors_are_explained(s),
        s.request_errors.of(method) < u64::MAX,
    ensures
        errors_are_explained(with_attempt(s, method, attempt)),
{
    let t = with_attempt(s, method, attempt);
    assert forall|m: HttpMethod|
        #[trigger] t.client_errors.of(m) + t.server_errors.of(m) + t.transport_errors.of(m)
            <= t.request_errors.of(m) by {
        assert(s.client_errors.of(m) + s.server_errors.of(m) + s.transport_errors.of(m)
            <= s.request_errors.of(m));
        crate::instrumented_store::bump_changes_one_method(s.request_errors, method, 1, m);
        crate::instrumented_store::bump_changes_one_method(s.client_errors, method, 1, m);
        crate::instrumented_store::bump_changes_one_method(s.server_errors, method, 1, m);
        crate::instrumented_store::bump_changes_one_method(s.transport_errors, method, 1, m);
        causes_within_errors(s, t, method, attempt, m);
    }
}

proof fn causes_within_errors(
    s: StoreSnapshot,
    t: StoreSnapshot,
    method: HttpMethod,
    attempt: Attempt,
    m: HttpMethod,
)
    requires
        t == with_attempt(s, method, attempt),
        s.request_errors.of(method) < u64::MAX,
        s.client_errors.of(m) + s.server_errors.of(m) + s.transport_errors.of(m)
            <= s.request_errors.of(m),
        s.request_errors.bumped(method, 1).of(m) == (if m.row() == method.row() {
            crate::instrumented_store::wrapped_sum(s.request_errors.of(m), 1)
        } else {
            s.request_errors.of(m)
        }),
        s.client_errors.bumped(method, 1).of(m) == (if m.row() == method.row() {
            crate::instrumented_store::wrapped_sum(s.client_errors.of(m), 1)
        } else {
            s.client_errors.of(m)
        }),
        s.server_errors.bumped(method, 1).of(m) == (if m.row() == method.row() {
            crate::instrumented_store::wrapped_sum(s.server_errors.of(m), 1)
        } else {
            s.server_errors.of(m)
        }),
        s.transport_errors.bumped(method, 1).of(m) == (if m.row() == method.row() {
            crate::instrumented_store::wrapped_sum(s.transport_errors.of(m), 1)
        } else {
            s.transport_errors.of(m)
        }),
    ensures
        t.client_errors.of(m) + t.server_errors.of(m) + t.transport_errors.of(m)
            <= t.request_errors.of(m),
{
    match attempt {
        Attempt::Answered(status) => match status_class(status) {
            StatusClass::Success => {},
            StatusClass::NotFound => {},
            StatusClass::ClientError => {},
            StatusClass::ServerError => {},
            StatusClass::OtherError => {},
        },
        Attempt::Failed => {},
    }
}

/// A client option that holds a text of the wrong form.
#[derive(Debug, Clone, Copy, PartialEq, Eq, Structural)]
pub struct ClientOptionError;

/// Reads a switch; an absent option is off.
pub fn client_bool(value: Option<&str>) -> (r: Result<bool, ClientOptionError>)
    ensures
        r == (match value {
            None => Ok(false),
            Some(v) => if v@ == "true"@ {
                Ok(true)
            } else if v@ == "false"@ {
                Ok(false)
            } else {
                Err(ClientOptionError)
            },
        }),
{
    match value {
        None => Ok(false),
        Some(v) => {
            proof {
                reveal_strlit("true");
                reveal_strlit("false");
                assert("true"@.len() != "false"@.len());
            }
            if same_text(v, "true") {
                Ok(true)
            } else if same_text(v, "false") {
                Ok(false)
            } else {
                Err(ClientOptionError)
            }
        },
    }
}

/// Reads a count that is no more than `limit`; an absent option gives none.
pub fn client_count(value: Option<&str>, limit: u64) -> (r: Result<Option<u64>, ClientOptionError>)
    ensures
        match value {
            None => r == Ok::<Option<u64>, ClientOptionError>(None),
            Some(v) => match crate::text::unsigned_value(v@, limit as nat) {
                Some(n) => n <= limit && r == Ok::<Option<u64>, ClientOptionError>(Some(n as u64)),
                None => r == Err::<Option<u64>, ClientOptionError>(ClientOptionError),
            },
        },
{
    match value {
        None => Ok(None),
        Some(v) => match parse_unsigned(v, limit) {
            Some(n) => Ok(Some(n)),
            None => Err(ClientOptionError),
        },
    }
}

/// Reads a pool size.
pub fn client_usize(value: Option<&str>) -> (r: Result<Option<u64>, ClientOptionError>)
    ensures
        match value {
            None => r == Ok::<Option<u64>, ClientOptionError>(None),
            Some(v) => match crate::text::unsigned_value(v@, usize::MAX as nat) {
                Some(n) => r is Ok && r->Ok_0 is Some && r->Ok_0->0 == n,
                None => r is Err,
            },
        },
{
    client_count(value, usize::MAX as u64)
}

/// Reads a frame size.
pub fn client_u32(value: Option<&str>) -> (r: Result<Option<u32>, ClientOptionError>)
    ensures
        match value {
            None => r == Ok::<Option<u32>, ClientOptionError>(None),
            Some(v) => match crate::text::unsigned_value(v@, u32::MAX as nat) {
                Some(n) => r is Ok && r->Ok_0 is Some && r->Ok_0->0 == n,
                None => r is Err,
            },
        },
{
    match client_count(value, u32::MAX as u64) {
        Ok(Some(n)) => Ok(Some(n as u32)),
        Ok(None) => Ok(None),
        Err(e) => Err(e),
    }
}

/// Reads a time span, in nanoseconds; an absent option gives none.
pub fn client_duration(value: Option<&str>) -> (r: Result<Option<u128>, ClientOptionError>)
    ensures
        match value {
            None => r == Ok::<Option<u128>, ClientOptionError>(None),
            Some(v) => match durations::written_nanos(v@) {
                Some(n) => r == Ok::<Option<u128>, ClientOptionError>(Some(n)),
                None => r == Err::<Option<u128>, ClientOptionError>(ClientOptionError),
            },
        },
{
    match value {
        None => Ok(None),
        Some(v) => match read_nanos(v) {
            Some(n) => Ok(Some(n)),
            None => Err(ClientOptionError),
        },
    }
}

/// How a request failed on the way.
#[derive(Debug, Clone, Copy, PartialEq, Eq, Structural)]
pub enum TransportFailure {
    Timeout,
    Connect,
    Decode,
    Request,
}

/// Names a failure by the first of its marks.
pub fn transport_failure(timeout: bool, connect: bool, decode: bool) -> (r: TransportFailure)
    ensures
        r == (if timeout {
            TransportFailure::Timeout
        } else if connect {
            TransportFailure::Connect
        } else if decode {
            TransportFailure::Decode
        } else {
            TransportFailure::Request
        }),
{
    if timeout {
        TransportFailure::Timeout
    } else if connect {
        TransportFailure::Connect
    } else if decode {
        TransportFailure::Decode
    } else {
        TransportFailure::Request
    }
}

/// An attempt counts one request of its method and one outcome: a status from 200 to 399 is a
/// success, 404 a missing object, the rest of 400 to 499 a client's failure, 500 to 599 a server's,
/// anything else another failure, and no answer one of the transport.
pub proof fn attempts_are_counted_by_their_status(s: StoreSnapshot, m: HttpMethod, status: u16)
    requires
        s.requests.of(m) < u64::MAX,
        s.successful_requests.of(m) < u64::MAX,
        s.not_found_responses.of(m) < u64::MAX,
        s.request_errors.of(m) < u64::MAX,
        s.client_errors.of(m) < u64::MAX,
        s.server_errors.of(m) < u64::MAX,
        s.transport_errors.of(m) < u64::MAX,
    ensures
        ({
            let t = with_attempt(s, m, Attempt::Answered(status));
            let missing = status == 404;
            let success = 200 <= status <= 399;
            let client = 400 <= status <= 499 && !missing;
            let server = 500 <= status <= 599;
            let one = |b: bool|
                if b {
                    1int
                } else {
                    0int
                };
            &&& t.requests.of(m) == s.requests.of(m) + 1
            &&& t.successful_requests.of(m) == s.successful_requests.of(m) + one(success)
            &&& t.not_found_responses.of(m) == s.not_found_responses.of(m) + one(missing)
            &&& t.client_errors.of(m) == s.client_errors.of(m) + one(client)
            &&& t.server_errors.of(m) == s.server_errors.of(m) + one(server)
            &&& t.request_errors.of(m) == s.request_errors.of(m) + one(!success && !missing)
            &&& t.transport_errors == s.transport_errors
            &&& t.request_bytes == s.request_bytes
            &&& t.response_bytes == s.response_bytes
        }),
        ({
            let t = with_attempt(s, m, Attempt::Failed);
            &&& t.requests.of(m) == s.requests.of(m) + 1
            &&& t.request_errors.of(m) == s.request_errors.of(m) + 1
            &&& t.transport_errors.of(m) == s.transport_errors.of(m) + 1
            &&& t.successful_requests == s.successful_requests
            &&& t.not_found_responses == s.not_found_responses
            &&& t.client_errors == s.client_errors
            &&& t.server_errors == s.server_errors
            &&& t.request_bytes == s.request_bytes
            &&& t.response_bytes == s.response_bytes
        }),
{
}

/// Only requests to the store are counted: those to its endpoint, or without one all but those to
/// the machine's own metadata; a get with a listing query is a listing.
pub proof fn requests_are_classified(
    method: Seq<char>,
    query: Option<Seq<char>>,
    authority: Option<Seq<char>>,
    host: Option<Seq<char>>,
    target: Option<Seq<char>>,
    target_host: Option<Seq<char>>,
    targeted: bool,
)
    ensures
        classified(method, query, targeted) is Some <==> targeted,
        targeted && method != "GET"@ ==> classified(method, query, targeted) == Some(
            HttpMethod::of_token(method),
        ),
        targeted && method == "GET"@ ==> classified(method, query, targeted) == Some(
            if query is Some && lists_objects(query->0) {
                HttpMethod::List
            } else {
                HttpMethod::Get
            },
        ),
        authority is None ==> !is_targeted(authority, host, target, target_host),
        authority is Some && target is Some ==> is_targeted(authority, host, target, target_host)
            == authority_matches(authority->0, host, target->0, target_host),
        authority is Some && target is None ==> (is_targeted(authority, host, target, target_host)
            <==> !(host == Some("169.254.169.254"@) || host == Some("169.254.170.2"@) || host
            == Some("fd00:ec2::254"@))),
{
}

/// A host belongs to the endpoint's where it is the same, or a name below it, whatever the case.
pub proof fn hosts_belong_below_the_endpoint(host: Seq<char>, target: Seq<char>)
    ensures
        crate::text::lower_text(host) == crate::text::lower_text(target) ==> host_belongs(
            host,
            target,
        ),
        host_belongs(host, target) ==> {
            let h = crate::text::lower_text(host);
            let t = crate::text::lower_text(target);
            h == t || (h.len() > t.len() + 1 && h.skip(h.len() - t.len()) == t && h[h.len()
                - t.len() - 1] == '.')
        },
{
    let h = crate::text::lower_text(host);
    let t = crate::text::lower_text(target);
    if host_belongs(host, target) && h != t {
        let suffix = seq!['.'] + t;
        assert(h.skip(h.len() - suffix.len()) =~= suffix);
        assert(h.skip(h.len() - t.len()) =~= t) by {
            assert forall|i: int| 0 <= i < t.len() implies h.skip(h.len() - t.len())[i] == t[i] by {
                assert(h.skip(h.len() - suffix.len())[i + 1] == suffix[i + 1]);
            }
        }
        assert(h.skip(h.len() - suffix.len())[0] == suffix[0]);
    }
}

} // verus!
