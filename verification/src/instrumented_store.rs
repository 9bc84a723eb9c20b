//! Counters of physical object-store requests.

use crate::count::{minus, plus};
use crate::text::same_text;
use vstd::prelude::*;

verus! {

/// What a request is; listing objects is told apart from other reads, and counted as one.
#[derive(Debug, Clone, Copy, PartialEq, Eq, Structural)]
pub enum HttpMethod {
    Get,
    Put,
    Head,
    Delete,
    Post,
    List,
    Other,
}

/// The physical HTTP methods in reporting order.
pub open spec fn method_names() -> Seq<Seq<char>> {
    seq!["GET"@, "PUT"@, "HEAD"@, "DELETE"@, "POST"@, "OTHER"@]
}

impl HttpMethod {
    /// The name under which a method is reported.
    pub open spec fn label(self) -> Seq<char> {
        match self {
            HttpMethod::Get | HttpMethod::List => "GET"@,
            HttpMethod::Put => "PUT"@,
            HttpMethod::Head => "HEAD"@,
            HttpMethod::Delete => "DELETE"@,
            HttpMethod::Post => "POST"@,
            HttpMethod::Other => "OTHER"@,
        }
    }

    /// The method that an HTTP method token stands for.
    pub open spec fn of_token(token: Seq<char>) -> HttpMethod {
        if token == "GET"@ {
            HttpMethod::Get
        } else if token == "PUT"@ {
            HttpMethod::Put
        } else if token == "HEAD"@ {
            HttpMethod::Head
        } else if token == "DELETE"@ {
            HttpMethod::Delete
        } else if token == "POST"@ {
            HttpMethod::Post
        } else {
            HttpMethod::Other
        }
    }

    /// The physical method under which a request is counted.
    pub open spec fn row(self) -> HttpMethod {
        if self == HttpMethod::List {
            HttpMethod::Get
        } else {
            self
        }
    }

    /// The position of a method in reporting order.
    pub open spec fn position(self) -> int {
        match self {
            HttpMethod::Get | HttpMethod::List => 0,
            HttpMethod::Put => 1,
            HttpMethod::Head => 2,
            HttpMethod::Delete => 3,
            HttpMethod::Post => 4,
            HttpMethod::Other => 5,
        }
    }

    /// Classifies an HTTP method token.
    pub fn from_http(token: &str) -> (r: Self)
        ensures
            r == HttpMethod::of_token(token@),
    {
        if same_text(token, "GET") {
            HttpMethod::Get
        } else if same_text(token, "PUT") {
            HttpMethod::Put
        } else if same_text(token, "HEAD") {
            HttpMethod::Head
        } else if same_text(token, "DELETE") {
            HttpMethod::Delete
        } else if same_text(token, "POST") {
            HttpMethod::Post
        } else {
            HttpMethod::Other
        }
    }

    /// The position of a method in reporting order.
    pub fn index(self) -> (r: usize)
        ensures
            r == self.position(),
    {
        match self {
            HttpMethod::Get | HttpMethod::List => 0,
            HttpMethod::Put => 1,
            HttpMethod::Head => 2,
            HttpMethod::Delete => 3,
            HttpMethod::Post => 4,
            HttpMethod::Other => 5,
        }
    }

    /// The name under which a method is reported.
    pub fn name(self) -> (r: &'static str)
        ensures
            r@ == self.label(),
    {
        match self {
            HttpMethod::Get | HttpMethod::List => "GET",
            HttpMethod::Put => "PUT",
            HttpMethod::Head => "HEAD",
            HttpMethod::Delete => "DELETE",
            HttpMethod::Post => "POST",
            HttpMethod::Other => "OTHER",
        }
    }
}

/// Every physical method is reported under its own name.
pub proof fn labels_are_distinct(a: HttpMethod, b: HttpMethod)
    requires
        a.label() == b.label(),
    ensures
        a.row() == b.row(),
{
    reveal_strlit("GET");
    reveal_strlit("PUT");
    reveal_strlit("HEAD");
    reveal_strlit("DELETE");
    reveal_strlit("POST");
    reveal_strlit("OTHER");
    let x = a.label();
    let y = b.label();
    assert(x.len() == y.len());
    assert(x[0] == y[0]);
    assert(x[1] == y[1]);
}

/// One counter for each physical method.
#[derive(Debug, Clone, Copy, PartialEq, Eq, Structural)]
pub struct MethodCounts {
    pub get: u64,
    pub put: u64,
    pub head: u64,
    pub delete: u64,
    pub post: u64,
    pub other: u64,
}

impl MethodCounts {
    /// The counter of a method.
    pub open spec fn of(self, method: HttpMethod) -> u64 {
        match method {
            HttpMethod::Get | HttpMethod::List => self.get,
            HttpMethod::Put => self.put,
            HttpMethod::Head => self.head,
            HttpMethod::Delete => self.delete,
            HttpMethod::Post => self.post,
            HttpMethod::Other => self.other,
        }
    }

    /// The counter reported under a name, zero for any other name.
    pub open spec fn named(self, name: Seq<char>) -> u64 {
        if name == "GET"@ {
            self.get
        } else if name == "PUT"@ {
            self.put
        } else if name == "HEAD"@ {
            self.head
        } else if name == "DELETE"@ {
            self.delete
        } else if name == "POST"@ {
            self.post
        } else if name == "OTHER"@ {
            self.other
        } else {
            0
        }
    }

    /// The sum of all counters.
    pub open spec fn sum(self) -> nat {
        (self.get + self.put + self.head + self.delete + self.post + self.other) as nat
    }

    /// Counters that are all zero.
    pub open spec fn zero() -> MethodCounts {
        MethodCounts { get: 0, put: 0, head: 0, delete: 0, post: 0, other: 0 }
    }

    /// The counters with `amount` added to one method, wrapping at the end of the range.
    pub open spec fn bumped(self, method: HttpMethod, amount: u64) -> MethodCounts {
        match method {
            HttpMethod::Get | HttpMethod::List => MethodCounts {
                get: wrapped_sum(self.get, amount),
                ..self
            },
            HttpMethod::Put => MethodCounts { put: wrapped_sum(self.put, amount), ..self },
            HttpMethod::Head => MethodCounts { head: wrapped_sum(self.head, amount), ..self },
            HttpMethod::Delete => MethodCounts { delete: wrapped_sum(self.delete, amount), ..self },
            HttpMethod::Post => MethodCounts { post: wrapped_sum(self.post, amount), ..self },
            HttpMethod::Other => MethodCounts { other: wrapped_sum(self.other, amount), ..self },
        }
    }

    /// The growth of each counter since `start`, zero where it did not grow.
    pub open spec fn since(self, start: MethodCounts) -> MethodCounts {
        MethodCounts {
            get: crate::count::floored_difference(self.get, start.get),
            put: crate::count::floored_difference(self.put, start.put),
            head: crate::count::floored_difference(self.head, start.head),
            delete: crate::count::floored_difference(self.delete, start.delete),
            post: crate::count::floored_difference(self.post, start.post),
            other: crate::count::floored_difference(self.other, start.other),
        }
    }

    /// Returns counters that are all zero.
    pub fn new() -> (r: Self)
        ensures
            r == MethodCounts::zero(),
    {
        MethodCounts { get: 0, put: 0, head: 0, delete: 0, post: 0, other: 0 }
    }

    /// Returns the counter reported under a name.
    pub fn get(&self, name: &str) -> (r: Option<u64>)
        ensures
            r is Some <==> method_names().contains(name@),
            r matches Some(v) ==> v == self.named(name@),
    {
        proof {
            assert forall|i: int| 0 <= i < 6 implies method_names().contains(
                #[trigger] method_names()[i],
            ) by {}
            assert(method_names()[0] == "GET"@ && method_names()[1] == "PUT"@ && method_names()[2]
                == "HEAD"@ && method_names()[3] == "DELETE"@ && method_names()[4] == "POST"@
                && method_names()[5] == "OTHER"@);
        }
        if same_text(name, "GET") {
            Some(self.get)
        } else if same_text(name, "PUT") {
            Some(self.put)
        } else if same_text(name, "HEAD") {
            Some(self.head)
        } else if same_text(name, "DELETE") {
            Some(self.delete)
        } else if same_text(name, "POST") {
            Some(self.post)
        } else if same_text(name, "OTHER") {
            Some(self.other)
        } else {
            None
        }
    }

    /// Returns the counter of a method.
    pub fn count(&self, method: HttpMethod) -> (r: u64)
        ensures
            r == self.of(method),
    {
        match method {
            HttpMethod::Get | HttpMethod::List => self.get,
            HttpMethod::Put => self.put,
            HttpMethod::Head => self.head,
            HttpMethod::Delete => self.delete,
            HttpMethod::Post => self.post,
            HttpMethod::Other => self.other,
        }
    }

    /// Adds to the counter of a method.
    fn bump(&mut self, method: HttpMethod, amount: u64)
        ensures
            *final(self) == old(self).bumped(method, amount),
    {
        match method {
            HttpMethod::Get | HttpMethod::List => {
                self.get = wrapping_sum(self.get, amount);
            },
            HttpMethod::Put => {
                self.put = wrapping_sum(self.put, amount);
            },
            HttpMethod::Head => {
                self.head = wrapping_sum(self.head, amount);
            },
            HttpMethod::Delete => {
                self.delete = wrapping_sum(self.delete, amount);
            },
            HttpMethod::Post => {
                self.post = wrapping_sum(self.post, amount);
            },
            HttpMethod::Other => {
                self.other = wrapping_sum(self.other, amount);
            },
        }
    }
}

/// Addition that starts over at zero past the largest 64-bit value.
pub open spec fn wrapped_sum(a: u64, b: u64) -> u64 {
    if a + b > u64::MAX {
        (a + b - u64::MAX - 1) as u64
    } else {
        (a + b) as u64
    }
}

fn wrapping_sum(a: u64, b: u64) -> (r: u64)
    ensures
        r == wrapped_sum(a, b),
{
    if a > u64::MAX - b {
        a - (u64::MAX - b) - 1
    } else {
        a + b
    }
}

/// Adding to one method's counter leaves the others alone.
pub proof fn bump_changes_one_method(
    counts: MethodCounts,
    method: HttpMethod,
    amount: u64,
    m: HttpMethod,
)
    ensures
        counts.bumped(method, amount).of(m) == (if m.row() == method.row() {
            wrapped_sum(counts.of(m), amount)
        } else {
            counts.of(m)
        }),
{
}

/// Counts the growth of one counter table since another.
pub fn difference(end: &MethodCounts, start: &MethodCounts) -> (r: MethodCounts)
    ensures
        r == end.since(*start),
{
    MethodCounts {
        get: minus(end.get, start.get),
        put: minus(end.put, start.put),
        head: minus(end.head, start.head),
        delete: minus(end.delete, start.delete),
        post: minus(end.post, start.post),
        other: minus(end.other, start.other),
    }
}

/// The counters of a store at one moment.
#[derive(Debug, Clone, Copy, PartialEq, Eq, Structural)]
pub struct StoreSnapshot {
    pub requests: MethodCounts,
    pub successful_requests: MethodCounts,
    pub not_found_responses: MethodCounts,
    pub request_errors: MethodCounts,
    pub client_errors: MethodCounts,
    pub server_errors: MethodCounts,
    pub transport_errors: MethodCounts,
    pub request_bytes: MethodCounts,
    pub response_bytes: MethodCounts,
}

/// One thing that is counted.
#[derive(Debug, Clone, Copy, PartialEq, Eq, Structural)]
pub enum Recording {
    Request(HttpMethod),
    RequestBytes(HttpMethod, u64),
    Success(HttpMethod),
    NotFound(HttpMethod),
    ClientError(HttpMethod),
    ServerError(HttpMethod),
    OtherError(HttpMethod),
    TransportError(HttpMethod),
    ResponseBytes(HttpMethod, u64),
}

impl Recording {
    /// Whether an error of a method is counted.
    pub open spec fn is_error_of(self, m: HttpMethod) -> bool {
        match self {
            Recording::ClientError(method) => method.row() == m.row(),
            Recording::ServerError(method) => method.row() == m.row(),
            Recording::OtherError(method) => method.row() == m.row(),
            Recording::TransportError(method) => method.row() == m.row(),
            _ => false,
        }
    }

    /// Whether an error of a method is counted that has none of the named causes.
    pub open spec fn is_other_error_of(self, m: HttpMethod) -> bool {
        self matches Recording::OtherError(method) && method.row() == m.row()
    }
}

impl StoreSnapshot {
    /// The counters after one more thing was counted.
    pub open spec fn with(self, recording: Recording) -> StoreSnapshot {
        match recording {
            Recording::Request(method) => StoreSnapshot {
                requests: self.requests.bumped(method, 1),
                ..self
            },
            Recording::RequestBytes(method, bytes) => StoreSnapshot {
                request_bytes: self.request_bytes.bumped(method, bytes),
                ..self
            },
            Recording::Success(method) => StoreSnapshot {
                successful_requests: self.successful_requests.bumped(method, 1),
                ..self
            },
            Recording::NotFound(method) => StoreSnapshot {
                not_found_responses: self.not_found_responses.bumped(method, 1),
                ..self
            },
            Recording::ClientError(method) => StoreSnapshot {
                request_errors: self.request_errors.bumped(method, 1),
                client_errors: self.client_errors.bumped(method, 1),
                ..self
            },
            Recording::ServerError(method) => StoreSnapshot {
                request_errors: self.request_errors.bumped(method, 1),
                server_errors: self.server_errors.bumped(method, 1),
                ..self
            },
            Recording::OtherError(method) => StoreSnapshot {
                request_errors: self.request_errors.bumped(method, 1),
                ..self
            },
            Recording::TransportError(method) => StoreSnapshot {
                request_errors: self.request_errors.bumped(method, 1),
                transport_errors: self.transport_errors.bumped(method, 1),
                ..self
            },
            Recording::ResponseBytes(method, bytes) => StoreSnapshot {
                response_bytes: self.response_bytes.bumped(method, bytes),
                ..self
            },
        }
    }

    /// The counters after a number of things were counted, from zero on.
    pub open spec fn after(recordings: Seq<Recording>) -> StoreSnapshot
        decreases recordings.len(),
    {
        if recordings.len() == 0 {
            StoreSnapshot::zero()
        } else {
            StoreSnapshot::after(recordings.drop_last()).with(recordings.last())
        }
    }

    /// Counters that are all zero.
    pub open spec fn zero() -> StoreSnapshot {
        StoreSnapshot {
            requests: MethodCounts::zero(),
            successful_requests: MethodCounts::zero(),
            not_found_responses: MethodCounts::zero(),
            request_errors: MethodCounts::zero(),
            client_errors: MethodCounts::zero(),
            server_errors: MethodCounts::zero(),
            transport_errors: MethodCounts::zero(),
            request_bytes: MethodCounts::zero(),
            response_bytes: MethodCounts::zero(),
        }
    }

    /// The growth of every counter since `start`.
    pub open spec fn since(self, start: StoreSnapshot) -> StoreSnapshot {
        StoreSnapshot {
            requests: self.requests.since(start.requests),
            successful_requests: self.successful_requests.since(start.successful_requests),
            not_found_responses: self.not_found_responses.since(start.not_found_responses),
            request_errors: self.request_errors.since(start.request_errors),
            client_errors: self.client_errors.since(start.client_errors),
            server_errors: self.server_errors.since(start.server_errors),
            transport_errors: self.transport_errors.since(start.transport_errors),
            request_bytes: self.request_bytes.since(start.request_bytes),
            response_bytes: self.response_bytes.since(start.response_bytes),
        }
    }

    /// The body bytes sent and received with a method.
    pub open spec fn body(self, method: HttpMethod) -> u64 {
        crate::count::capped_sum(self.request_bytes.of(method), self.response_bytes.of(method))
    }

    /// Returns counters that are all zero.
    pub fn new() -> (r: Self)
        ensures
            r == StoreSnapshot::zero(),
    {
        let zero = MethodCounts::new();
        StoreSnapshot {
            requests: zero,
            successful_requests: zero,
            not_found_responses: zero,
            request_errors: zero,
            client_errors: zero,
            server_errors: zero,
            transport_errors: zero,
            request_bytes: zero,
            response_bytes: zero,
        }
    }

    /// Counts the growth of every counter since `start`.
    pub fn difference(&self, start: &Self) -> (r: Self)
        ensures
            r == self.since(*start),
    {
        StoreSnapshot {
            requests: difference(&self.requests, &start.requests),
            successful_requests: difference(&self.successful_requests, &start.successful_requests),
            not_found_responses: difference(&self.not_found_responses, &start.not_found_responses),
            request_errors: difference(&self.request_errors, &start.request_errors),
            client_errors: difference(&self.client_errors, &start.client_errors),
            server_errors: difference(&self.server_errors, &start.server_errors),
            transport_errors: difference(&self.transport_errors, &start.transport_errors),
            request_bytes: difference(&self.request_bytes, &start.request_bytes),
            response_bytes: difference(&self.response_bytes, &start.response_bytes),
        }
    }

    /// Returns the body bytes sent and received under a method name.
    pub fn body_bytes(&self, method: &str) -> (r: u64)
        ensures
            r == crate::count::capped_sum(self.request_bytes.named(method@), self.response_bytes.named(method@)),
    {
        let sent: u64 = match self.request_bytes.get(method) {
            Some(bytes) => bytes,
            None => 0,
        };
        let received: u64 = match self.response_bytes.get(method) {
            Some(bytes) => bytes,
            None => 0,
        };
        proof {
            names_without_counter(self.request_bytes, method@);
            names_without_counter(self.response_bytes, method@);
        }
        plus(sent, received)
    }

    /// Returns the number of failed requests of all methods.
    pub fn errors(&self) -> (r: u64)
        requires
            self.request_errors.sum() <= u64::MAX,
        ensures
            r == self.request_errors.sum(),
    {
        let e = &self.request_errors;
        e.get + e.put + e.head + e.delete + e.post + e.other
    }
}

proof fn names_without_counter(counts: MethodCounts, name: Seq<char>)
    ensures
        !method_names().contains(name) ==> counts.named(name) == 0,
{
    assert(method_names()[0] == "GET"@ && method_names()[1] == "PUT"@ && method_names()[2]
        == "HEAD"@ && method_names()[3] == "DELETE"@ && method_names()[4] == "POST"@
        && method_names()[5] == "OTHER"@);
    assert forall|i: int| 0 <= i < 6 implies method_names().contains(#[trigger] method_names()[i]) by {}
}

/// The name of a method selects that method's counter.
pub proof fn names_select_methods(counts: MethodCounts, method: HttpMethod)
    ensures
        counts.named(method.label()) == counts.of(method),
{
    reveal_strlit("GET");
    reveal_strlit("PUT");
    reveal_strlit("HEAD");
    reveal_strlit("DELETE");
    reveal_strlit("POST");
    reveal_strlit("OTHER");
    let x = method.label();
    assert(x[0] == x[0]);
    assert(x[1] == x[1]);
    assert("GET"@[0] == 'G' && "PUT"@[1] == 'U' && "HEAD"@[0] == 'H' && "DELETE"@[0] == 'D'
        && "POST"@[1] == 'O' && "PUT"@[0] == 'P' && "POST"@[0] == 'P'
        && "OTHER"@[0] == 'O');
}

/// The errors of a method among things that are counted.
pub open spec fn errors_of(recordings: Seq<Recording>, m: HttpMethod) -> nat
    decreases recordings.len(),
{
    if recordings.len() == 0 {
        0
    } else {
        errors_of(recordings.drop_last(), m) + if recordings.last().is_error_of(m) {
            1nat
        } else {
            0nat
        }
    }
}

/// The errors of a method among things that are counted that have none of the named causes.
pub open spec fn other_errors_of(recordings: Seq<Recording>, m: HttpMethod) -> nat
    decreases recordings.len(),
{
    if recordings.len() == 0 {
        0
    } else {
        other_errors_of(recordings.drop_last(), m) + if recordings.last().is_other_error_of(m) {
            1nat
        } else {
            0nat
        }
    }
}

/// Whatever is counted, and in whatever order, the errors of a method are those of the client,
/// of the server and of the way there, and those with another cause, while no counter wraps.
pub proof fn errors_are_their_causes(recordings: Seq<Recording>, m: HttpMethod)
    requires
        errors_of(recordings, m) <= u64::MAX,
    ensures
        ({
            let s = StoreSnapshot::after(recordings);
            &&& s.request_errors.of(m) == errors_of(recordings, m)
            &&& s.request_errors.of(m) == s.client_errors.of(m) + s.server_errors.of(m)
                + s.transport_errors.of(m) + other_errors_of(recordings, m)
        }),
    decreases recordings.len(),
{
    if recordings.len() > 0 {
        let before = StoreSnapshot::after(recordings.drop_last());
        errors_are_their_causes(recordings.drop_last(), m);
        match recordings.last() {
            Recording::ClientError(method) => {
                bump_changes_one_method(before.request_errors, method, 1, m);
                bump_changes_one_method(before.client_errors, method, 1, m);
            },
            Recording::ServerError(method) => {
                bump_changes_one_method(before.request_errors, method, 1, m);
                bump_changes_one_method(before.server_errors, method, 1, m);
            },
            Recording::OtherError(method) => {
                bump_changes_one_method(before.request_errors, method, 1, m);
            },
            Recording::TransportError(method) => {
                bump_changes_one_method(before.request_errors, method, 1, m);
                bump_changes_one_method(before.transport_errors, method, 1, m);
            },
            _ => {},
        }
    }
}

/// A snapshot has a counter under the name of each physical method, and under no other name.
pub proof fn snapshots_have_a_row_for_each_method(method: HttpMethod, name: Seq<char>)
    ensures
        method_names().contains(method.label()),
        method_names().contains(name) ==> exists|m: HttpMethod| #[trigger] m.label() == name,
{
    assert(method_names()[0] == HttpMethod::Get.label() && method_names()[1]
        == HttpMethod::Put.label() && method_names()[2] == HttpMethod::Head.label()
        && method_names()[3] == HttpMethod::Delete.label() && method_names()[4]
        == HttpMethod::Post.label() && method_names()[5] == HttpMethod::Other.label());
}

/// Counters of the requests that reached a store.
#[derive(Debug, Clone, Copy, PartialEq, Eq, Structural)]
pub struct StoreMetrics {
    counts: StoreSnapshot,
}

impl StoreMetrics {
    /// The counters as they stand.
    pub closed spec fn counters(&self) -> StoreSnapshot {
        self.counts
    }

    /// Starts every counter at zero.
    pub fn new() -> (r: Self)
        ensures
            r.counters() == StoreSnapshot::zero(),
    {
        StoreMetrics { counts: StoreSnapshot::new() }
    }

    /// Returns the counters as they stand.
    pub fn snapshot(&self) -> (r: StoreSnapshot)
        ensures
            r == self.counters(),
    {
        self.counts
    }

    /// Counts a request that is about to be sent.
    pub fn record_request(&mut self, method: HttpMethod)
        ensures
            final(self).counters() == old(self).counters().with(Recording::Request(method)),
    {
        self.counts.requests.bump(method, 1);
    }

    /// Counts request body bytes.
    pub fn record_request_bytes(&mut self, method: HttpMethod, bytes: u64)
        ensures
            final(self).counters() == old(self).counters().with(Recording::RequestBytes(method, bytes)),
    {
        self.counts.request_bytes.bump(method, bytes);
    }

    /// Counts a response that reports success.
    pub fn record_success(&mut self, method: HttpMethod)
        ensures
            final(self).counters() == old(self).counters().with(Recording::Success(method)),
    {
        self.counts.successful_requests.bump(method, 1);
    }

    /// Counts a response that reports a missing object.
    pub fn record_not_found(&mut self, method: HttpMethod)
        ensures
            final(self).counters() == old(self).counters().with(Recording::NotFound(method)),
    {
        self.counts.not_found_responses.bump(method, 1);
    }

    /// Counts a response that blames the client.
    pub fn record_client_error(&mut self, method: HttpMethod)
        ensures
            final(self).counters() == old(self).counters().with(Recording::ClientError(method)),
    {
        self.record_error(method);
        self.counts.client_errors.bump(method, 1);
    }

    /// Counts a response that blames the server.
    pub fn record_server_error(&mut self, method: HttpMethod)
        ensures
            final(self).counters() == old(self).counters().with(Recording::ServerError(method)),
    {
        self.record_error(method);
        self.counts.server_errors.bump(method, 1);
    }

    /// Counts a response whose status is none of the others.
    pub fn record_other_error(&mut self, method: HttpMethod)
        ensures
            final(self).counters() == old(self).counters().with(Recording::OtherError(method)),
    {
        self.record_error(method);
    }

    /// Counts a request or a response body that failed on the way.
    pub fn record_transport_error(&mut self, method: HttpMethod)
        ensures
            final(self).counters() == old(self).counters().with(Recording::TransportError(method)),
    {
        self.record_error(method);
        self.counts.transport_errors.bump(method, 1);
    }

    /// Counts response body bytes.
    pub fn record_response_bytes(&mut self, method: HttpMethod, bytes: u64)
        ensures
            final(self).counters() == old(self).counters().with(Recording::ResponseBytes(method, bytes)),
    {
        self.counts.response_bytes.bump(method, bytes);
    }

    fn record_error(&mut self, method: HttpMethod)
        ensures
            final(self).counters() == (StoreSnapshot {
                request_errors: old(self).counters().request_errors.bumped(method, 1),
                ..old(self).counters()
            }),
    {
        self.counts.request_errors.bump(method, 1);
    }
}

impl Default for StoreMetrics {
    fn default() -> (r: Self)
        ensures
            r.counters() == StoreSnapshot::zero(),
    {
        StoreMetrics::new()
    }
}

/// Nothing grew between a moment and itself.
pub proof fn no_growth_without_time(s: StoreSnapshot)
    ensures
        s.since(s) == StoreSnapshot::zero(),
{
}

/// Counters that grew without wrapping are the start plus the growth since the start.
pub proof fn growth_restores_the_end(start: MethodCounts, end: MethodCounts, method: HttpMethod)
    requires
        forall|m: HttpMethod| #[trigger] start.of(m) <= end.of(m),
    ensures
        start.of(method) + end.since(start).of(method) == end.of(method),
{
    assert(start.of(method) <= end.of(method));
}

/// Growth over two adjoining intervals adds up, where no counter went back.
pub proof fn growth_adds_up(
    start: MethodCounts,
    middle: MethodCounts,
    end: MethodCounts,
    method: HttpMethod,
)
    requires
        forall|m: HttpMethod| #[trigger] start.of(m) <= middle.of(m),
        forall|m: HttpMethod| #[trigger] middle.of(m) <= end.of(m),
    ensures
        end.since(start).of(method) == middle.since(start).of(method) + end.since(middle).of(method),
{
    assert(start.of(method) <= middle.of(method));
    assert(middle.of(method) <= end.of(method));
}

/// A recording adds one to the counter that it is named for, under its own method, and a failure
/// also to the failed requests; nothing else changes.
pub proof fn recordings_count_what_they_name(s: StoreSnapshot, m: HttpMethod, bytes: u64)
    requires
        s.requests.of(m) < u64::MAX,
        s.successful_requests.of(m) < u64::MAX,
        s.not_found_responses.of(m) < u64::MAX,
        s.request_errors.of(m) < u64::MAX,
        s.client_errors.of(m) < u64::MAX,
        s.server_errors.of(m) < u64::MAX,
        s.transport_errors.of(m) < u64::MAX,
        s.request_bytes.of(m) + bytes <= u64::MAX,
        s.response_bytes.of(m) + bytes <= u64::MAX,
    ensures
        ({
            let t = s.with(Recording::Request(m));
            t == (StoreSnapshot { requests: t.requests, ..s }) && t.requests.of(m)
                == s.requests.of(m) + 1
        }),
        ({
            let t = s.with(Recording::RequestBytes(m, bytes));
            t == (StoreSnapshot { request_bytes: t.request_bytes, ..s }) && t.request_bytes.of(m)
                == s.request_bytes.of(m) + bytes
        }),
        ({
            let t = s.with(Recording::ResponseBytes(m, bytes));
            t == (StoreSnapshot { response_bytes: t.response_bytes, ..s }) && t.response_bytes.of(m)
                == s.response_bytes.of(m) + bytes
        }),
        ({
            let t = s.with(Recording::Success(m));
            t == (StoreSnapshot { successful_requests: t.successful_requests, ..s })
                && t.successful_requests.of(m) == s.successful_requests.of(m) + 1
        }),
        ({
            let t = s.with(Recording::NotFound(m));
            t == (StoreSnapshot { not_found_responses: t.not_found_responses, ..s })
                && t.not_found_responses.of(m) == s.not_found_responses.of(m) + 1
        }),
        ({
            let t = s.with(Recording::ClientError(m));
            &&& t == (StoreSnapshot {
                request_errors: t.request_errors,
                client_errors: t.client_errors,
                ..s
            })
            &&& t.request_errors.of(m) == s.request_errors.of(m) + 1
            &&& t.client_errors.of(m) == s.client_errors.of(m) + 1
        }),
        ({
            let t = s.with(Recording::ServerError(m));
            &&& t == (StoreSnapshot {
                request_errors: t.request_errors,
                server_errors: t.server_errors,
                ..s
            })
            &&& t.request_errors.of(m) == s.request_errors.of(m) + 1
            &&& t.server_errors.of(m) == s.server_errors.of(m) + 1
        }),
        ({
            let t = s.with(Recording::TransportError(m));
            &&& t == (StoreSnapshot {
                request_errors: t.request_errors,
                transport_errors: t.transport_errors,
                ..s
            })
            &&& t.request_errors.of(m) == s.request_errors.of(m) + 1
            &&& t.transport_errors.of(m) == s.transport_errors.of(m) + 1
        }),
        ({
            let t = s.with(Recording::OtherError(m));
            t == (StoreSnapshot { request_errors: t.request_errors, ..s }) && t.request_errors.of(m)
                == s.request_errors.of(m) + 1
        }),
{
}

/// A recording under one method leaves the counters of the others as they are.
pub proof fn recordings_stay_under_their_method(
    counts: MethodCounts,
    method: HttpMethod,
    amount: u64,
    other: HttpMethod,
)
    requires
        other.label() != method.label(),
    ensures
        counts.bumped(method, amount).of(other) == counts.of(other),
        counts.of(method) + amount <= u64::MAX ==> counts.bumped(method, amount).of(method)
            == counts.of(method) + amount,
{
    bump_changes_one_method(counts, method, amount, other);
    bump_changes_one_method(counts, method, amount, method);
}

/// Every counter of a window is the difference between its end and its start.
pub proof fn windows_hold_the_growth(start: StoreSnapshot, end: StoreSnapshot, m: HttpMethod)
    ensures
        ({
            let w = end.since(start);
            &&& end.requests.of(m) >= start.requests.of(m) ==> w.requests.of(m)
                + start.requests.of(m) == end.requests.of(m)
            &&& end.successful_requests.of(m) >= start.successful_requests.of(m)
                ==> w.successful_requests.of(m) + start.successful_requests.of(m)
                == end.successful_requests.of(m)
            &&& end.not_found_responses.of(m) >= start.not_found_responses.of(m)
                ==> w.not_found_responses.of(m) + start.not_found_responses.of(m)
                == end.not_found_responses.of(m)
            &&& end.request_errors.of(m) >= start.request_errors.of(m) ==> w.request_errors.of(m)
                + start.request_errors.of(m) == end.request_errors.of(m)
            &&& end.client_errors.of(m) >= start.client_errors.of(m) ==> w.client_errors.of(m)
                + start.client_errors.of(m) == end.client_errors.of(m)
            &&& end.server_errors.of(m) >= start.server_errors.of(m) ==> w.server_errors.of(m)
                + start.server_errors.of(m) == end.server_errors.of(m)
            &&& end.transport_errors.of(m) >= start.transport_errors.of(m)
                ==> w.transport_errors.of(m) + start.transport_errors.of(m)
                == end.transport_errors.of(m)
            &&& end.request_bytes.of(m) >= start.request_bytes.of(m) ==> w.request_bytes.of(m)
                + start.request_bytes.of(m) == end.request_bytes.of(m)
            &&& end.response_bytes.of(m) >= start.response_bytes.of(m) ==> w.response_bytes.of(m)
                + start.response_bytes.of(m) == end.response_bytes.of(m)
        }),
{
}

/// The body bytes of a method are those sent and those received.
pub proof fn bodies_count_both_directions(s: StoreSnapshot, m: HttpMethod)
    requires
        s.request_bytes.of(m) + s.response_bytes.of(m) <= u64::MAX,
    ensures
        s.body(m) == s.request_bytes.of(m) + s.response_bytes.of(m),
{
}

/// A method is reported under the token of its requests, a listing under that of a get, and an
/// unknown token apart.
pub proof fn methods_are_reported_under_their_tokens(token: Seq<char>)
    ensures
        HttpMethod::Get.label() == "GET"@,
        HttpMethod::List.label() == "GET"@,
        HttpMethod::Put.label() == "PUT"@,
        HttpMethod::Head.label() == "HEAD"@,
        HttpMethod::Delete.label() == "DELETE"@,
        HttpMethod::Post.label() == "POST"@,
        HttpMethod::Other.label() == "OTHER"@,
        token == "GET"@ || token == "PUT"@ || token == "HEAD"@ || token == "DELETE"@ || token
            == "POST"@ ==> HttpMethod::of_token(token).label() == token,
        token != "GET"@ && token != "PUT"@ && token != "HEAD"@ && token != "DELETE"@ && token
            != "POST"@ ==> HttpMethod::of_token(token) == HttpMethod::Other,
{
}

/// The sum of a table is that of all its rows.
pub proof fn sums_cover_every_method(counts: MethodCounts)
    ensures
        counts.sum() == counts.of(HttpMethod::Get) + counts.of(HttpMethod::Put) + counts.of(
            HttpMethod::Head,
        ) + counts.of(HttpMethod::Delete) + counts.of(HttpMethod::Post) + counts.of(
            HttpMethod::Other,
        ),
        counts.of(HttpMethod::List) == counts.of(HttpMethod::Get),
{
}

} // verus!
