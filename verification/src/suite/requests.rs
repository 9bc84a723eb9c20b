//! What a store was asked for, and the objects that it holds.

use crate::count;
use crate::count::{minus, plus};
use crate::named::Named;
use crate::text;
use crate::text::{same_text, starts_with};
use vstd::prelude::*;

verus! {

/// How often each operation of a store was called, and what was moved.
#[derive(Debug, Clone, Copy, PartialEq, Eq, Structural)]
pub struct Requests {
    pub put: u64,
    pub get: u64,
    pub head: u64,
    pub list: u64,
    pub delete: u64,
    pub copy: u64,
    pub create_multipart: u64,
    pub complete_multipart: u64,
    pub abort_multipart: u64,
    pub errors: u64,
    pub bytes_read: u64,
    pub bytes_written: u64,
}

impl Requests {
    /// No calls.
    pub open spec fn zero() -> Self {
        Requests {
            put: 0,
            get: 0,
            head: 0,
            list: 0,
            delete: 0,
            copy: 0,
            create_multipart: 0,
            complete_multipart: 0,
            abort_multipart: 0,
            errors: 0,
            bytes_read: 0,
            bytes_written: 0,
        }
    }

    /// The counters with an error, unless a call succeeded.
    pub open spec fn judged(self, ok: bool) -> Self {
        if ok {
            self
        } else {
            Requests { errors: count::capped_sum(self.errors, 1), ..self }
        }
    }
}

/// The calls of each operation, by its name.
pub open spec fn by_name(r: Requests) -> Map<Seq<char>, u64> {
    Map::empty().insert("put"@, r.put).insert("get"@, r.get).insert("head"@, r.head).insert(
        "list"@,
        r.list,
    ).insert("delete"@, r.delete).insert("copy"@, r.copy).insert(
        "create_multipart"@,
        r.create_multipart,
    ).insert("complete_multipart"@, r.complete_multipart).insert(
        "abort_multipart"@,
        r.abort_multipart,
    )
}

/// The counters of a store at one time.
pub struct StoreSnapshot {
    pub requests: Named<u64>,
    pub errors: u64,
    pub bytes_read: u64,
    pub bytes_written: u64,
}

/// The calls under a name, zero where there is none.
pub open spec fn calls(m: Map<Seq<char>, u64>, name: Seq<char>) -> u64 {
    if m.dom().contains(name) {
        m[name]
    } else {
        0
    }
}

/// The calls that were made since a time, name by name.
pub open spec fn grown(end: Map<Seq<char>, u64>, start: Map<Seq<char>, u64>) -> Map<
    Seq<char>,
    u64,
> {
    Map::new(
        |n: Seq<char>| end.dom().contains(n),
        |n: Seq<char>| count::floored_difference(end[n], calls(start, n)),
    )
}

impl StoreSnapshot {
    /// Returns what was added since an earlier snapshot.
    pub fn difference(&self, start: &Self) -> (r: Self)
        requires
            self.requests.wf(),
            start.requests.wf(),
        ensures
            r.requests.wf(),
            r.requests.map() == grown(self.requests.map(), start.requests.map()),
            r.errors == count::floored_difference(self.errors, start.errors),
            r.bytes_read == count::floored_difference(self.bytes_read, start.bytes_read),
            r.bytes_written == count::floored_difference(self.bytes_written, start.bytes_written),
    {
        let mut requests: Named<u64> = Named::new();
        let ghost names = self.requests.names();
        let ghost whole = grown(self.requests.map(), start.requests.map());
        let mut i: usize = 0;
        while i < self.requests.len()
            invariant
                self.requests.wf(),
                start.requests.wf(),
                requests.wf(),
                names == self.requests.names(),
                whole == grown(self.requests.map(), start.requests.map()),
                i <= names.len(),
                forall|n: Seq<char>|
                    requests.map().dom().contains(n) <==> (exists|k: int|
                        0 <= k < i && #[trigger] names[k] == n),
                forall|n: Seq<char>| #[trigger]
                    requests.map().dom().contains(n) ==> requests.map()[n] == whole[n],
            decreases names.len() - i,
        {
            proof {
                self.requests.entry(i as int);
            }
            let name = self.requests.name_at(i);
            let value: u64 = *self.requests.value_at(i);
            let before: u64 = match start.requests.get(name.as_str()) {
                Some(n) => *n,
                None => 0,
            };
            let ghost earlier = requests.map();
            requests.put(name.clone(), minus(value, before));
            proof {
                assert forall|n: Seq<char>|
                    requests.map().dom().contains(n) <==> (exists|k: int|
                        0 <= k < i + 1 && #[trigger] names[k] == n) by {
                    if n != names[i as int] && earlier.dom().contains(n) {
                        let k = choose|k: int| 0 <= k < i && #[trigger] names[k] == n;
                        assert(0 <= k < i + 1 && names[k] == n);
                    }
                }
            }
            i += 1;
        }
        proof {
            assert forall|n: Seq<char>|
                requests.map().dom().contains(n) <==> whole.dom().contains(n) by {
                if whole.dom().contains(n) {
                    let k = choose|k: int| 0 <= k < names.len() && names[k] == n;
                    assert(0 <= k < i && names[k] == n);
                }
                if requests.map().dom().contains(n) {
                    let k = choose|k: int| 0 <= k < i && #[trigger] names[k] == n;
                    self.requests.entry(k);
                }
            }
            assert(requests.map() =~= whole);
        }
        StoreSnapshot {
            requests,
            errors: minus(self.errors, start.errors),
            bytes_read: minus(self.bytes_read, start.bytes_read),
            bytes_written: minus(self.bytes_written, start.bytes_written),
        }
    }
}

/// Counts the calls of a store, and knows the size of its objects.
pub struct StoreMetrics {
    pub requests: Requests,
    pub objects: Named<u64>,
}

/// Whether an object is a prefix itself or lies below it.
pub open spec fn belongs_to(location: Seq<char>, prefix: Seq<char>) -> bool {
    location == prefix || text::has_prefix(location, prefix + "/"@)
}

/// The bytes of the first objects that belong to a prefix.
pub open spec fn bytes_under(
    names: Seq<Seq<char>>,
    sizes: Seq<u64>,
    prefix: Seq<char>,
    n: int,
) -> int
    decreases n,
{
    if n <= 0 {
        0
    } else {
        bytes_under(names, sizes, prefix, n - 1) + (if belongs_to(names[n - 1], prefix) {
            sizes[n - 1] as int
        } else {
            0
        })
    }
}

impl StoreMetrics {
    /// The objects are in order.
    pub open spec fn wf(&self) -> bool {
        self.objects.wf()
    }

    /// Nothing called, and no objects.
    pub fn new() -> (r: Self)
        ensures
            r.wf(),
            r.requests == Requests::zero(),
            r.objects.map() == Map::<Seq<char>, u64>::empty(),
    {
        StoreMetrics {
            requests: Requests {
                put: 0,
                get: 0,
                head: 0,
                list: 0,
                delete: 0,
                copy: 0,
                create_multipart: 0,
                complete_multipart: 0,
                abort_multipart: 0,
                errors: 0,
                bytes_read: 0,
                bytes_written: 0,
            },
            objects: Named::new(),
        }
    }

    /// Returns the counters.
    pub fn snapshot(&self) -> (r: StoreSnapshot)
        ensures
            r.requests.wf(),
            r.requests.map() == by_name(self.requests),
            r.errors == self.requests.errors,
            r.bytes_read == self.requests.bytes_read,
            r.bytes_written == self.requests.bytes_written,
    {
        let mut requests: Named<u64> = Named::new();
        requests.put("put".to_string(), self.requests.put);
        requests.put("get".to_string(), self.requests.get);
        requests.put("head".to_string(), self.requests.head);
        requests.put("list".to_string(), self.requests.list);
        requests.put("delete".to_string(), self.requests.delete);
        requests.put("copy".to_string(), self.requests.copy);
        requests.put("create_multipart".to_string(), self.requests.create_multipart);
        requests.put("complete_multipart".to_string(), self.requests.complete_multipart);
        requests.put("abort_multipart".to_string(), self.requests.abort_multipart);
        StoreSnapshot {
            requests,
            errors: self.requests.errors,
            bytes_read: self.requests.bytes_read,
            bytes_written: self.requests.bytes_written,
        }
    }

    /// Returns the bytes of the objects under a prefix, as far as a counter goes.
    pub fn prefix_bytes(&self, prefix: &str) -> (r: u64)
        requires
            self.wf(),
        ensures
            ({
                let n = bytes_under(
                    self.objects.names(),
                    self.objects.values(),
                    prefix@,
                    self.objects.names().len() as int,
                );
                r == (if n > u64::MAX {
                    u64::MAX as int
                } else {
                    n
                })
            }),
    {
        let below = prefix.to_string().concat("/");
        let mut total: u64 = 0;
        let mut i: usize = 0;
        let ghost names = self.objects.names();
        let ghost sizes = self.objects.values();
        while i < self.objects.len()
            invariant
                self.objects.wf(),
                names == self.objects.names(),
                sizes == self.objects.values(),
                below@ == prefix@ + "/"@,
                i <= names.len(),
                bytes_under(names, sizes, prefix@, i as int) >= 0,
                total == (if bytes_under(names, sizes, prefix@, i as int) > u64::MAX {
                    u64::MAX as int
                } else {
                    bytes_under(names, sizes, prefix@, i as int)
                }),
            decreases names.len() - i,
        {
            let location = self.objects.name_at(i).as_str();
            if same_text(location, prefix) || starts_with(location, below.as_str()) {
                total = plus(total, *self.objects.value_at(i));
            }
            i += 1;
        }
        total
    }

    /// Takes note of an object that was there before, without counting a call.
    pub fn seed(&mut self, location: &str, size: u64)
        requires
            old(self).wf(),
        ensures
            final(self).wf(),
            final(self).requests == old(self).requests,
            final(self).objects.map() == old(self).objects.map().insert(location@, size),
    {
        self.objects.put(location.to_string(), size);
    }

    /// An object was put, or not.
    pub fn put_finished(&mut self, location: &str, size: u64, ok: bool)
        requires
            old(self).wf(),
        ensures
            final(self).wf(),
            final(self).requests == (Requests {
                put: count::capped_sum(old(self).requests.put, 1),
                bytes_written: if ok {
                    count::capped_sum(old(self).requests.bytes_written, size)
                } else {
                    old(self).requests.bytes_written
                },
                ..old(self).requests
            }).judged(ok),
            final(self).objects.map() == (if ok {
                old(self).objects.map().insert(location@, size)
            } else {
                old(self).objects.map()
            }),
    {
        self.requests.put = plus(self.requests.put, 1);
        if ok {
            self.requests.bytes_written = plus(self.requests.bytes_written, size);
            self.objects.put(location.to_string(), size);
        } else {
            self.requests.errors = plus(self.requests.errors, 1);
        }
    }

    /// An object was read, or only asked for; what was read is counted where it is known.
    pub fn get_finished(&mut self, head: bool, read: Option<u64>)
        ensures
            final(self).objects == old(self).objects,
            final(self).requests == (if head {
                Requests {
                    head: count::capped_sum(old(self).requests.head, 1),
                    ..old(self).requests
                }
            } else {
                Requests {
                    get: count::capped_sum(old(self).requests.get, 1),
                    bytes_read: match read {
                        Some(bytes) => count::capped_sum(old(self).requests.bytes_read, bytes),
                        None => old(self).requests.bytes_read,
                    },
                    ..old(self).requests
                }
            }).judged(read is Some),
    {
        if head {
            self.requests.head = plus(self.requests.head, 1);
        } else {
            self.requests.get = plus(self.requests.get, 1);
        }
        match read {
            Some(bytes) => {
                if !head {
                    self.requests.bytes_read = plus(self.requests.bytes_read, bytes);
                }
            },
            None => {
                self.requests.errors = plus(self.requests.errors, 1);
            },
        }
    }

    /// Several ranges of an object were read, or none.
    pub fn ranges_finished(&mut self, ranges: u64, read: Option<u64>)
        ensures
            final(self).objects == old(self).objects,
            final(self).requests == (Requests {
                get: count::capped_sum(old(self).requests.get, ranges),
                bytes_read: match read {
                    Some(bytes) => count::capped_sum(old(self).requests.bytes_read, bytes),
                    None => old(self).requests.bytes_read,
                },
                ..old(self).requests
            }).judged(read is Some),
    {
        self.requests.get = plus(self.requests.get, ranges);
        match read {
            Some(bytes) => {
                self.requests.bytes_read = plus(self.requests.bytes_read, bytes);
            },
            None => {
                self.requests.errors = plus(self.requests.errors, 1);
            },
        }
    }

    /// An object was deleted, or not.
    pub fn delete_finished(&mut self, location: Option<&str>)
        requires
            old(self).wf(),
        ensures
            final(self).wf(),
            final(self).requests == (Requests {
                delete: count::capped_sum(old(self).requests.delete, 1),
                ..old(self).requests
            }).judged(location is Some),
            final(self).objects.map() == (match location {
                Some(name) => old(self).objects.map().remove(name@),
                None => old(self).objects.map(),
            }),
    {
        self.requests.delete = plus(self.requests.delete, 1);
        match location {
            Some(name) => {
                let _ = self.objects.remove(name);
            },
            None => {
                self.requests.errors = plus(self.requests.errors, 1);
            },
        }
    }

    /// Objects were listed.
    pub fn list_started(&mut self)
        ensures
            final(self).objects == old(self).objects,
            final(self).requests == (Requests {
                list: count::capped_sum(old(self).requests.list, 1),
                ..old(self).requests
            }),
    {
        self.requests.list = plus(self.requests.list, 1);
    }

    /// A call that was counted before succeeded, or not.
    pub fn result(&mut self, ok: bool)
        ensures
            final(self).objects == old(self).objects,
            final(self).requests == old(self).requests.judged(ok),
    {
        if !ok {
            self.requests.errors = plus(self.requests.errors, 1);
        }
    }

    /// An object was copied, or not.
    pub fn copy_finished(&mut self, from: &str, to: &str, ok: bool)
        requires
            old(self).wf(),
        ensures
            final(self).wf(),
            final(self).requests == (Requests {
                copy: count::capped_sum(old(self).requests.copy, 1),
                ..old(self).requests
            }).judged(ok),
            final(self).objects.map() == (if ok && old(self).objects.map().dom().contains(from@) {
                old(self).objects.map().insert(to@, old(self).objects.map()[from@])
            } else {
                old(self).objects.map()
            }),
    {
        self.requests.copy = plus(self.requests.copy, 1);
        if !ok {
            self.requests.errors = plus(self.requests.errors, 1);
            return;
        }
        let size: Option<u64> = match self.objects.get(from) {
            Some(size) => Some(*size),
            None => None,
        };
        if let Some(size) = size {
            self.objects.put(to.to_string(), size);
        }
    }

    /// An object was renamed, or not: that is a copy and a deletion.
    pub fn rename_finished(&mut self, from: &str, to: &str, ok: bool)
        requires
            old(self).wf(),
        ensures
            final(self).wf(),
            final(self).requests == (Requests {
                copy: count::capped_sum(old(self).requests.copy, 1),
                delete: count::capped_sum(old(self).requests.delete, 1),
                ..old(self).requests
            }).judged(ok),
            final(self).objects.map() == (if ok && old(self).objects.map().dom().contains(from@) {
                old(self).objects.map().remove(from@).insert(to@, old(self).objects.map()[from@])
            } else {
                old(self).objects.map()
            }),
    {
        let ghost before = self.objects.map();
        self.requests.copy = plus(self.requests.copy, 1);
        self.requests.delete = plus(self.requests.delete, 1);
        if !ok {
            self.requests.errors = plus(self.requests.errors, 1);
            return;
        }
        if let Some(size) = self.objects.remove(from) {
            self.objects.put(to.to_string(), size);
        } else {
            assert(before.remove(from@) =~= before);
        }
    }

    /// An upload in parts was started, or not.
    pub fn multipart_started(&mut self, ok: bool)
        ensures
            final(self).objects == old(self).objects,
            final(self).requests == (Requests {
                create_multipart: count::capped_sum(old(self).requests.create_multipart, 1),
                ..old(self).requests
            }).judged(ok),
    {
        self.requests.create_multipart = plus(self.requests.create_multipart, 1);
        self.result(ok);
    }

    /// An upload in parts was given up.
    pub fn multipart_aborted(&mut self, ok: bool)
        ensures
            final(self).objects == old(self).objects,
            final(self).requests == (Requests {
                abort_multipart: count::capped_sum(old(self).requests.abort_multipart, 1),
                ..old(self).requests
            }).judged(ok),
    {
        self.requests.abort_multipart = plus(self.requests.abort_multipart, 1);
        self.result(ok);
    }
}

/// An upload in parts.
pub struct Upload {
    pub location: String,
    pub object_bytes: u64,
}

impl Upload {
    /// An upload without parts.
    pub fn new(location: &str) -> (r: Self)
        ensures
            r.location@ == location@,
            r.object_bytes == 0,
    {
        Upload { location: location.to_string(), object_bytes: 0 }
    }

    /// A part is sent.
    pub fn put_part(&mut self, metrics: &mut StoreMetrics, size: u64)
        ensures
            final(self).location == old(self).location,
            final(self).object_bytes == count::capped_sum(old(self).object_bytes, size),
            final(metrics).objects == old(metrics).objects,
            final(metrics).requests == (Requests {
                put: count::capped_sum(old(metrics).requests.put, 1),
                bytes_written: count::capped_sum(old(metrics).requests.bytes_written, size),
                ..old(metrics).requests
            }),
    {
        metrics.requests.put = plus(metrics.requests.put, 1);
        metrics.requests.bytes_written = plus(metrics.requests.bytes_written, size);
        self.object_bytes = plus(self.object_bytes, size);
    }

    /// The upload is complete, or could not be completed.
    pub fn complete(&self, metrics: &mut StoreMetrics, ok: bool)
        requires
            old(metrics).wf(),
        ensures
            final(metrics).wf(),
            final(metrics).requests == (Requests {
                complete_multipart: count::capped_sum(old(metrics).requests.complete_multipart, 1),
                ..old(metrics).requests
            }).judged(ok),
            final(metrics).objects.map() == (if ok {
                old(metrics).objects.map().insert(self.location@, self.object_bytes)
            } else {
                old(metrics).objects.map()
            }),
    {
        metrics.requests.complete_multipart = plus(metrics.requests.complete_multipart, 1);
        if ok {
            metrics.objects.put(self.location.clone(), self.object_bytes);
        } else {
            metrics.requests.errors = plus(metrics.requests.errors, 1);
        }
    }
}

/// A store that counts its calls.
pub struct InstrumentedStore {
    metrics: StoreMetrics,
}

impl InstrumentedStore {
    /// What the store counted.
    pub closed spec fn counted(&self) -> StoreMetrics {
        self.metrics
    }

    /// A store that was not called yet.
    pub fn new() -> (r: Self)
        ensures
            r.counted().wf(),
            r.counted().requests == Requests::zero(),
            r.counted().objects.map() == Map::<Seq<char>, u64>::empty(),
    {
        InstrumentedStore { metrics: StoreMetrics::new() }
    }

    /// Gives access to what the store counted.
    pub fn metrics(&mut self) -> (r: &mut StoreMetrics)
        ensures
            *r == old(self).counted(),
            final(self).counted() == *final(r),
    {
        &mut self.metrics
    }
}

/// Asking for an object is not reading it: nothing is read, and no read is counted.
pub proof fn asking_reads_nothing(before: Requests, after: Requests, read: Option<u64>)
    requires
        after == (Requests { head: count::capped_sum(before.head, 1), ..before }).judged(
            read is Some,
        ),
    ensures
        after.get == before.get,
        after.bytes_read == before.bytes_read,
{
}

/// The class that a request is charged in.
#[derive(Debug, Clone, Copy, PartialEq, Eq, Structural)]
pub enum RequestClass {
    A,
    B,
    Free,
    Unpriced,
}

/// The requests of each class.
pub struct RequestClasses {
    pub class_a: Vec<String>,
    pub class_b: Vec<String>,
    pub free: Vec<String>,
}

/// The units of a price table.
#[derive(Debug, Clone, Copy, PartialEq, Eq, Structural)]
pub struct Units {
    pub gib_bytes: u64,
    pub month_days: u64,
}

/// The class of a request: the first that lists it.
pub open spec fn class_of(classes: RequestClasses, operation: Seq<char>) -> RequestClass {
    if text::texts(classes.class_a@).contains(operation) {
        RequestClass::A
    } else if text::texts(classes.class_b@).contains(operation) {
        RequestClass::B
    } else if text::texts(classes.free@).contains(operation) {
        RequestClass::Free
    } else {
        RequestClass::Unpriced
    }
}

fn lists(names: &Vec<String>, name: &str) -> (r: bool)
    ensures
        r == text::texts(names@).contains(name@),
{
    let mut i: usize = 0;
    while i < names.len()
        invariant
            i <= names.len(),
            forall|k: int| 0 <= k < i ==> text::texts(names@)[k] != name@,
        decreases names.len() - i,
    {
        if same_text(names[i].as_str(), name) {
            assert(text::texts(names@)[i as int] == name@);
            return true;
        }
        i += 1;
    }
    false
}

impl RequestClasses {
    /// Returns the class of a request.
    pub fn class(&self, operation: &str) -> (r: RequestClass)
        ensures
            r == class_of(*self, operation@),
    {
        if lists(&self.class_a, operation) {
            RequestClass::A
        } else if lists(&self.class_b, operation) {
            RequestClass::B
        } else if lists(&self.free, operation) {
            RequestClass::Free
        } else {
            RequestClass::Unpriced
        }
    }
}

/// The growth of every counter is the difference between its end and its start, counting from zero
/// where it is new.
pub proof fn growth_is_the_difference(
    end: Map<Seq<char>, u64>,
    start: Map<Seq<char>, u64>,
    name: Seq<char>,
)
    requires
        end.dom().contains(name),
    ensures
        grown(end, start).dom() == end.dom(),
        start.dom().contains(name) && start[name] <= end[name] ==> grown(end, start)[name]
            + start[name] == end[name],
        !start.dom().contains(name) ==> grown(end, start)[name] == end[name],
{
    assert(grown(end, start).dom() =~= end.dom());
}

/// An object belongs to a prefix where it is the prefix or lies below it.
pub proof fn objects_belong_below_their_prefix(location: Seq<char>, prefix: Seq<char>)
    ensures
        belongs_to(location, prefix) <==> location == prefix || text::has_prefix(
            location,
            prefix + "/"@,
        ),
{
}

/// The bytes under a prefix are those of every object that belongs to it.
pub proof fn bytes_are_those_below(
    names: Seq<Seq<char>>,
    sizes: Seq<u64>,
    prefix: Seq<char>,
    n: int,
)
    requires
        0 < n <= names.len(),
        names.len() == sizes.len(),
    ensures
        bytes_under(names, sizes, prefix, 0) == 0,
        names[n - 1] == prefix || text::has_prefix(names[n - 1], prefix + "/"@) ==> bytes_under(
            names,
            sizes,
            prefix,
            n,
        ) == bytes_under(names, sizes, prefix, n - 1) + sizes[n - 1],
        !(names[n - 1] == prefix || text::has_prefix(names[n - 1], prefix + "/"@)) ==> bytes_under(
            names,
            sizes,
            prefix,
            n,
        ) == bytes_under(names, sizes, prefix, n - 1),
{
}

/// A request that failed counts one error more, and no other counter changes.
pub proof fn failed_requests_count_as_errors(r: Requests)
    requires
        r.errors < u64::MAX,
    ensures
        r.judged(true) == r,
        r.judged(false) == (Requests { errors: (r.errors + 1) as u64, ..r }),
{
}

/// Requests are reported under their own names, and errors and bytes under none.
pub proof fn requests_are_reported_by_name(r: Requests)
    ensures
        by_name(r).dom().contains("put"@) && by_name(r)["put"@] == r.put,
        by_name(r).dom().contains("get"@) && by_name(r)["get"@] == r.get,
        by_name(r).dom().contains("head"@) && by_name(r)["head"@] == r.head,
        by_name(r).dom().contains("list"@) && by_name(r)["list"@] == r.list,
        by_name(r).dom().contains("delete"@) && by_name(r)["delete"@] == r.delete,
        by_name(r).dom().contains("copy"@) && by_name(r)["copy"@] == r.copy,
        by_name(r).dom().contains("create_multipart"@) && by_name(r)["create_multipart"@]
            == r.create_multipart,
        by_name(r).dom().contains("complete_multipart"@) && by_name(r)["complete_multipart"@]
            == r.complete_multipart,
        by_name(r).dom().contains("abort_multipart"@) && by_name(r)["abort_multipart"@]
            == r.abort_multipart,
{
    reveal_strlit("put");
    reveal_strlit("get");
    reveal_strlit("head");
    reveal_strlit("list");
    reveal_strlit("delete");
    reveal_strlit("copy");
    reveal_strlit("create_multipart");
    reveal_strlit("complete_multipart");
    reveal_strlit("abort_multipart");
    assert("put"@[0] == 'p' && "get"@[0] == 'g' && "head"@[0] == 'h' && "list"@[0] == 'l'
        && "delete"@[0] == 'd' && "copy"@[0] == 'c' && "create_multipart"@[0] == 'c'
        && "complete_multipart"@[0] == 'c' && "abort_multipart"@[0] == 'a');
    assert("copy"@.len() == 4 && "create_multipart"@.len() == 16 && "complete_multipart"@.len()
        == 18);
}

/// A request has the first class that lists it, and none where no class does.
pub proof fn classes_are_taken_in_order(classes: RequestClasses, operation: Seq<char>)
    ensures
        ({
            let a = text::texts(classes.class_a@).contains(operation);
            let b = text::texts(classes.class_b@).contains(operation);
            let free = text::texts(classes.free@).contains(operation);
            &&& class_of(classes, operation) is A <==> a
            &&& class_of(classes, operation) is B <==> !a && b
            &&& class_of(classes, operation) is Free <==> !a && !b && free
            &&& class_of(classes, operation) is Unpriced <==> !a && !b && !free
        }),
{
}

} // verus!
