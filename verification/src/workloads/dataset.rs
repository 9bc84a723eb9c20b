//! Bulk load of the dataset: producers build batches in parallel, and one writer writes them in
//! order.

use crate::count;
use crate::count::{min_of, minus, plus, times};
use crate::instrumented_store::{HttpMethod, StoreSnapshot};
use crate::workloads::util;
use crate::workloads::util::{key_for_id, ValueGenerator};
use rand::rngs::StdRng;
use vstd::prelude::*;

verus! {

pub const DATASET_BATCH_RECORDS: u64 = 1_024;

pub const DATASET_BATCH_QUEUE_DEPTH: usize = 16;

/// The number of producers for a machine, between two and eight.
pub fn producer_count(parallelism: Option<usize>) -> (r: usize)
    ensures
        2 <= r <= 8,
        parallelism is None ==> r == 2,
        parallelism matches Some(n) ==> r == (if n < 2 {
            2
        } else if n > 8 {
            8
        } else {
            n
        }),
{
    match parallelism {
        Some(n) => if n < 2 {
            2
        } else if n > 8 {
            8
        } else {
            n
        },
        None => 2,
    }
}

/// The batches that each producer may have waiting.
pub fn queue_per_producer(producers: usize) -> (r: usize)
    requires
        producers > 0,
    ensures
        r == (if DATASET_BATCH_QUEUE_DEPTH / producers > 1 {
            DATASET_BATCH_QUEUE_DEPTH / producers
        } else {
            1
        }),
{
    let share: usize = DATASET_BATCH_QUEUE_DEPTH / producers;
    if share > 1 {
        share
    } else {
        1
    }
}

/// A range of records, without its end.
#[derive(Debug, Clone, Copy, PartialEq, Eq, Structural)]
pub struct BatchRange {
    pub start: u64,
    pub end: u64,
}

/// The batch of records that starts at a record.
pub open spec fn batch_at(start: u64, record_count: u64) -> BatchRange {
    BatchRange {
        start,
        end: count::smaller(count::capped_sum(start, DATASET_BATCH_RECORDS), record_count),
    }
}

/// One producer's way through the dataset: every batch whose turn it is.
#[derive(Debug, Clone, Copy)]
pub struct BatchProducer {
    next: u64,
    stride: u64,
    record_count: u64,
}

impl BatchProducer {
    /// Where the next batch starts.
    pub closed spec fn next_start(self) -> u64 {
        self.next
    }

    /// The records from one batch of the producer to its next.
    pub closed spec fn stride(self) -> u64 {
        self.stride
    }

    /// The records of the dataset.
    pub closed spec fn record_count(self) -> u64 {
        self.record_count
    }

    /// A producer among others.
    pub fn new(producer: usize, producers: usize, record_count: u64) -> (r: Self)
        ensures
            r.next_start() == count::capped_product(DATASET_BATCH_RECORDS, producer as u64),
            r.stride() == count::capped_product(DATASET_BATCH_RECORDS, producers as u64),
            r.record_count() == record_count,
    {
        BatchProducer {
            next: times(DATASET_BATCH_RECORDS, producer as u64),
            stride: times(DATASET_BATCH_RECORDS, producers as u64),
            record_count,
        }
    }

    /// The next batch, until the dataset ends.
    pub fn next_batch(&mut self) -> (r: Option<BatchRange>)
        ensures
            final(self).stride() == old(self).stride(),
            final(self).record_count() == old(self).record_count(),
            old(self).next_start() < old(self).record_count() ==> r == Some(
                batch_at(old(self).next_start(), old(self).record_count()),
            ) && final(self).next_start() == count::capped_sum(
                old(self).next_start(),
                old(self).stride(),
            ),
            old(self).next_start() >= old(self).record_count() ==> r is None
                && final(self).next_start() == old(self).next_start(),
    {
        if self.next >= self.record_count {
            return None;
        }
        let start: u64 = self.next;
        let end: u64 = min_of(plus(start, DATASET_BATCH_RECORDS), self.record_count);
        self.next = plus(start, self.stride);
        Some(BatchRange { start, end })
    }
}

/// Where the batches of a producer start.
pub open spec fn produced_start(producer: nat, producers: nat, k: nat) -> nat {
    DATASET_BATCH_RECORDS as nat * (producer + k * producers)
}

/// Whether values are those that a generator gives one after the other.
pub open spec fn values_follow(
    before: util::GeneratorView,
    size: nat,
    after: util::GeneratorView,
    batch: Seq<(Vec<u8>, Vec<u8>)>,
) -> bool {
    if size == 0 || batch.len() == 0 {
        after == before
    } else {
        let corpus = after.corpus->0;
        &&& util::keeps_corpus(before, size, after)
        &&& after.next_at == util::cut_end(
            corpus.len(),
            before.next_at,
            size,
            (batch.len() - 1) as nat,
        )
        &&& forall|i: int|
            0 <= i < batch.len() ==> (#[trigger] batch[i]).1@ == corpus.subrange(
                util::cut_end(corpus.len(), before.next_at, size, i as nat) - size,
                util::cut_end(corpus.len(), before.next_at, size, i as nat),
            )
    }
}

/// Builds the records of a batch.
pub fn build_batch(
    range: BatchRange,
    key_bytes: usize,
    value_bytes: usize,
    values: &mut ValueGenerator,
    rng: &mut StdRng,
) -> (r: Vec<(Vec<u8>, Vec<u8>)>)
    requires
        range.start <= range.end,
        range.end - range.start <= DATASET_BATCH_RECORDS,
        old(values).wf(),
        old(values).corpus() matches Some(bytes) ==> value_bytes <= bytes.len(),
    ensures
        final(values).wf(),
        final(values).corpus() matches Some(bytes) ==> value_bytes <= bytes.len(),
        r.len() == range.end - range.start,
        forall|i: int|
            0 <= i < r.len() ==> (#[trigger] r@[i]).0@ == util::record_key(
                (range.start + i) as u64,
                key_bytes as nat,
            ) && r@[i].1.len() == value_bytes,
        values_follow(old(values)@, value_bytes as nat, final(values)@, r@),
{
    let mut batch: Vec<(Vec<u8>, Vec<u8>)> = Vec::new();
    let mut id: u64 = range.start;
    while id < range.end
        invariant
            range.start <= id <= range.end,
            values.wf(),
            values.corpus() matches Some(bytes) ==> value_bytes <= bytes.len(),
            batch.len() == id - range.start,
            forall|i: int|
                0 <= i < batch.len() ==> (#[trigger] batch@[i]).0@ == util::record_key(
                    (range.start + i) as u64,
                    key_bytes as nat,
                ) && batch@[i].1.len() == value_bytes,
            values_follow(old(values)@, value_bytes as nat, values@, batch@),
        decreases range.end - id,
    {
        let ghost done = batch@;
        let value = values.generate(value_bytes, rng);
        batch.push((key_for_id(id, key_bytes), value));
        proof {
            assert forall|i: int| 0 <= i < done.len() implies #[trigger] batch@[i] == done[i] by {}
        }
        id += 1;
    }
    batch
}

/// Why a load stops.
#[derive(Debug, Clone, Copy, PartialEq, Eq, Structural)]
pub enum LoadError {
    /// The batch has no index on this platform.
    PlatformLimit,
    /// A producer returned another batch than the one whose turn it is.
    OutOfOrder,
}

/// How much of the dataset is written.
#[derive(Debug, Clone, Copy, PartialEq, Eq, Structural)]
pub struct DatasetLoad {
    pub loaded: u64,
    pub record_count: u64,
    pub producers: usize,
    pub backpressure_ns: u64,
}

impl DatasetLoad {
    /// A load that has written nothing.
    pub fn new(record_count: u64, producers: usize) -> (r: Self)
        ensures
            r == (DatasetLoad { loaded: 0, record_count, producers, backpressure_ns: 0 }),
    {
        DatasetLoad { loaded: 0, record_count, producers, backpressure_ns: 0 }
    }

    /// The producer whose batch is next, until the dataset is written.
    pub fn next_producer(&self) -> (r: Result<Option<usize>, LoadError>)
        requires
            self.producers > 0,
        ensures
            self.loaded >= self.record_count ==> r == Ok::<Option<usize>, LoadError>(None),
            self.loaded < self.record_count ==> (if self.loaded / DATASET_BATCH_RECORDS
                > usize::MAX {
                r == Err::<Option<usize>, LoadError>(LoadError::PlatformLimit)
            } else {
                r == Ok::<Option<usize>, LoadError>(
                    Some(((self.loaded / DATASET_BATCH_RECORDS) as usize) % self.producers),
                )
            }),
    {
        if self.loaded >= self.record_count {
            return Ok(None);
        }
        let index: u64 = self.loaded / DATASET_BATCH_RECORDS;
        if index > usize::MAX as u64 {
            return Err(LoadError::PlatformLimit);
        }
        Ok(Some((index as usize) % self.producers))
    }

    /// Admits the batch whose turn it is.
    pub fn take_turn(&self, batch: &BatchRange) -> (r: Result<(), LoadError>)
        ensures
            batch.start == self.loaded ==> r == Ok::<(), LoadError>(()),
            batch.start != self.loaded ==> r == Err::<(), LoadError>(LoadError::OutOfOrder),
    {
        if batch.start == self.loaded {
            Ok(())
        } else {
            Err(LoadError::OutOfOrder)
        }
    }

    /// A batch was written, after some time under backpressure.
    pub fn written(&mut self, batch: &BatchRange, backpressure_ns: u64)
        ensures
            *final(self) == (DatasetLoad {
                loaded: batch.end,
                backpressure_ns: count::capped_sum(old(self).backpressure_ns, backpressure_ns),
                ..*old(self)
            }),
    {
        self.backpressure_ns = plus(self.backpressure_ns, backpressure_ns);
        self.loaded = batch.end;
    }
}

/// Uploaded bytes.
pub fn put_bytes(snapshot: &StoreSnapshot) -> (r: u64)
    ensures
        r == snapshot.request_bytes.of(HttpMethod::Put),
{
    snapshot.request_bytes.count(HttpMethod::Put)
}

/// Counters at a point of a load.
#[derive(Debug, Clone, Copy, PartialEq, Eq, Structural)]
pub struct LoadCounters {
    pub now: u64,
    pub records: u64,
    pub upload_bytes: u64,
    pub l0_bytes: u64,
    pub backpressure_ns: u64,
}

/// What is reported of a load since the last report.
#[derive(Debug, Clone, Copy, PartialEq, Eq, Structural)]
pub struct LoadReport {
    pub interval_ns: u64,
    pub elapsed_ns: u64,
    pub recent_records: u64,
    pub remaining_records: u64,
    pub recent_upload_bytes: u64,
    pub recent_l0_bytes: u64,
    pub recent_backpressure_ns: u64,
}

/// The reports of a load.
#[derive(Debug, Clone, Copy)]
pub struct LoadProgress {
    pub started: u64,
    pub total: u64,
    pub last: LoadCounters,
}

impl LoadProgress {
    /// Reports the growth of each counter, and starts the next interval.
    pub fn report(&mut self, current: LoadCounters) -> (r: LoadReport)
        ensures
            *final(self) == (LoadProgress { last: current, ..*old(self) }),
            r == (LoadReport {
                interval_ns: count::floored_difference(current.now, old(self).last.now),
                elapsed_ns: count::floored_difference(current.now, old(self).started),
                recent_records: count::floored_difference(current.records, old(self).last.records),
                remaining_records: count::floored_difference(old(self).total, current.records),
                recent_upload_bytes: count::floored_difference(
                    current.upload_bytes,
                    old(self).last.upload_bytes,
                ),
                recent_l0_bytes: count::floored_difference(
                    current.l0_bytes,
                    old(self).last.l0_bytes,
                ),
                recent_backpressure_ns: count::floored_difference(
                    current.backpressure_ns,
                    old(self).last.backpressure_ns,
                ),
            }),
    {
        let report = LoadReport {
            interval_ns: minus(current.now, self.last.now),
            elapsed_ns: minus(current.now, self.started),
            recent_records: minus(current.records, self.last.records),
            remaining_records: minus(self.total, current.records),
            recent_upload_bytes: minus(current.upload_bytes, self.last.upload_bytes),
            recent_l0_bytes: minus(current.l0_bytes, self.last.l0_bytes),
            recent_backpressure_ns: minus(current.backpressure_ns, self.last.backpressure_ns),
        };
        self.last = current;
        report
    }
}

/// The batch that is written in a turn is the one that the producer of the turn builds next, and it
/// starts where the batch before it ends. So every record is written once, and in order.
pub proof fn turns_cover_the_dataset(record_count: u64, producers: nat, turn: nat)
    requires
        producers > 0,
        turn * DATASET_BATCH_RECORDS < record_count,
    ensures
        produced_start(turn % producers, producers, turn / producers) == turn
            * DATASET_BATCH_RECORDS,
        (turn * DATASET_BATCH_RECORDS) as u64 / DATASET_BATCH_RECORDS == turn,
        ({
            let batch = batch_at((turn * DATASET_BATCH_RECORDS) as u64, record_count);
            &&& batch.start < batch.end <= record_count
            &&& batch.end < record_count ==> batch.end == (turn + 1) * DATASET_BATCH_RECORDS
            &&& batch.end - batch.start <= DATASET_BATCH_RECORDS
        }),
{
    vstd::arithmetic::div_mod::lemma_fundamental_div_mod(turn as int, producers as int);
    vstd::arithmetic::mul::lemma_mul_is_commutative(
        (turn / producers) as int,
        producers as int,
    );
}

/// A producer's batches start one stride apart, from its own first batch on.
pub proof fn producers_keep_their_stride(
    producer: nat,
    producers: nat,
    k: nat,
    record_count: u64,
)
    requires
        producers > 0,
        produced_start(producer, producers, k) < record_count,
        DATASET_BATCH_RECORDS * producers <= u64::MAX,
    ensures
        ({
            let next = count::capped_sum(
                produced_start(producer, producers, k) as u64,
                (DATASET_BATCH_RECORDS * producers) as u64,
            );
            if produced_start(producer, producers, k + 1) < record_count {
                next == produced_start(producer, producers, k + 1)
            } else {
                next >= record_count
            }
        }),
{
    assert((k + 1) * producers == k * producers + producers) by (nonlinear_arith);
    let start = producer + k * producers;
    assert(produced_start(producer, producers, k + 1) == DATASET_BATCH_RECORDS * (start
        + producers));
}

/// Every record is in the batch of its thousand and twenty-four, and no batch goes beyond the
/// dataset.
pub proof fn batches_hold_every_record(record: u64, record_count: u64)
    requires
        record < record_count,
        record_count <= u64::MAX - 1_024,
    ensures
        ({
            let batch = batch_at((record / 1_024 * 1_024) as u64, record_count);
            &&& batch.start <= record < batch.end <= record_count
            &&& batch.end == batch.start + 1_024 || batch.end == record_count
            &&& batch.end - batch.start <= 1_024
        }),
{
}

/// The producers share the batches: each takes every batch whose number leaves its own position
/// when divided by their number, in rising order.
pub proof fn producers_share_the_batches(producer: nat, producers: nat, k: nat)
    requires
        producer < producers,
    ensures
        produced_start(producer, producers, k) == 1_024 * (producer + k * producers),
        produced_start(producer, producers, k + 1) == produced_start(producer, producers, k) + 1_024
            * producers,
{
    assert(1_024 * (producer + (k + 1) * producers) == 1_024 * (producer + k * producers) + 1_024
        * producers) by (nonlinear_arith);
}

/// The values of a batch are pieces of one corpus that follow each other, starting over where one
/// would not fit.
pub proof fn batch_values_follow_each_other(
    before: util::GeneratorView,
    size: nat,
    after: util::GeneratorView,
    batch: Seq<(Vec<u8>, Vec<u8>)>,
    i: int,
) -> (r: (int, int))
    requires
        values_follow(before, size, after, batch),
        size > 0,
        0 <= i < batch.len() - 1,
    ensures
        ({
            let corpus = after.corpus->0;
            &&& after.corpus is Some
            &&& before.corpus is Some ==> after.corpus == before.corpus
            &&& batch[i].1@ == corpus.subrange(r.0 - size, r.0)
            &&& batch[i + 1].1@ == corpus.subrange(r.1 - size, r.1)
            &&& r.0 + size <= corpus.len() ==> r.1 == r.0 + size
            &&& r.0 + size > corpus.len() ==> r.1 == size
        }),
{
    let len = after.corpus->0.len();
    assert(batch[i].1@.len() >= 0 && batch[i + 1].1@.len() >= 0);
    (
        util::cut_end(len, before.next_at, size, i as nat),
        util::cut_end(len, before.next_at, size, (i + 1) as nat),
    )
}

} // verus!
