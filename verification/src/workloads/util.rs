//! Keys, values and key selection.

use crate::count;
use crate::count::{max_of, minus};
use crate::workloads::chance::{below, random_bytes, zipf_rank, Asked, Drawn};
use rand::rngs::StdRng;
use vstd::prelude::*;

verus! {

pub const FNV_OFFSET_BASIS_64: u64 = 0xcbf2_9ce4_8422_2325;

pub const FNV_PRIME_64: u64 = 1_099_511_628_211;

pub const VALUE_CORPUS_BYTES: usize = 1_048_576;

/// ASCII zero, which pads keys.
pub const PADDING: u8 = 48;

/// ASCII one, which marks keys that no record has.
pub const ABSENT: u8 = 49;

/// The byte of a number at a position of its eight-byte big-endian form.
pub open spec fn big_endian_byte(id: u64, i: int) -> u8 {
    if i == 0 {
        (id / 0x100_0000_0000_0000 % 256) as u8
    } else if i == 1 {
        (id / 0x1_0000_0000_0000 % 256) as u8
    } else if i == 2 {
        (id / 0x100_0000_0000 % 256) as u8
    } else if i == 3 {
        (id / 0x1_0000_0000 % 256) as u8
    } else if i == 4 {
        (id / 0x100_0000 % 256) as u8
    } else if i == 5 {
        (id / 0x1_0000 % 256) as u8
    } else if i == 6 {
        (id / 0x100 % 256) as u8
    } else {
        (id % 256) as u8
    }
}

/// The key of a record: the number in big-endian form, padded with ASCII zeros.
///
/// Keys of fewer than eight bytes hold the low bytes of the number.
pub open spec fn record_key(id: u64, size: nat) -> Seq<u8> {
    Seq::new(
        size,
        |i: int|
            if i >= 8 {
                PADDING
            } else if size < 8 {
                big_endian_byte(id, 8 - size + i)
            } else {
                big_endian_byte(id, i)
            },
    )
}

/// The key of a record with an ASCII one in its last byte.
pub open spec fn absent_key(id: u64, size: nat) -> Seq<u8> {
    if size == 0 {
        Seq::empty()
    } else {
        record_key(id, size).update(size - 1, ABSENT)
    }
}

fn byte_of(id: u64, i: usize) -> (r: u8)
    ensures
        r == big_endian_byte(id, i as int),
{
    let byte: u64 = match i {
        0 => id / 0x100_0000_0000_0000 % 256,
        1 => id / 0x1_0000_0000_0000 % 256,
        2 => id / 0x100_0000_0000 % 256,
        3 => id / 0x1_0000_0000 % 256,
        4 => id / 0x100_0000 % 256,
        5 => id / 0x1_0000 % 256,
        6 => id / 0x100 % 256,
        _ => id % 256,
    };
    byte as u8
}

/// Builds the key of a record.
pub fn key_for_id(id: u64, size: usize) -> (r: Vec<u8>)
    ensures
        r@ == record_key(id, size as nat),
{
    let mut key: Vec<u8> = Vec::new();
    let mut i: usize = 0;
    while i < size
        invariant
            i <= size,
            key@ == record_key(id, size as nat).take(i as int),
        decreases size - i,
    {
        let byte: u8 = if i >= 8 {
            PADDING
        } else if size < 8 {
            byte_of(id, 8 - size + i)
        } else {
            byte_of(id, i)
        };
        key.push(byte);
        proof {
            let all = record_key(id, size as nat);
            assert(all.take(i + 1) =~= all.take(i as int).push(all[i as int]));
        }
        i += 1;
    }
    assert(key@ =~= record_key(id, size as nat));
    key
}

/// Builds a key that no record has.
pub fn missing_key_for_id(id: u64, size: usize) -> (r: Vec<u8>)
    ensures
        r@ == absent_key(id, size as nat),
{
    let mut key = key_for_id(id, size);
    if size > 0 {
        key.set(size - 1, ABSENT);
    } else {
        assert(key@ =~= Seq::<u8>::empty());
    }
    key
}

/// Where two keys first differ, the first has the smaller byte.
pub open spec fn key_precedes(a: Seq<u8>, b: Seq<u8>) -> bool {
    exists|i: int| #[trigger] first_smaller_at(a, b, i)
}

/// Whether two keys agree before a position at which the first has the smaller byte.
pub open spec fn first_smaller_at(a: Seq<u8>, b: Seq<u8>, i: int) -> bool {
    &&& 0 <= i < a.len() && i < b.len()
    &&& a.take(i) == b.take(i)
    &&& a[i] < b[i]
}

/// What is left of a number after its last bytes are cut off.
spec fn without_last_bytes(id: u64, i: int) -> int {
    if i == 7 {
        id as int
    } else if i == 6 {
        id as int / 0x100
    } else if i == 5 {
        id as int / 0x1_0000
    } else if i == 4 {
        id as int / 0x100_0000
    } else if i == 3 {
        id as int / 0x1_0000_0000
    } else if i == 2 {
        id as int / 0x100_0000_0000
    } else if i == 1 {
        id as int / 0x1_0000_0000_0000
    } else if i == 0 {
        id as int / 0x100_0000_0000_0000
    } else {
        0
    }
}

proof fn leading_bytes_make_up_the_number(id: u64, i: int)
    requires
        0 <= i < 8,
    ensures
        without_last_bytes(id, i) == 256 * without_last_bytes(id, i - 1) + big_endian_byte(id, i),
{
    let x = id as int;
    vstd::arithmetic::div_mod::lemma_div_denominator(x, 0x100, 0x100);
    vstd::arithmetic::div_mod::lemma_div_denominator(x, 0x1_0000, 0x100);
    vstd::arithmetic::div_mod::lemma_div_denominator(x, 0x100_0000, 0x100);
    vstd::arithmetic::div_mod::lemma_div_denominator(x, 0x1_0000_0000, 0x100);
    vstd::arithmetic::div_mod::lemma_div_denominator(x, 0x100_0000_0000, 0x100);
    vstd::arithmetic::div_mod::lemma_div_denominator(x, 0x1_0000_0000_0000, 0x100);
    let rest = without_last_bytes(id, i);
    vstd::arithmetic::div_mod::lemma_fundamental_div_mod(rest, 256);
}

proof fn first_difference_from(a: u64, b: u64, i: int) -> (r: int)
    requires
        a < b,
        0 <= i <= 8,
        without_last_bytes(a, i - 1) == without_last_bytes(b, i - 1),
    ensures
        i <= r < 8,
        forall|j: int| i <= j < r ==> big_endian_byte(a, j) == big_endian_byte(b, j),
        big_endian_byte(a, r) < big_endian_byte(b, r),
    decreases 8 - i,
{
    if i == 8 {
        i
    } else {
        leading_bytes_make_up_the_number(a, i);
        leading_bytes_make_up_the_number(b, i);
        if big_endian_byte(a, i) == big_endian_byte(b, i) {
            first_difference_from(a, b, i + 1)
        } else {
            assert(without_last_bytes(a, i) <= without_last_bytes(b, i));
            i
        }
    }
}

proof fn first_difference(a: u64, b: u64) -> (i: int)
    requires
        a < b,
    ensures
        0 <= i < 8,
        forall|j: int| 0 <= j < i ==> big_endian_byte(a, j) == big_endian_byte(b, j),
        big_endian_byte(a, i) < big_endian_byte(b, i),
{
    first_difference_from(a, b, 0)
}

/// Keys of at least eight bytes are ordered as their records are numbered.
pub proof fn keys_keep_record_order(a: u64, b: u64, size: nat)
    requires
        a < b,
        size >= 8,
    ensures
        key_precedes(record_key(a, size), record_key(b, size)),
{
    let i = first_difference(a, b);
    let x = record_key(a, size);
    let y = record_key(b, size);
    assert(x.take(i) =~= y.take(i));
    assert(first_smaller_at(x, y, i));
}

/// Records have different keys where keys have at least eight bytes.
pub proof fn keys_are_distinct(a: u64, b: u64, size: nat)
    requires
        a != b,
        size >= 8,
    ensures
        record_key(a, size) != record_key(b, size),
{
    let i = if a < b {
        first_difference(a, b)
    } else {
        first_difference(b, a)
    };
    assert(record_key(a, size)[i] != record_key(b, size)[i]);
}

/// A key that is meant to be absent belongs to no record, where keys are longer than the number.
pub proof fn absent_keys_belong_to_no_record(absent: u64, present: u64, size: nat)
    requires
        size > 8,
    ensures
        absent_key(absent, size) != record_key(present, size),
{
    assert(absent_key(absent, size)[size - 1] == ABSENT);
    assert(record_key(present, size)[size - 1] == PADDING);
}

/// Source of random values, cut from one random corpus.
pub struct ValueGenerator {
    corpus: Option<Vec<u8>>,
    filled: Option<Drawn<Seq<u8>>>,
    position: usize,
}

/// Where a generator of values stands.
#[verifier::ext_equal]
pub struct GeneratorView {
    /// The corpus, once there is one.
    pub corpus: Option<Seq<u8>>,
    /// Where the next value starts, unless it would not fit.
    pub next_at: int,
}

/// Where a value starts in a corpus of a length: where the one before ended, or at the beginning
/// where it would not fit.
pub open spec fn cut_start(len: nat, next_at: int, size: nat) -> int {
    if next_at + size <= len {
        next_at
    } else {
        0
    }
}

/// Where a value ends after a number of others of its size, from a place in a corpus on.
pub open spec fn cut_end(len: nat, next_at: int, size: nat, others: nat) -> int
    decreases others,
{
    if others == 0 {
        cut_start(len, next_at, size) + size
    } else {
        cut_start(len, cut_end(len, next_at, size, (others - 1) as nat), size) + size
    }
}

/// Whether a generator keeps its corpus, or fills one that is long enough for values of a size.
pub open spec fn keeps_corpus(before: GeneratorView, size: nat, after: GeneratorView) -> bool {
    &&& after.corpus is Some
    &&& before.corpus is Some ==> after.corpus == before.corpus
    &&& before.corpus is None ==> after.corpus->0.len() == (if size > VALUE_CORPUS_BYTES {
        size
    } else {
        VALUE_CORPUS_BYTES as nat
    })
}

/// Whether a value is the next of a size that a generator gives.
pub open spec fn generated(
    before: GeneratorView,
    size: nat,
    after: GeneratorView,
    value: Seq<u8>,
) -> bool {
    if size == 0 {
        value.len() == 0 && after == before
    } else {
        &&& keeps_corpus(before, size, after)
        &&& after.next_at == cut_end(after.corpus->0.len(), before.next_at, size, 0)
        &&& value == after.corpus->0.subrange(after.next_at - size, after.next_at)
    }
}

impl View for ValueGenerator {
    type V = GeneratorView;

    open spec fn view(&self) -> GeneratorView {
        GeneratorView { corpus: self.corpus(), next_at: self.next_at() }
    }
}

impl ValueGenerator {
    /// The draw that filled the corpus, once there is one.
    pub closed spec fn filled(&self) -> Option<Drawn<Seq<u8>>> {
        self.filled
    }

    /// The corpus, once there is one.
    pub closed spec fn corpus(&self) -> Option<Seq<u8>> {
        match self.corpus {
            Some(bytes) => Some(bytes@),
            None => None,
        }
    }

    /// Where the next value starts, unless it would not fit.
    pub closed spec fn next_at(&self) -> int {
        self.position as int
    }

    /// The position is within the corpus, or zero where there is none.
    pub open spec fn wf(&self) -> bool {
        match self.corpus() {
            Some(bytes) => 0 <= self.next_at() <= bytes.len(),
            None => self.next_at() == 0,
        }
    }

    /// A generator without a corpus.
    pub fn new() -> (r: Self)
        ensures
            r.wf(),
            r@ == (GeneratorView { corpus: None, next_at: 0 }),
            r.filled() is None,
    {
        ValueGenerator { corpus: None, filled: None, position: 0 }
    }

    /// Cuts the next value from the corpus, starting over where it would not fit.
    ///
    /// The first value fills the corpus. Later values are no longer than the corpus.
    pub fn generate(&mut self, size: usize, rng: &mut StdRng) -> (r: Vec<u8>)
        requires
            old(self).wf(),
            old(self).corpus() matches Some(bytes) ==> size <= bytes.len(),
        ensures
            final(self).wf(),
            r.len() == size,
            final(self).corpus() matches Some(bytes) ==> size <= bytes.len(),
            generated(old(self)@, size as nat, final(self)@, r@),
            old(self).corpus() is None && size > 0 ==> {
                &&& final(self).filled() is Some
                &&& final(self).filled()->0.asked() == Asked::Bytes(
                    if size > 1_048_576 {
                        size as nat
                    } else {
                        1_048_576
                    },
                )
                &&& final(self).corpus() == Some(final(self).filled()->0.outcome())
                &&& final(self).filled()->0.before() == *old(rng)
                &&& final(self).filled()->0.after() == *final(rng)
            },
            old(self).corpus() is Some || size == 0 ==> final(self).filled() == old(self).filled()
                && *final(rng) == *old(rng),
    {
        let mut value: Vec<u8> = Vec::new();
        if size == 0 {
            return value;
        }
        if self.corpus.is_none() {
            let len: usize = if size > VALUE_CORPUS_BYTES {
                size
            } else {
                VALUE_CORPUS_BYTES
            };
            let (corpus, drawn) = random_bytes(rng, len);
            self.corpus = Some(corpus);
            self.filled = Some(drawn);
        }
        let mut start: usize = self.position;
        if let Some(corpus) = &self.corpus {
            if size > corpus.len() || start > corpus.len() - size {
                start = 0;
            }
            let mut i: usize = 0;
            while i < size
                invariant
                    i <= size,
                    start + size <= corpus.len(),
                    value@ == corpus@.subrange(start as int, start + i),
                decreases size - i,
            {
                value.push(corpus[start + i]);
                proof {
                    assert(corpus@.subrange(start as int, start + i + 1) =~= corpus@.subrange(
                        start as int,
                        start + i,
                    ).push(corpus@[start + i]));
                }
                i += 1;
            }
        }
        self.position = start + size;
        value
    }
}

/// One round of the hash: the low byte goes in, then the prime multiplies.
pub open spec fn fnv_round(hash: u64, value: u64) -> u64 {
    vstd::wrapping::u64_specs::wrapping_mul(hash ^ (value & 0xff), FNV_PRIME_64)
}

/// The hash after `rounds` bytes of a number, the low byte first.
pub open spec fn fnv_rounds(hash: u64, value: u64, rounds: nat) -> u64
    decreases rounds,
{
    if rounds == 0 {
        hash
    } else {
        fnv_rounds(fnv_round(hash, value), value >> 8, (rounds - 1) as nat)
    }
}

/// The absolute value of a number read as signed.
pub open spec fn signed_magnitude(value: u64) -> u64 {
    if value >= 0x8000_0000_0000_0000 {
        (u64::MAX - value + 1) as u64
    } else {
        value
    }
}

/// The 64-bit FNV-1a hash of the eight bytes of a number, as a magnitude.
pub open spec fn fnv(value: u64) -> u64 {
    signed_magnitude(fnv_rounds(FNV_OFFSET_BASIS_64, value, 8))
}

/// Computes the 64-bit FNV-1a hash of the eight bytes of a number, as a magnitude.
pub fn fnv_hash(value: u64) -> (r: u64)
    ensures
        r == fnv(value),
{
    let mut hash: u64 = FNV_OFFSET_BASIS_64;
    let mut rest: u64 = value;
    let mut i: usize = 0;
    while i < 8
        invariant
            i <= 8,
            fnv_rounds(FNV_OFFSET_BASIS_64, value, 8) == fnv_rounds(hash, rest, (8 - i) as nat),
        decreases 8 - i,
    {
        hash = (hash ^ (rest & 0xff)).wrapping_mul(FNV_PRIME_64);
        rest = rest >> 8;
        i += 1;
    }
    if hash >= 0x8000_0000_0000_0000 {
        u64::MAX - hash + 1
    } else {
        hash
    }
}

/// The exponent of the skewed distribution, in thousandths.
pub const ZIPFIAN_EXPONENT_PERMILLE: u64 = 990;

/// How a workload picks records.
#[derive(Debug, Clone, Copy, PartialEq, Eq, Structural)]
pub enum KeySelector {
    /// Every record is equally likely.
    Uniform { record_count: u64 },
    /// Few records are likely, and they are spread over the domain.
    ScrambledZipfian { record_count: u64 },
}

/// The record that a Zipfian rank stands for, ranks counting from one.
pub open spec fn scrambled(rank: u64, record_count: u64) -> u64 {
    fnv(count::floored_difference(rank, 1)) % record_count
}

/// Spreads a Zipfian rank over the records.
pub fn scramble(rank: u64, record_count: u64) -> (r: u64)
    requires
        record_count > 0,
    ensures
        r == scrambled(rank, record_count),
        r < record_count,
{
    fnv_hash(minus(rank, 1)) % record_count
}

/// Whether a record comes of a draw: the value that was drawn below the number of records, or the
/// one that a rank drawn among them stands for.
pub open spec fn comes_of(selector: KeySelector, drawn: Option<Drawn<u64>>, record: u64) -> bool {
    match selector {
        KeySelector::Uniform { record_count } => if record_count == 0 {
            drawn is None && record == 0
        } else {
            &&& drawn is Some
            &&& drawn->0.asked() == Asked::Below(record_count)
            &&& drawn->0.outcome() == record
        },
        KeySelector::ScrambledZipfian { record_count } => {
            &&& drawn is Some
            &&& drawn->0.asked() == (Asked::Rank {
                records: record_count,
                exponent_permille: ZIPFIAN_EXPONENT_PERMILLE,
            })
            &&& record == scrambled(drawn->0.outcome(), record_count)
        },
    }
}

impl KeySelector {
    /// The number of records that are selected from.
    pub open spec fn domain(self) -> u64 {
        match self {
            KeySelector::Uniform { record_count } => record_count,
            KeySelector::ScrambledZipfian { record_count } => record_count,
        }
    }

    /// A skewed selector has at least one record.
    pub open spec fn wf(self) -> bool {
        self is ScrambledZipfian ==> self.domain() > 0
    }

    /// Selects every record with the same probability.
    pub fn uniform(record_count: u64) -> (r: Self)
        ensures
            r == (KeySelector::Uniform { record_count }),
            r.wf(),
    {
        KeySelector::Uniform { record_count }
    }

    /// Selects few records often.
    pub fn zipfian(record_count: u64) -> (r: Self)
        ensures
            r == (KeySelector::ScrambledZipfian { record_count: count::larger(record_count, 1) }),
            r.wf(),
    {
        KeySelector::ScrambledZipfian { record_count: max_of(record_count, 1) }
    }

    /// Whether a record can be picked: any of the domain, or one that a rank stands for.
    pub open spec fn selects(self, record: u64) -> bool {
        match self {
            KeySelector::Uniform { record_count } => record < record_count || (record_count == 0
                && record == 0),
            KeySelector::ScrambledZipfian { record_count } => exists|rank: u64|
                rank >= 1 && record == #[trigger] scrambled(rank, record_count),
        }
    }

    /// Picks a record, with the record of the draw that it came of.
    ///
    /// A uniform selection takes the value that was drawn below the number of records. A skewed
    /// one spreads the rank that was drawn.
    pub fn pick(&self, rng: &mut StdRng) -> (r: (u64, Option<Drawn<u64>>))
        requires
            self.wf(),
        ensures
            self.selects(r.0),
            self.domain() > 0 ==> r.0 < self.domain(),
            comes_of(*self, r.1, r.0),
            self.domain() == 0 ==> r.0 == 0 && r.1 is None && *final(rng) == *old(rng),
            self.domain() > 0 ==> r.1 is Some && r.1->0.before() == *old(rng) && r.1->0.after()
                == *final(rng),
            *self matches KeySelector::Uniform { record_count } ==> record_count > 0 ==> {
                &&& r.1->0.asked() == Asked::Below(record_count)
                &&& r.0 == r.1->0.outcome()
            },
            *self matches KeySelector::ScrambledZipfian { record_count } ==> {
                &&& r.1->0.asked() == (Asked::Rank {
                    records: record_count,
                    exponent_permille: 990,
                })
                &&& r.1->0.outcome() >= 1
                &&& r.0 == fnv((r.1->0.outcome() - 1) as u64) % record_count
            },
    {
        match *self {
            KeySelector::Uniform { record_count } => {
                if record_count == 0 {
                    (0, None)
                } else {
                    let (record, drawn) = below(rng, record_count);
                    (record, Some(drawn))
                }
            },
            KeySelector::ScrambledZipfian { record_count } => {
                let (rank, drawn) = zipf_rank(rng, record_count, ZIPFIAN_EXPONENT_PERMILLE);
                (scramble(rank, record_count), Some(drawn))
            },
        }
    }

    /// Picks a record.
    ///
    /// How often a record is picked is left to the generator.
    pub fn sample(&self, rng: &mut StdRng) -> (r: u64)
        requires
            self.wf(),
        ensures
            self.selects(r),
            self.domain() > 0 ==> r < self.domain(),
            self.domain() == 0 ==> r == 0,
    {
        self.pick(rng).0
    }
}

/// The key of a record begins with its number, the highest byte first, and goes on with ASCII
/// zeros; the key that no record has differs in its last byte, an ASCII one.
pub proof fn keys_spell_their_records(id: u64, size: nat, i: int)
    requires
        size >= 8,
    ensures
        ({
            let k = record_key(id, size);
            &&& k.len() == size
            &&& k[0] * 0x100_0000_0000_0000 + k[1] * 0x1_0000_0000_0000 + k[2] * 0x100_0000_0000
                + k[3] * 0x1_0000_0000 + k[4] * 0x100_0000 + k[5] * 0x1_0000 + k[6] * 0x100 + k[7]
                == id
            &&& 8 <= i < size ==> k[i] == 48
            &&& absent_key(id, size).len() == size
            &&& absent_key(id, size).drop_last() == k.drop_last()
            &&& absent_key(id, size).last() == 49
        }),
{
    let k = record_key(id, size);
    bytes_make_up_the_number(id);
    assert(k[0] == big_endian_byte(id, 0) && k[1] == big_endian_byte(id, 1) && k[2]
        == big_endian_byte(id, 2) && k[3] == big_endian_byte(id, 3));
    assert(k[4] == big_endian_byte(id, 4) && k[5] == big_endian_byte(id, 5) && k[6]
        == big_endian_byte(id, 6) && k[7] == big_endian_byte(id, 7));
    assert(absent_key(id, size).drop_last() =~= k.drop_last());
}

proof fn bytes_make_up_the_number(id: u64)
    ensures
        big_endian_byte(id, 0) * 0x100_0000_0000_0000 + big_endian_byte(id, 1) * 0x1_0000_0000_0000
            + big_endian_byte(id, 2) * 0x100_0000_0000 + big_endian_byte(id, 3) * 0x1_0000_0000
            + big_endian_byte(id, 4) * 0x100_0000 + big_endian_byte(id, 5) * 0x1_0000
            + big_endian_byte(id, 6) * 0x100 + big_endian_byte(id, 7) == id,
{
    let a = id as int / 0x100;
    let b = id as int / 0x1_0000;
    let c = id as int / 0x100_0000;
    let d = id as int / 0x1_0000_0000;
    let e = id as int / 0x100_0000_0000;
    let f = id as int / 0x1_0000_0000_0000;
    let g = id as int / 0x100_0000_0000_0000;
    assert(b == a / 0x100);
    assert(c == b / 0x100);
    assert(d == c / 0x100);
    assert(e == d / 0x100);
    assert(f == e / 0x100);
    assert(g == f / 0x100);
    assert(0 <= g < 0x100);
    assert(big_endian_byte(id, 7) == id % 0x100);
    assert(big_endian_byte(id, 6) == a % 0x100);
    assert(big_endian_byte(id, 5) == b % 0x100);
    assert(big_endian_byte(id, 4) == c % 0x100);
    assert(big_endian_byte(id, 3) == d % 0x100);
    assert(big_endian_byte(id, 2) == e % 0x100);
    assert(big_endian_byte(id, 1) == f % 0x100);
    assert(big_endian_byte(id, 0) == g);
}

/// A value is the next piece of the corpus, from where the one before ended, or from the beginning
/// where it would not fit; the corpus is made once, of at least a mebibyte.
pub proof fn values_are_pieces_of_one_corpus(
    before: GeneratorView,
    size: nat,
    after: GeneratorView,
    value: Seq<u8>,
    i: int,
)
    requires
        generated(before, size, after, value),
        size > 0,
        before.next_at >= 0,
        before.corpus matches Some(corpus) ==> size <= corpus.len(),
        0 <= i < size,
    ensures
        value.len() == size,
        after.corpus is Some,
        before.corpus is Some ==> after.corpus == before.corpus,
        before.corpus is None ==> after.corpus->0.len() >= 1_048_576 && after.corpus->0.len()
            >= size,
        before.next_at + size <= after.corpus->0.len() ==> value[i]
            == after.corpus->0[before.next_at + i] && after.next_at == before.next_at + size,
        before.next_at + size > after.corpus->0.len() ==> value[i] == after.corpus->0[i]
            && after.next_at == size,
{
}

/// A selection over no records gives the first; over some, a uniform one gives what was drawn, and
/// a skewed one the hash of the rank, counting from zero, among the records.
pub proof fn selections_follow_their_draws(
    selector: KeySelector,
    drawn: Option<Drawn<u64>>,
    record: u64,
)
    requires
        comes_of(selector, drawn, record),
        selector.wf(),
    ensures
        selector matches KeySelector::Uniform { record_count } ==> {
            &&& record_count == 0 ==> record == 0
            &&& record_count > 0 ==> drawn is Some && drawn->0.asked() == Asked::Below(
                record_count,
            ) && drawn->0.outcome() == record
        },
        selector matches KeySelector::ScrambledZipfian { record_count } ==> {
            &&& drawn is Some
            &&& drawn->0.asked() == (Asked::Rank { records: record_count, exponent_permille: 990 })
            &&& drawn->0.outcome() >= 1 ==> record == fnv((drawn->0.outcome() - 1) as u64)
                % record_count
            &&& record < record_count
        },
{
}

/// A hash is the magnitude of a signed number.
pub proof fn hashes_are_magnitudes(value: u64)
    ensures
        value < 0x8000_0000_0000_0000 ==> signed_magnitude(value) == value,
        value >= 0x8000_0000_0000_0000 ==> signed_magnitude(value) + value
            == 0x1_0000_0000_0000_0000,
        fnv(value) <= 0x8000_0000_0000_0000,
{
}

} // verus!
