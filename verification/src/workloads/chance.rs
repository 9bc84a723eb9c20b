//! Random choices.

use rand::distr::Distribution;
use rand::rngs::StdRng;
use rand::seq::SliceRandom;
use rand::{Rng, RngCore};
use vstd::prelude::*;

verus! {

/// The standard generator of `rand`, taken as it is.
#[verifier::external_type_specification]
#[verifier::external_body]
pub struct ExStdRng(rand::rngs::StdRng);

/// What a generator is asked for.
pub enum Asked {
    /// A value below a bound, each with the same probability.
    Below(u64),
    /// True with a probability in thousandths.
    Likely(u64),
    /// A Zipfian rank among records, with an exponent in thousandths.
    Rank { records: u64, exponent_permille: u64 },
    /// An order of items.
    Order(Seq<bool>),
    /// A number of bytes.
    Bytes(nat),
}

/// The record of one draw: what a generator was asked for, what came of it, and the generator
/// before and after.
///
/// Only the functions below make one, so that whoever holds it has asked the generator.
pub struct Drawn<R> {
    asked: Ghost<Asked>,
    outcome: Ghost<R>,
    before: Ghost<StdRng>,
    after: Ghost<StdRng>,
}

impl<R> Drawn<R> {
    /// What was asked for.
    pub closed spec fn asked(&self) -> Asked {
        self.asked@
    }

    /// What came of it.
    pub closed spec fn outcome(&self) -> R {
        self.outcome@
    }

    /// The generator before the draw.
    pub closed spec fn before(&self) -> StdRng {
        self.before@
    }

    /// The generator after the draw.
    pub closed spec fn after(&self) -> StdRng {
        self.after@
    }
}

/// `Rng::random_range` from zero: some value below `bound`, with the record of the draw.
#[verifier::external_body]
pub(crate) fn below(rng: &mut StdRng, bound: u64) -> (r: (u64, Drawn<u64>))
    requires
        bound > 0,
    ensures
        r.0 < bound,
        r.1.asked() == Asked::Below(bound),
        r.1.outcome() == r.0,
        r.1.before() == *old(rng),
        r.1.after() == *final(rng),
{
    let before = Ghost(*rng);
    let outcome = rng.random_range(0..bound);
    let asked = Ghost(Asked::Below(bound));
    (outcome, Drawn { asked, outcome: Ghost(outcome), before, after: Ghost(*rng) })
}

/// `Rng::random_bool` with a probability in thousandths, with the record of the draw. Nothing is
/// said of the outcome.
#[verifier::external_body]
pub(crate) fn likely(rng: &mut StdRng, permille: u64) -> (r: (bool, Drawn<bool>))
    requires
        permille <= 1000,
    ensures
        r.1.asked() == Asked::Likely(permille),
        r.1.outcome() == r.0,
        r.1.before() == *old(rng),
        r.1.after() == *final(rng),
{
    let before = Ghost(*rng);
    let outcome = rng.random_bool(std::time::Duration::from_millis(permille).as_secs_f64());
    let asked = Ghost(Asked::Likely(permille));
    (outcome, Drawn { asked, outcome: Ghost(outcome), before, after: Ghost(*rng) })
}

/// `RngCore::fill_bytes` on a new buffer: as many bytes as were asked for, with nothing said of
/// their values, and with the record of the draw.
#[verifier::external_body]
pub(crate) fn random_bytes(rng: &mut StdRng, len: usize) -> (r: (Vec<u8>, Drawn<Seq<u8>>))
    ensures
        r.0.len() == len,
        r.1.asked() == Asked::Bytes(len as nat),
        r.1.outcome() == r.0@,
        r.1.before() == *old(rng),
        r.1.after() == *final(rng),
{
    let before = Ghost(*rng);
    let mut bytes = vec![0_u8; len];
    rng.fill_bytes(&mut bytes);
    let asked = Ghost(Asked::Bytes(len as nat));
    let outcome = Ghost(bytes@);
    (bytes, Drawn { asked, outcome, before, after: Ghost(*rng) })
}

/// A sample of `rand_distr::Zipf` over `records` elements, with an exponent in thousandths, as a
/// whole number: a rank, counting from one. That ranks end at `records`, and how often each comes,
/// is left unsaid: samples are rounded, and depend on chance. The record of the draw comes with it.
#[verifier::external_body]
pub(crate) fn zipf_rank(rng: &mut StdRng, records: u64, exponent_permille: u64) -> (r: (
    u64,
    Drawn<u64>,
))
    requires
        records >= 1,
        exponent_permille < 1000,
    ensures
        r.0 >= 1,
        r.1.asked() == (Asked::Rank { records, exponent_permille }),
        r.1.outcome() == r.0,
        r.1.before() == *old(rng),
        r.1.after() == *final(rng),
{
    let before = Ghost(*rng);
    let count = std::time::Duration::from_secs(records).as_secs_f64();
    let exponent = std::time::Duration::from_millis(exponent_permille).as_secs_f64();
    let zipf = rand_distr::Zipf::new(count, exponent).expect("positive Zipfian domain");
    let outcome = zipf.sample(rng) as u64;
    let asked = Ghost(Asked::Rank { records, exponent_permille });
    (outcome, Drawn { asked, outcome: Ghost(outcome), before, after: Ghost(*rng) })
}

/// `SliceRandom::shuffle`: the same items in some order, with the record of the draw.
#[verifier::external_body]
pub(crate) fn shuffled(rng: &mut StdRng, items: Vec<bool>) -> (r: (Vec<bool>, Drawn<Seq<bool>>))
    ensures
        r.0@.to_multiset() == items@.to_multiset(),
        r.1.asked() == Asked::Order(items@),
        r.1.outcome() == r.0@,
        r.1.before() == *old(rng),
        r.1.after() == *final(rng),
{
    let before = Ghost(*rng);
    let asked = Ghost(Asked::Order(items@));
    let mut shuffled = items;
    shuffled.shuffle(rng);
    let outcome = Ghost(shuffled@);
    (shuffled, Drawn { asked, outcome, before, after: Ghost(*rng) })
}

} // verus!
