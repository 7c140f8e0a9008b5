//! The search worker: one iteration derives a key pair from fresh
//! randomness, encodes the public key and tests the encoding against the
//! variant set; the throughput report turns the worker's counter into the
//! display statistics.

use vstd::prelude::*;

use crate::base58::base58_encode;
use crate::base58::base58_of;
use crate::keys::get_random_keypair;
use crate::keys::is_clamped;
use crate::keys::public_key_of;
use crate::matcher::match_indices;
use crate::matcher::matching_indices;
use crate::matcher::MatchMode;
use crate::pattern::views;
use crate::rng::os_entropy_u64;
use crate::rng::rng_from_seed;

verus! {

/// One worker's state: its own generator, its monotonic counter of keys
/// tried, and its private copy of the variant set and mode. Nothing here
/// is shared between workers.
pub struct SearchWorker {
    pub rng: rand_xoshiro::Xoshiro256Plus,
    pub counter: u64,
    pub variants: Vec<Vec<u8>>,
    pub mode: MatchMode,
}

/// What one search iteration produced: the key pair, the base58 encoding
/// of the public key, the indices of the variants it matched (one entry
/// per matching variant), and whether a progress report is due.
pub struct StepOutcome {
    pub private_key: Vec<u8>,
    pub public_key: Vec<u8>,
    pub encoded: Vec<u8>,
    pub hits: Vec<usize>,
    pub report_due: bool,
}

/// How many iterations pass between two progress reports of a worker.
pub const REPORT_INTERVAL: u64 = 100000;

impl SearchWorker {
    /// A worker over a fixed variant set and mode, its generator seeded
    /// deterministically from the given seed.
    pub fn from_seed(seed: u64, variants: Vec<Vec<u8>>, mode: MatchMode) -> (r: SearchWorker)
        ensures
            r.counter == 0,
            r.variants == variants,
            r.mode == mode,
    {
        SearchWorker { rng: rng_from_seed(seed), counter: 0, variants, mode }
    }

    /// A worker whose generator is seeded once from the operating
    /// system's entropy source.
    pub fn new(variants: Vec<Vec<u8>>, mode: MatchMode) -> (r: SearchWorker)
        ensures
            r.counter == 0,
            r.variants == variants,
            r.mode == mode,
    {
        let seed = os_entropy_u64();
        SearchWorker::from_seed(seed, variants, mode)
    }

    /// One search iteration: derive a key pair, encode the public key,
    /// count it, and report which variants the encoding matches.
    pub fn step(&mut self) -> (out: StepOutcome)
        requires
            old(self).counter < u64::MAX,
        ensures
            final(self).counter == old(self).counter + 1,
            final(self).variants == old(self).variants,
            final(self).mode == old(self).mode,
            out.private_key@.len() == 32,
            is_clamped(out.private_key@),
            out.public_key@ == public_key_of(out.private_key@),
            out.encoded@ == base58_of(out.public_key@),
            out.hits@.map_values(|u: usize| u as int) == matching_indices(
                out.encoded@,
                views(final(self).variants@),
                final(self).mode,
            ),
            out.report_due == (final(self).counter % REPORT_INTERVAL == 0),
    {
        let (private_key, public_key) = get_random_keypair(&mut self.rng);
        let encoded = base58_encode(&public_key);
        self.counter = self.counter + 1;
        let report_due = self.counter % REPORT_INTERVAL == 0;
        let hits = match_indices(&encoded, &self.variants, self.mode);
        StepOutcome { private_key, public_key, encoded, hits, report_due }
    }
}

/// One progress report's figures: keys tried and keys per second, raw and
/// scaled by the size of the searched key space.
#[derive(Clone, Copy, Debug, PartialEq, Eq, Structural)]
pub struct ThroughputReport {
    pub raw_key_count: u64,
    pub raw_key_rate: u64,
    pub effective_key_count: u64,
    pub effective_key_rate: u64,
}

/// The factor the effective figures carry on top of the variant count: in
/// substring mode the approximate number of valid window offsets inside a
/// 32-byte key's encoding, and none for a pattern longer than that;
/// otherwise 1.
pub open spec fn spec_multiplier(substring: bool, pattern_len: u64) -> int {
    if substring {
        if pattern_len <= 32 {
            32 - pattern_len
        } else {
            0
        }
    } else {
        1
    }
}

/// Whether all four report figures fit in a 64-bit counter.
pub open spec fn report_fits(
    counter: u64,
    num_threads: u64,
    variant_count: u64,
    substring: bool,
    pattern_len: u64,
    elapsed_secs: u64,
) -> bool
    recommends
        elapsed_secs > 0,
{
    let rate = counter as int / elapsed_secs as int;
    let m = spec_multiplier(substring, pattern_len);
    &&& counter * num_threads <= u64::MAX
    &&& rate * num_threads <= u64::MAX
    &&& counter * num_threads * variant_count <= u64::MAX
    &&& rate * num_threads * variant_count <= u64::MAX
    &&& counter * num_threads * variant_count * m <= u64::MAX
    &&& rate * num_threads * variant_count * m <= u64::MAX
}

/// The figures of one progress report, from one worker's counter and the
/// elapsed wall-clock seconds since that worker started. No report is due
/// before a full second has elapsed (this guards the rate's division) or
/// when a figure would not fit in 64 bits.
pub fn throughput_report(
    counter: u64,
    num_threads: u64,
    variant_count: u64,
    substring: bool,
    pattern_len: u64,
    elapsed_secs: u64,
) -> (r: Option<ThroughputReport>)
    ensures
        (r is Some) == (elapsed_secs > 0 && report_fits(
            counter,
            num_threads,
            variant_count,
            substring,
            pattern_len,
            elapsed_secs,
        )),
        (match r {
            Some(rep) => {
                let rate = counter as int / elapsed_secs as int;
                let m = spec_multiplier(substring, pattern_len);
                &&& rep.raw_key_count == counter * num_threads
                &&& rep.raw_key_rate == rate * num_threads
                &&& rep.effective_key_count == counter * num_threads * variant_count * m
                &&& rep.effective_key_rate == rate * num_threads * variant_count * m
            },
            None => true,
        }),
{
    if elapsed_secs == 0 {
        return None;
    }
    let per_thread_rate = counter / elapsed_secs;
    let raw_key_count = match counter.checked_mul(num_threads) {
        Some(v) => v,
        None => {
            return None;
        },
    };
    let raw_key_rate = match per_thread_rate.checked_mul(num_threads) {
        Some(v) => v,
        None => {
            return None;
        },
    };
    let mut effective_key_count = match raw_key_count.checked_mul(variant_count) {
        Some(v) => v,
        None => {
            return None;
        },
    };
    let mut effective_key_rate = match raw_key_rate.checked_mul(variant_count) {
        Some(v) => v,
        None => {
            return None;
        },
    };
    if substring {
        let factor: u64 = if pattern_len <= 32 {
            32 - pattern_len
        } else {
            0
        };
        effective_key_count = match effective_key_count.checked_mul(factor) {
            Some(v) => v,
            None => {
                return None;
            },
        };
        effective_key_rate = match effective_key_rate.checked_mul(factor) {
            Some(v) => v,
            None => {
                return None;
            },
        };
    }
    proof {
        let rate = counter as int / elapsed_secs as int;
        let m = spec_multiplier(substring, pattern_len);
        assert(counter * num_threads <= u64::MAX);
        assert(rate * num_threads <= u64::MAX);
        assert(counter * num_threads * variant_count <= u64::MAX);
        assert(rate * num_threads * variant_count <= u64::MAX);
        assert(counter * num_threads * variant_count * m <= u64::MAX);
        assert(rate * num_threads * variant_count * m <= u64::MAX);
    }
    Some(
        ThroughputReport {
            raw_key_count,
            raw_key_rate,
            effective_key_count,
            effective_key_rate,
        },
    )
}

} // verus!
