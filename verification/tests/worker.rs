use vanity_keys::keys::derive_public_key;
use vanity_keys::matcher::MatchMode;
use vanity_keys::pattern::expand;
use vanity_keys::worker::throughput_report;
use vanity_keys::worker::SearchWorker;
use vanity_keys::worker::ThroughputReport;

#[test]
fn step_counts_and_is_consistent() {
    let mut worker = SearchWorker::from_seed(42, expand("a", false), MatchMode::Prefix);
    assert_eq!(worker.counter, 0);
    let out = worker.step();
    assert_eq!(worker.counter, 1);
    assert!(!out.report_due);
    assert_eq!(out.private_key.len(), 32);
    assert_eq!(out.private_key[0] & 7, 0);
    assert_eq!(out.private_key[31] & 128, 0);
    assert_eq!(out.private_key[31] & 64, 64);
    assert_eq!(out.public_key, derive_public_key(&out.private_key));
    assert_eq!(out.encoded, bs58::encode(&out.public_key).into_vec());
    assert_ne!(out.encoded, out.public_key);
}

#[test]
fn same_seed_same_search() {
    let mut first = SearchWorker::from_seed(7, expand("q", false), MatchMode::Prefix);
    let mut second = SearchWorker::from_seed(7, expand("q", false), MatchMode::Prefix);
    for _ in 0..5 {
        let a = first.step();
        let b = second.step();
        assert_eq!(a.private_key, b.private_key);
        assert_eq!(a.public_key, b.public_key);
        assert_eq!(a.encoded, b.encoded);
        assert_eq!(a.hits, b.hits);
    }
}

#[test]
fn empty_variant_matches_every_key() {
    let mut worker = SearchWorker::from_seed(3, expand("", false), MatchMode::Prefix);
    let out = worker.step();
    assert_eq!(out.hits, vec![0usize]);
}

#[test]
fn worker_local_counters_add_up() {
    let variants = expand("ab", false);
    let mut workers: Vec<SearchWorker> = (0..3u64)
        .map(|seed| SearchWorker::from_seed(seed, variants.clone(), MatchMode::Prefix))
        .collect();
    for worker in workers.iter_mut() {
        for _ in 0..4 {
            worker.step();
        }
    }
    let total: u64 = workers.iter().map(|w| w.counter).sum();
    assert_eq!(total, 12);
}

#[test]
fn report_skipped_before_one_second() {
    assert_eq!(throughput_report(100_000, 4, 2, false, 3, 0), None);
}

#[test]
fn report_prefix_mode_values() {
    let report = throughput_report(100_000, 3, 4, false, 3, 2);
    assert_eq!(
        report,
        Some(ThroughputReport {
            raw_key_count: 300_000,
            raw_key_rate: 150_000,
            effective_key_count: 1_200_000,
            effective_key_rate: 600_000,
        })
    );
}

#[test]
fn report_substring_mode_applies_offset_factor() {
    // With a 3-byte pattern the effective figures carry the factor 32 - 3.
    let report = throughput_report(100_000, 3, 4, true, 3, 2);
    assert_eq!(
        report,
        Some(ThroughputReport {
            raw_key_count: 300_000,
            raw_key_rate: 150_000,
            effective_key_count: 1_200_000 * 29,
            effective_key_rate: 600_000 * 29,
        })
    );
}

#[test]
fn report_substring_mode_long_pattern() {
    let report = throughput_report(100_000, 1, 1, true, 40, 2);
    assert_eq!(
        report,
        Some(ThroughputReport {
            raw_key_count: 100_000,
            raw_key_rate: 50_000,
            effective_key_count: 0,
            effective_key_rate: 0,
        })
    );
}

#[test]
fn report_overflow_yields_none() {
    assert_eq!(throughput_report(u64::MAX, 2, 1, false, 1, 1), None);
    assert_eq!(throughput_report(u64::MAX, 1, 2, false, 1, 1), None);
}

#[test]
fn report_rate_uses_whole_elapsed_seconds() {
    let report = throughput_report(100_000, 1, 1, false, 1, 3);
    assert_eq!(
        report,
        Some(ThroughputReport {
            raw_key_count: 100_000,
            raw_key_rate: 33_333,
            effective_key_count: 100_000,
            effective_key_rate: 33_333,
        })
    );
}
