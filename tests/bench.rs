use fsbench::bench::{
    bandwidth_mb_per_s, payload, progress_tenths, read_back_matches, warmup_rounds,
    BandwidthTotals, LatencyStats, PhaseTimes, FILL_BYTE,
};
use fsbench::config::Config;
use fsbench::statistician::Ratio;

#[test]
fn fixed_duration_run() {
    let mut stats = LatencyStats::new();
    let t = PhaseTimes { create: 1000, open: 1000, write: 1000, read: 1000, remove: 1000 };
    for _ in 0..10 {
        assert!(stats.can_record(t));
        stats.record(t);
    }
    for s in [&stats.create, &stats.open, &stats.write, &stats.read, &stats.remove] {
        assert_eq!(s.size(), 10);
        assert_eq!(s.mean(), Ratio { num: 10000, den: 10 });
        assert_eq!(s.max(), 1000);
        assert_eq!(s.min(), 1000);
        assert_eq!(s.svariance().num, 0);
    }
}

#[test]
fn phases_are_kept_apart() {
    let mut stats = LatencyStats::new();
    stats.record(PhaseTimes { create: 1, open: 2, write: 3, read: 4, remove: 5 });
    stats.record(PhaseTimes { create: 3, open: 2, write: 1, read: 8, remove: 5 });
    assert_eq!(stats.create.sum(), 4);
    assert_eq!(stats.open.sum(), 4);
    assert_eq!(stats.write.max(), 3);
    assert_eq!(stats.read.min(), 4);
    assert_eq!(stats.remove.svariance().num, 0);
}

#[test]
fn warmup_is_a_tenth() {
    assert_eq!(warmup_rounds(10), 1);
    assert_eq!(warmup_rounds(10000), 1000);
    assert_eq!(warmup_rounds(9), 0);
}

#[test]
fn progress_every_tenth() {
    assert_eq!(progress_tenths(0, 100), Some(0));
    assert_eq!(progress_tenths(10, 100), Some(1));
    assert_eq!(progress_tenths(90, 100), Some(9));
    assert_eq!(progress_tenths(15, 100), None);
    assert_eq!(progress_tenths(0, 5), None);
}

#[test]
fn payload_is_filled() {
    let p = payload(4096);
    assert_eq!(p.len(), 4096);
    assert!(p.iter().all(|&b| b == FILL_BYTE));
    assert!(payload(0).is_empty());
}

#[test]
fn bandwidth_totals() {
    let mut t = BandwidthTotals::new(10, 4096);
    assert_eq!(t.total_bytes, 40960);
    t.add_round(100, 50);
    t.add_round(300, 150);
    assert_eq!(t.write_ns, 400);
    assert_eq!(t.read_ns, 200);
    assert_eq!(t.rounds_done, 2);
}

#[test]
fn bandwidth_formula() {
    assert_eq!(bandwidth_mb_per_s(40960, 1_000_000_000), Some(40));
    assert_eq!(bandwidth_mb_per_s(2048, 3), Some(666_666_666));
    assert_eq!(bandwidth_mb_per_s(1023, 7), Some(0));
    assert_eq!(bandwidth_mb_per_s(4096, 0), None);
    assert_eq!(bandwidth_mb_per_s(u128::MAX, 1), None);
}

#[test]
fn default_config() {
    let c = Config::parse();
    assert_eq!(c.rounds_and_bytes(), (10000, 4096));
    assert!(!c.verbose());
    let v = Config { rounds: 10, bytes: 64, verbose: true };
    assert_eq!(v.rounds_and_bytes(), (10, 64));
    assert!(v.verbose());
}

#[test]
fn read_back_check() {
    let w = payload(16);
    assert!(read_back_matches(&w, &payload(16)));
    assert!(!read_back_matches(&w, &payload(15)));
    let mut r = payload(16);
    r[9] = 0;
    assert!(!read_back_matches(&w, &r));
    assert!(read_back_matches(&Vec::new(), &Vec::new()));
}
