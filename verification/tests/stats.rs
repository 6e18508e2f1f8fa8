use logscout::filters::FilterDecision;
use logscout::filters::FilterDecision::{DroppedNoIncludeMatch, Excluded, Included, Passed};
use logscout::stats::Stats;

#[test]
fn new_counters_are_zero() {
    assert_eq!(Stats::new().snapshot(), (0, 0, 0));
}

#[test]
fn each_increment_touches_its_own_counter() {
    let mut stats = Stats::new();
    stats.inc_total();
    assert_eq!(stats.snapshot(), (1, 0, 0));
    stats.inc_included();
    assert_eq!(stats.snapshot(), (1, 1, 0));
    stats.inc_excluded();
    assert_eq!(stats.snapshot(), (1, 1, 1));
    stats.inc_total();
    stats.inc_total();
    assert_eq!(stats.snapshot(), (3, 1, 1));
}

#[test]
fn record_counts_by_verdict() {
    let mut stats = Stats::new();
    stats.record(FilterDecision::Included);
    assert_eq!(stats.snapshot(), (1, 1, 0));
    stats.record(FilterDecision::Passed);
    assert_eq!(stats.snapshot(), (2, 2, 0));
    stats.record(FilterDecision::Excluded);
    assert_eq!(stats.snapshot(), (3, 2, 1));
    stats.record(FilterDecision::DroppedNoIncludeMatch);
    assert_eq!(stats.snapshot(), (4, 2, 1));
}

#[test]
fn counters_are_conserved_at_every_point() {
    let run = [
        Included, DroppedNoIncludeMatch, Excluded, Passed, DroppedNoIncludeMatch, Excluded,
        Excluded, Included, DroppedNoIncludeMatch,
    ];
    let mut stats = Stats::new();
    let mut dropped: u64 = 0;
    for decision in run {
        stats.record(decision);
        if decision == DroppedNoIncludeMatch {
            dropped += 1;
        }
        let (total, included, excluded) = stats.snapshot();
        assert_eq!(total, included + excluded + dropped);
        assert!(total >= included + excluded);
    }
    assert_eq!(stats.snapshot(), (9, 3, 3));
    assert_eq!(dropped, 3);
}

#[test]
fn snapshot_does_not_change_the_counters() {
    let mut stats = Stats::new();
    stats.record(FilterDecision::Excluded);
    assert_eq!(stats.snapshot(), stats.snapshot());
    assert_eq!(stats.snapshot(), (1, 0, 1));
}
