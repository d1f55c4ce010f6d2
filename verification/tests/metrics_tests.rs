use kakarot_aec::metrics::MetricsAccumulator;

#[test]
fn new_accumulator_reads_zero() {
    let metrics = MetricsAccumulator::new();
    assert_eq!(metrics.snapshot(), (0, 0));
}

#[test]
fn record_counts_one_chunk_and_adds_the_time() {
    let mut metrics = MetricsAccumulator::new();
    metrics.record(250);
    assert_eq!(metrics.snapshot(), (1, 250));
    metrics.record(0);
    assert_eq!(metrics.snapshot(), (2, 250));
    metrics.record(1_000_000);
    assert_eq!(metrics.snapshot(), (3, 1_000_250));
}

#[test]
fn chunk_count_goes_up_by_the_number_of_records() {
    let mut metrics = MetricsAccumulator::new();
    metrics.record(5);
    let before = metrics.snapshot();
    let mut previous_time = before.1;
    for elapsed in [3u64, 0, 17, 1, 0, 250, 9] {
        metrics.record(elapsed);
        let now = metrics.snapshot();
        assert!(now.1 >= previous_time);
        previous_time = now.1;
    }
    let after = metrics.snapshot();
    assert_eq!(after.0, before.0 + 7);
    assert_eq!(after.1, before.1 + 280);
}

#[test]
fn reset_sets_both_counters_to_zero() {
    let mut metrics = MetricsAccumulator::new();
    metrics.record(10);
    metrics.record(20);
    metrics.reset();
    assert_eq!(metrics.snapshot(), (0, 0));
    metrics.record(7);
    assert_eq!(metrics.snapshot(), (1, 7));
}

#[test]
fn time_counter_wraps_around() {
    let mut metrics = MetricsAccumulator::new();
    metrics.record(u64::MAX);
    assert_eq!(metrics.snapshot(), (1, u64::MAX));
    metrics.record(3);
    assert_eq!(metrics.snapshot(), (2, 2));
}
