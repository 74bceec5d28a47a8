use gemm_benchmark::driver::{nanos_per_iteration, planned_work, Action, BenchmarkRun};
use gemm_benchmark::error::BenchError;
use gemm_benchmark::sequencer::{exponential_iterations, triangular, triangular_iterations};
use gemm_benchmark::stats::{BenchmarkStats, Measurement};
use gemm_benchmark::stopping::StoppingCondition;
use statrs::statistics::{Data, Distribution, OrderStatistics};

/// Runs a phase against a clock on which one iteration takes `nanos` nanoseconds.
fn run_phase(mut run: BenchmarkRun, nanos: u128) -> Result<BenchmarkStats, BenchError> {
    let mut clock: u128 = 0;
    loop {
        match run.next_action(clock)? {
            Action::Finish => return Ok(run.finish(clock)),
            Action::Sample(count) => {
                let elapsed = count as u128 * nanos;
                clock += elapsed;
                run.record_sample(count, elapsed)?;
            }
        }
    }
}

fn reading(value: usize) -> Measurement {
    Measurement { sample_iters: 1, flops: value, elapsed_nanos: 1_000_000_000 }
}

fn throughput(sample: &Measurement) -> f64 {
    sample.flops as f64 / (sample.elapsed_nanos as f64 / 1e9)
}

fn tukey_flags(values: &[f64]) -> Vec<bool> {
    let mut data = Data::new(values.to_vec());
    let lq = data.lower_quartile();
    let uq = data.upper_quartile();
    let iqr = data.interquartile_range();
    values
        .iter()
        .map(|&v| !(v >= lq - 1.5 * iqr && v <= uq + 1.5 * iqr))
        .collect()
}

#[test]
fn warmup_then_measurement_takes_every_planned_sample() {
    let warmup = BenchmarkRun::new(
        128,
        1,
        StoppingCondition::TimeElapsed(100_000_000),
        exponential_iterations(),
    );
    let warmed = run_phase(warmup, 50_000).unwrap();
    // 1 + 2 + .. + 1024 iterations of 50 us pass the 100 ms mark.
    assert_eq!(warmed.total_iters(), 2047);
    assert_eq!(warmed.len(), 11);
    assert_eq!(warmed.total_time(), 2047 * 50_000);
    let estimate = nanos_per_iteration(warmed.total_time(), warmed.total_iters()).unwrap();
    assert_eq!(estimate, 50_000);

    let (total, d) = triangular(10, 200_000_000, estimate);
    assert_eq!((total, d), (55, 73));
    let measurement = BenchmarkRun::new(
        128,
        1,
        StoppingCondition::IteratorExhausted,
        triangular_iterations(10, 200_000_000, estimate).unwrap(),
    );
    let measured = run_phase(measurement, 50_000).unwrap();
    assert_eq!(measured.len(), 10);
    assert_eq!(measured.total_iters(), 55 * 73);
    for (i, sample) in measured.samples.iter().enumerate() {
        assert_eq!(sample.sample_iters, (i + 1) * 73);
        assert_eq!(sample.flops, (128 * 128 * 128 * 2 + 128 * 128 * 2) * (i + 1) * 73);
        let rate = throughput(sample);
        assert!(rate.is_finite() && rate > 0.0);
    }
}

#[test]
fn time_boxed_phase_overruns_by_at_most_one_sample() {
    let mut run = BenchmarkRun::new(
        4,
        2,
        StoppingCondition::TimeElapsed(10),
        exponential_iterations(),
    );
    assert_eq!(run.next_action(0), Ok(Action::Sample(1)));
    assert_eq!(run.next_action(9), Ok(Action::Sample(2)));
    assert_eq!(run.next_action(10), Ok(Action::Finish));
    assert_eq!(run.next_action(11), Ok(Action::Finish));
    assert_eq!(run.total_iters, 3);
    assert_eq!(run.iterations.peek(), Some(4));
}

#[test]
fn time_boxed_phase_fails_on_an_empty_sequencer() {
    let empty = triangular_iterations(0, 1, 1).unwrap();
    let mut late = BenchmarkRun::new(4, 1, StoppingCondition::TimeElapsed(10), empty);
    assert_eq!(late.next_action(10), Err(BenchError::SequencerExhausted));
    let mut early = BenchmarkRun::new(4, 1, StoppingCondition::TimeElapsed(10), empty);
    assert_eq!(early.next_action(3), Err(BenchError::SequencerExhausted));
}

#[test]
fn exhaustion_bound_phase_ignores_the_clock() {
    let mut run = BenchmarkRun::new(
        4,
        1,
        StoppingCondition::IteratorExhausted,
        triangular_iterations(2, 100, 10).unwrap(),
    );
    assert_eq!(run.next_action(u128::MAX), Ok(Action::Sample(4)));
    assert_eq!(run.next_action(0), Ok(Action::Sample(8)));
    assert_eq!(run.next_action(0), Ok(Action::Finish));
    assert_eq!(run.total_iters, 12);
}

#[test]
fn total_beyond_usize_is_an_overflow_and_takes_no_count() {
    let mut run = BenchmarkRun::new(
        4,
        1,
        StoppingCondition::IteratorExhausted,
        triangular_iterations(2, (usize::MAX / 2) as u128 * 3, 1).unwrap(),
    );
    let first = run.iterations.peek().unwrap();
    assert_eq!(first, usize::MAX / 2);
    assert_eq!(run.next_action(0), Ok(Action::Sample(first)));
    assert_eq!(run.next_action(0), Err(BenchError::ArithmeticOverflow));
    assert_eq!(run.total_iters, first);
    assert_eq!(run.iterations.peek(), Some(2 * first));
}

#[test]
fn record_sample_counts_the_operations() {
    let mut run = BenchmarkRun::new(
        256,
        1,
        StoppingCondition::IteratorExhausted,
        exponential_iterations(),
    );
    assert_eq!(run.record_sample(1, 42), Ok(()));
    assert_eq!(
        run.samples,
        vec![Measurement { sample_iters: 1, flops: 33_685_504, elapsed_nanos: 42 }]
    );
    assert_eq!(run.record_sample(usize::MAX, 42), Err(BenchError::ArithmeticOverflow));
    assert_eq!(run.samples.len(), 1);
}

#[test]
fn calibration_divides_time_by_iterations() {
    assert_eq!(nanos_per_iteration(1_000, 3), Ok(333));
    assert_eq!(nanos_per_iteration(0, 3), Ok(0));
    assert_eq!(nanos_per_iteration(7, 7), Ok(1));
}

#[test]
fn calibration_without_iterations_fails() {
    assert_eq!(nanos_per_iteration(1_000, 0), Err(BenchError::NoWarmupIterations));
    assert_eq!(nanos_per_iteration(0, 0), Err(BenchError::NoWarmupIterations));
}

#[test]
fn planned_work_multiplies() {
    assert_eq!(planned_work(55, 73, 50_000), Some((4015, 200_750_000)));
    assert_eq!(planned_work(0, 73, 50_000), Some((0, 0)));
    assert_eq!(planned_work(usize::MAX, 2, 1), None);
    assert_eq!(planned_work(2, 2, u128::MAX), None);
}

#[test]
fn without_outliers_removes_the_far_sample() {
    let values = [1usize, 2, 3, 4, 5, 100];
    let samples: Vec<Measurement> = values.iter().map(|&v| reading(v)).collect();
    let stats = BenchmarkStats::new(samples, 21, 6_000_000_000);
    let rates: Vec<f64> = stats.samples.iter().map(throughput).collect();
    assert_eq!(rates, vec![1.0, 2.0, 3.0, 4.0, 5.0, 100.0]);
    let flags = tukey_flags(&rates);
    assert_eq!(flags, vec![false, false, false, false, false, true]);
    let pruned = stats.without_outliers(&flags);
    let left: Vec<usize> = pruned.samples.iter().map(|s| s.flops).collect();
    assert_eq!(left, vec![1, 2, 3, 4, 5]);
    assert_eq!(pruned.total_iters(), 21);
    assert_eq!(pruned.total_time(), 6_000_000_000);
    assert_eq!(stats.len() - pruned.len(), 1);
}

#[test]
fn without_outliers_keeps_a_tight_collection() {
    let values = [10usize, 11, 12, 13, 14, 15];
    let samples: Vec<Measurement> = values.iter().map(|&v| reading(v)).collect();
    let stats = BenchmarkStats::new(samples.clone(), 6, 60);
    let rates: Vec<f64> = stats.samples.iter().map(throughput).collect();
    let flags = tukey_flags(&rates);
    assert!(flags.iter().all(|&flag| !flag));
    let pruned = stats.without_outliers(&flags);
    assert_eq!(pruned.samples, samples);
    assert_eq!(pruned.total_iters(), 6);
    assert_eq!(pruned.total_time(), 60);
}

#[test]
fn without_outliers_keeps_the_order_and_unflagged_tail() {
    let samples: Vec<Measurement> = [7usize, 8, 9, 10].iter().map(|&v| reading(v)).collect();
    let stats = BenchmarkStats::new(samples, 4, 4);
    let pruned = stats.without_outliers(&vec![true, false, true]);
    let left: Vec<usize> = pruned.samples.iter().map(|s| s.flops).collect();
    assert_eq!(left, vec![8, 10]);
    let all = stats.without_outliers(&vec![true, true, true, true, true]);
    assert_eq!(all.len(), 0);
    assert_eq!(all.total_iters(), 4);
}

#[test]
fn summary_of_three_readings() {
    let mut data = Data::new(vec![10.0, 20.0, 30.0]);
    assert_eq!(OrderStatistics::median(&mut data), 20.0);
    assert_eq!(data.mean(), Some(20.0));
    // The deviation of a sample: the squares are divided by one less than
    // their number.
    assert_eq!(data.std_dev(), Some(10.0));
}

#[test]
fn exponential_counts_add_up_to_usize_max() {
    let mut run = BenchmarkRun::new(
        1,
        1,
        StoppingCondition::IteratorExhausted,
        exponential_iterations(),
    );
    let mut taken = 0u32;
    loop {
        match run.next_action(0) {
            Ok(Action::Sample(_)) => taken += 1,
            other => {
                assert_eq!(other, Ok(Action::Finish));
                break;
            }
        }
    }
    assert_eq!(taken, usize::BITS);
    assert_eq!(run.total_iters, usize::MAX);
}

#[test]
fn triangular_counts_add_up_to_the_planned_total() {
    let (total, d) = triangular(7, 1_000_000, 13);
    let stats = run_phase(
        BenchmarkRun::new(
            2,
            1,
            StoppingCondition::IteratorExhausted,
            triangular_iterations(7, 1_000_000, 13).unwrap(),
        ),
        13,
    )
    .unwrap();
    assert_eq!(total, 28);
    assert_eq!(stats.total_iters(), total * d);
    assert_eq!(planned_work(total, d, 13).unwrap().0, stats.total_iters());
    // The planned time covers the budget, and one step less would not.
    assert!((total * d * 13) as u128 >= 1_000_000);
    assert!((total * (d - 1) * 13) < 1_000_000);
}
