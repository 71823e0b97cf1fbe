use trade_hpc::aggregate::{aggregate, chunk_sum, reduce_outcomes, AggregationError};
use trade_hpc::chunking::{partition, CHUNK_SIZE};
use trade_hpc::device::{launch_config, AcceleratorError, DeviceStep, Executor, BLOCK_SIZE};
use trade_hpc::generator::{generate_market_data, PRICE_HIGH, PRICE_LOW};
use trade_hpc::pipeline::run_pipeline;
use trade_hpc::signal::analyze;

fn sequential_sum(values: &[i64]) -> i64 {
    let mut total: i64 = 0;
    for v in values {
        total += v;
    }
    total
}

#[test]
fn generate_len_zero() {
    let prices = generate_market_data(0);
    assert_eq!(prices.len(), 0);
}

#[test]
fn generate_len_and_bounds() {
    for n in [1usize, 7, 100, 2500] {
        let prices = generate_market_data(n);
        assert_eq!(prices.len(), n);
        for p in &prices {
            assert!(PRICE_LOW <= *p && *p < PRICE_HIGH);
        }
    }
}

#[test]
fn analyze_empty_series() {
    let signals = analyze(&Vec::new());
    assert!(signals.is_empty());
}

#[test]
fn analyze_first_difference() {
    // 100.00, 105.00, 102.00 in hundredths of a unit.
    let prices = vec![10_000, 10_500, 10_200];
    let signals = analyze(&prices);
    assert_eq!(signals, vec![0, 500, -300]);
}

#[test]
fn analyze_single_tick_is_zero() {
    let signals = analyze(&vec![12_345]);
    assert_eq!(signals, vec![0]);
}

#[test]
fn partition_concat_reproduces_series() {
    let cases: [(usize, usize); 5] = [(0, 3), (1, 3), (7, 3), (9, 3), (5, 8)];
    for (n, c) in cases {
        let data: Vec<i64> = (0..n as i64).collect();
        let chunks = partition(&data, c);
        let rebuilt: Vec<i64> = chunks.iter().flatten().copied().collect();
        assert_eq!(rebuilt, data);
        for (k, chunk) in chunks.iter().enumerate() {
            if k + 1 < chunks.len() {
                assert_eq!(chunk.len(), c);
            } else {
                assert!(1 <= chunk.len() && chunk.len() <= c);
            }
        }
    }
}

#[test]
fn partition_2500_makes_three_chunks() {
    let data: Vec<i64> = (0..2500).collect();
    let chunks = partition(&data, CHUNK_SIZE);
    assert_eq!(chunks.len(), 3);
    assert_eq!(chunks[0].len(), 1000);
    assert_eq!(chunks[1].len(), 1000);
    assert_eq!(chunks[2].len(), 500);
}

#[test]
fn chunk_sum_adds_left_to_right() {
    assert_eq!(chunk_sum(&vec![1, -2, 3, 4]), 6);
    assert_eq!(chunk_sum(&Vec::new()), 0);
}

#[test]
fn aggregate_empty_is_zero() {
    assert_eq!(aggregate(&Vec::new()), 0);
}

#[test]
fn aggregate_matches_sequential_sum() {
    for n in [1usize, 999, 1000, 1001, 2500] {
        let signals: Vec<i64> = (0..n as i64).map(|i| 3 * i - 1000).collect();
        assert_eq!(aggregate(&signals), sequential_sum(&signals));
    }
}

#[test]
fn momentum_scenario_total() {
    // Prices 100.00, 105.00, 102.00 give signals 0.00, 5.00, -3.00 and a
    // total of 2.00; values are in hundredths of a unit.
    let prices = vec![10_000, 10_500, 10_200];
    let signals = analyze(&prices);
    assert_eq!(signals, vec![0, 500, -300]);
    let total = aggregate(&signals);
    assert_eq!(total, 200);
    assert_eq!(total as f32 / 100.0, 2.0);
}

#[test]
fn pipeline_run_ties_stages_together() {
    for n in [0usize, 3, 2500] {
        let run = run_pipeline(n);
        assert_eq!(run.prices.len(), n);
        assert_eq!(run.signals.len(), n);
        if n > 0 {
            assert_eq!(run.signals[0], 0);
        }
        for i in 1..n {
            assert_eq!(run.signals[i], run.prices[i] - run.prices[i - 1]);
        }
        assert_eq!(run.total, sequential_sum(&run.signals));
    }
}

#[test]
fn pipeline_run_empty_total_is_zero() {
    let run = run_pipeline(0);
    assert_eq!(run.total, 0);
}

#[test]
fn reduce_outcomes_all_completed() {
    let outcomes = vec![Some(10), Some(-4), Some(7)];
    assert_eq!(reduce_outcomes(&outcomes), Ok(13));
    assert_eq!(reduce_outcomes(&Vec::new()), Ok(0));
}

#[test]
fn reduce_outcomes_reports_first_failure() {
    let outcomes = vec![Some(10), None, Some(7), None];
    assert_eq!(reduce_outcomes(&outcomes), Err(AggregationError { chunk_index: 1 }));
}

#[test]
fn launch_config_covers_all_elements() {
    assert_eq!(launch_config(0), 0);
    assert_eq!(launch_config(1), 1);
    assert_eq!(launch_config(256), 1);
    assert_eq!(launch_config(257), 2);
    assert_eq!(launch_config(2500), 10);
    for n in [0usize, 1, 255, 256, 257, 2500, 100_000] {
        let grid = launch_config(n);
        assert!(grid * BLOCK_SIZE >= n);
        if n > 0 {
            assert!((grid - 1) * BLOCK_SIZE < n);
        }
    }
}

#[test]
fn executor_success_path_releases_everything() {
    let mut ex = Executor::new();
    let forward = [
        DeviceStep::Init,
        DeviceStep::SelectDevice,
        DeviceStep::CreateContext,
        DeviceStep::LoadModule,
        DeviceStep::CreateStream,
        DeviceStep::AllocInput,
        DeviceStep::AllocOutput,
        DeviceStep::Launch,
        DeviceStep::CopyBack,
    ];
    for step in forward {
        assert_eq!(ex.pending, Some(step));
        ex.report(true);
    }
    let releases = [
        DeviceStep::ReleaseOutput,
        DeviceStep::ReleaseInput,
        DeviceStep::ReleaseStream,
        DeviceStep::ReleaseModule,
        DeviceStep::ReleaseContext,
    ];
    for step in releases {
        assert_eq!(ex.pending, Some(step));
        ex.report(true);
    }
    assert_eq!(ex.pending, None);
    assert_eq!(ex.failure, None);
    assert!(!ex.ctx_held && !ex.module_held && !ex.stream_held);
    assert!(!ex.input_held && !ex.output_held);
}

#[test]
fn executor_setup_failure_leaves_nothing_held() {
    // The accelerator is unavailable: context creation fails before any
    // resource was acquired, so nothing is left to release.
    let mut ex = Executor::new();
    ex.report(true); // Init
    ex.report(true); // SelectDevice
    assert_eq!(ex.pending, Some(DeviceStep::CreateContext));
    ex.report(false);
    assert_eq!(
        ex.failure,
        Some(AcceleratorError::SetupError(DeviceStep::CreateContext))
    );
    assert_eq!(ex.pending, None);
    assert!(!ex.ctx_held && !ex.module_held && !ex.stream_held);
    assert!(!ex.input_held && !ex.output_held);
}

#[test]
fn executor_setup_failure_releases_acquired_resources() {
    // Allocation of the output buffer fails: the input buffer, stream,
    // module and context were acquired and must all be released.
    let mut ex = Executor::new();
    for _ in 0..6 {
        ex.report(true); // Init .. AllocInput
    }
    assert_eq!(ex.pending, Some(DeviceStep::AllocOutput));
    ex.report(false);
    assert_eq!(
        ex.failure,
        Some(AcceleratorError::SetupError(DeviceStep::AllocOutput))
    );
    let releases = [
        DeviceStep::ReleaseInput,
        DeviceStep::ReleaseStream,
        DeviceStep::ReleaseModule,
        DeviceStep::ReleaseContext,
    ];
    for step in releases {
        assert_eq!(ex.pending, Some(step));
        ex.report(true);
    }
    assert_eq!(ex.pending, None);
    assert!(!ex.ctx_held && !ex.module_held && !ex.stream_held);
    assert!(!ex.input_held && !ex.output_held);
}

#[test]
fn executor_launch_failure_is_execution_error() {
    let mut ex = Executor::new();
    for _ in 0..7 {
        ex.report(true); // Init .. AllocOutput
    }
    assert_eq!(ex.pending, Some(DeviceStep::Launch));
    ex.report(false);
    assert_eq!(
        ex.failure,
        Some(AcceleratorError::ExecutionError(DeviceStep::Launch))
    );
    while ex.pending.is_some() {
        ex.report(true);
    }
    assert!(!ex.ctx_held && !ex.module_held && !ex.stream_held);
    assert!(!ex.input_held && !ex.output_held);
}
