//! The whole pipeline on the host model: generate prices, compute the
//! momentum signal, aggregate the signal into one total.

use vstd::prelude::*;

use crate::aggregate::{aggregate, MAX_SERIES_LEN, SIGNAL_ABS_MAX};
use crate::generator::{generate_market_data, PRICE_HIGH, PRICE_LOW};
use crate::signal::{analyze, diff_at, sum_of};

verus! {

/// The values one pipeline run produced, tied together by the run's
/// contract: `signals` is the momentum signal of `prices`, and `total` is
/// its sum.
pub struct PipelineRun {
    /// The generated price series, in hundredths of a price unit.
    pub prices: Vec<i64>,
    /// The momentum signal of `prices`.
    pub signals: Vec<i64>,
    /// The aggregated signal strength: the sum of `signals`.
    pub total: i64,
}

/// Run the pipeline for `n` ticks: synthesize `n` prices, compute their
/// momentum signal, and aggregate it. Every stage's output is returned, so
/// the contract can tie each stage to the one before it.
pub fn run_pipeline(n: usize) -> (run: PipelineRun)
    requires
        n <= MAX_SERIES_LEN,
    ensures
        run.prices@.len() == n,
        forall|i: int| 0 <= i < n ==> PRICE_LOW <= #[trigger] run.prices@[i] < PRICE_HIGH,
        run.signals@.len() == n,
        forall|i: int| 0 <= i < n ==> #[trigger] run.signals@[i] == diff_at(run.prices@, i),
        run.total == sum_of(run.signals@),
{
    let prices = generate_market_data(n);
    proof {
        assert(forall|i: int|
            0 <= i < prices@.len() ==> -crate::signal::PRICE_ABS_MAX <= #[trigger] prices@[i]
                <= crate::signal::PRICE_ABS_MAX);
    }
    let signals = analyze(&prices);
    proof {
        assert forall|i: int| 0 <= i < signals@.len() implies -SIGNAL_ABS_MAX
            <= #[trigger] signals@[i] <= SIGNAL_ABS_MAX by {
            assert(signals@[i] == diff_at(prices@, i));
            if i > 0 {
                assert(PRICE_LOW <= prices@[i] < PRICE_HIGH);
                assert(PRICE_LOW <= prices@[i - 1] < PRICE_HIGH);
            }
        }
    }
    let total = aggregate(&signals);
    PipelineRun { prices, signals, total }
}

} // verus!
