//! Synthetic price generation: `n` independent draws from a fixed bounded
//! range, held as fixed-point integers (hundredths of a price unit).

use rand::Rng;
use vstd::prelude::*;

verus! {

/// Inclusive lower bound of a generated price, in hundredths of a unit.
pub const PRICE_LOW: i64 = 10_000;

/// Exclusive upper bound of a generated price, in hundredths of a unit.
pub const PRICE_HIGH: i64 = 20_000;

/// Relies on rand's `Rng::gen_range` over the half-open `i64` range
/// `low..high`: a draw that lies in `[low, high)`. `gen_range` panics on an
/// empty range, which the precondition excludes; an unavailable entropy
/// source aborts `thread_rng` and is fatal, as the pipeline treats it.
/// Nothing more is claimed of the draw: two calls on the same bounds may
/// differ.
#[verifier::external_body]
fn draw_price(low: i64, high: i64) -> (r: i64)
    requires
        low < high,
    ensures
        low <= r < high,
{
    rand::thread_rng().gen_range(low..high)
}

/// Produce a price series of exactly `n` synthetic ticks, each within
/// `[PRICE_LOW, PRICE_HIGH)`.
pub fn generate_market_data(n: usize) -> (prices: Vec<i64>)
    ensures
        prices@.len() == n,
        forall|i: int| 0 <= i < n ==> PRICE_LOW <= #[trigger] prices@[i] < PRICE_HIGH,
{
    let mut prices: Vec<i64> = Vec::new();
    let mut i: usize = 0;
    while i < n
        invariant
            i <= n,
            prices@.len() == i,
            forall|j: int| 0 <= j < i ==> PRICE_LOW <= #[trigger] prices@[j] < PRICE_HIGH,
        decreases n - i,
    {
        let p = draw_price(PRICE_LOW, PRICE_HIGH);
        prices.push(p);
        i = i + 1;
    }
    prices
}

} // verus!
