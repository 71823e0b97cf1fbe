//! The momentum signal: the first difference of consecutive prices.

use vstd::prelude::*;

verus! {

/// Largest magnitude of a price value that `analyze` accepts, chosen so that
/// the difference of two prices always fits in `i64`.
pub const PRICE_ABS_MAX: i64 = 0x2000_0000_0000_0000;

/// The momentum signal at index `i` of a price series: the first difference
/// of consecutive prices. Index 0 has no predecessor, so its signal is 0.
pub open spec fn diff_at(prices: Seq<i64>, i: int) -> int {
    if i == 0 {
        0
    } else {
        prices[i] - prices[i - 1]
    }
}

/// Left-to-right sum of a sequence of signal values, as an unbounded integer.
pub open spec fn sum_of(s: Seq<i64>) -> int
    decreases s.len(),
{
    if s.len() == 0 {
        0
    } else {
        sum_of(s.drop_last()) + s.last()
    }
}

/// A sum of values that all lie within `[-bound, bound]` lies within
/// `[-len * bound, len * bound]`.
pub proof fn lemma_sum_bound(s: Seq<i64>, bound: int)
    requires
        bound >= 0,
        forall|i: int| 0 <= i < s.len() ==> -bound <= #[trigger] s[i] <= bound,
    ensures
        -(s.len() * bound) <= sum_of(s) <= s.len() * bound,
    decreases s.len(),
{
    if s.len() > 0 {
        assert(forall|i: int|
            0 <= i < s.drop_last().len() ==> -bound <= #[trigger] s.drop_last()[i] <= bound);
        lemma_sum_bound(s.drop_last(), bound);
        assert((s.len() - 1) * bound + bound == s.len() * bound) by (nonlinear_arith);
    }
}

/// Compute the momentum signal of a price series on the host.
///
/// This is the reference semantics of the device kernel: one output element
/// per input element, `signals[0]` left at the zero the output buffer was
/// initialized with, and `signals[i] = prices[i] - prices[i-1]` for `i >= 1`.
/// An empty series yields an empty signal series.
pub fn analyze(prices: &Vec<i64>) -> (signals: Vec<i64>)
    requires
        forall|i: int|
            0 <= i < prices@.len() ==> -PRICE_ABS_MAX <= #[trigger] prices@[i] <= PRICE_ABS_MAX,
    ensures
        signals@.len() == prices@.len(),
        forall|i: int| 0 <= i < signals@.len() ==> #[trigger] signals@[i] == diff_at(prices@, i),
{
    let n = prices.len();
    let mut signals: Vec<i64> = Vec::new();
    let mut i: usize = 0;
    while i < n
        invariant
            i <= n,
            n == prices@.len(),
            signals@.len() == i,
            forall|i: int|
                0 <= i < prices@.len() ==> -PRICE_ABS_MAX <= #[trigger] prices@[i] <= PRICE_ABS_MAX,
            forall|j: int| 0 <= j < i ==> #[trigger] signals@[j] == diff_at(prices@, j),
        decreases n - i,
    {
        if i == 0 {
            signals.push(0);
        } else {
            let d = prices[i] - prices[i - 1];
            signals.push(d);
        }
        i = i + 1;
    }
    signals
}

} // verus!
