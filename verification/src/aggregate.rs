//! Chunked aggregation of a signal series: per-chunk partial sums combined
//! into one total in chunk-submission order, and the fan-in decision that
//! turns per-task outcomes into a total or a failure.

use vstd::prelude::*;

use crate::chunking::{
    chunk_at, chunks_of, lemma_chunk_at_wf, lemma_chunk_prefix, lemma_chunked_total,
    lemma_num_chunks, lemma_total_of_concat, num_chunks, partition, prefix_end, total_of,
    CHUNK_SIZE,
};
use crate::signal::{lemma_sum_bound, sum_of};

verus! {

/// Largest series length the aggregation stage accepts, chosen together
/// with `SIGNAL_ABS_MAX` so that no partial or total sum overflows `i64`.
pub const MAX_SERIES_LEN: usize = 0x4000_0000;

/// Largest magnitude of one signal value the aggregation stage accepts.
pub const SIGNAL_ABS_MAX: i64 = 0x8000_0000;

/// Largest number of per-task outcomes `reduce_outcomes` accepts.
pub const MAX_CHUNK_COUNT: usize = 0x20_0000;

/// Largest magnitude of one partial sum `reduce_outcomes` accepts: a full
/// chunk of values at the signal bound.
pub const PARTIAL_ABS_MAX: i64 = 1000 * 0x8000_0000;

/// A concurrent summation task failed to complete. `chunk_index` names the
/// first chunk, in submission order, whose task returned no partial sum.
#[derive(Clone, Copy, Debug, PartialEq, Eq, Structural)]
pub struct AggregationError {
    pub chunk_index: usize,
}

/// Multiplying both sides of `0 <= a <= c` by a non-negative `b` keeps the
/// order.
proof fn lemma_mul_le(a: int, b: int, c: int)
    requires
        0 <= a <= c,
        b >= 0,
    ensures
        a * b <= c * b,
{
    assert(a * b <= c * b) by (nonlinear_arith)
        requires
            0 <= a <= c,
            b >= 0,
    ;
}

/// Sum one chunk's values by left-to-right addition.
pub fn chunk_sum(chunk: &Vec<i64>) -> (partial: i64)
    requires
        chunk@.len() <= MAX_SERIES_LEN,
        forall|i: int|
            0 <= i < chunk@.len() ==> -SIGNAL_ABS_MAX <= #[trigger] chunk@[i] <= SIGNAL_ABS_MAX,
    ensures
        partial == sum_of(chunk@),
{
    let mut acc: i64 = 0;
    let mut i: usize = 0;
    while i < chunk.len()
        invariant
            i <= chunk@.len(),
            chunk@.len() <= MAX_SERIES_LEN,
            forall|j: int|
                0 <= j < chunk@.len() ==> -SIGNAL_ABS_MAX <= #[trigger] chunk@[j] <= SIGNAL_ABS_MAX,
            acc == sum_of(chunk@.take(i as int)),
        decreases chunk@.len() - i,
    {
        proof {
            let t1 = chunk@.take(i as int + 1);
            assert(t1.drop_last() =~= chunk@.take(i as int));
            assert(t1.last() == chunk@[i as int]);
            assert(forall|j: int|
                0 <= j < t1.len() ==> -SIGNAL_ABS_MAX <= #[trigger] t1[j] <= SIGNAL_ABS_MAX);
            lemma_sum_bound(t1, SIGNAL_ABS_MAX as int);
            lemma_mul_le(t1.len() as int, SIGNAL_ABS_MAX as int, MAX_SERIES_LEN as int);
        }
        acc = acc + chunk[i];
        i = i + 1;
    }
    proof {
        assert(chunk@.take(chunk@.len() as int) =~= chunk@);
    }
    acc
}

/// Aggregate a signal series: partition it into chunks of `CHUNK_SIZE`, sum
/// each chunk left to right, and combine the partial sums in chunk order.
/// The result is exactly the sequential left-to-right sum of the series; an
/// empty series yields 0.
pub fn aggregate(signals: &Vec<i64>) -> (total: i64)
    requires
        signals@.len() <= MAX_SERIES_LEN,
        forall|i: int|
            0 <= i < signals@.len() ==> -SIGNAL_ABS_MAX <= #[trigger] signals@[i] <= SIGNAL_ABS_MAX,
    ensures
        total == sum_of(signals@),
{
    let ghost s = signals@;
    let ghost c = CHUNK_SIZE as int;
    let chunks = partition(signals, CHUNK_SIZE);
    proof {
        lemma_num_chunks(s.len() as int, c);
    }
    let mut total: i64 = 0;
    let mut k: usize = 0;
    while k < chunks.len()
        invariant
            s == signals@,
            c == CHUNK_SIZE as int,
            s.len() <= MAX_SERIES_LEN,
            forall|i: int| 0 <= i < s.len() ==> -SIGNAL_ABS_MAX <= #[trigger] s[i] <= SIGNAL_ABS_MAX,
            chunks@.len() == num_chunks(s.len() as int, c),
            forall|j: int| 0 <= j < chunks@.len() ==> #[trigger] chunks@[j]@ == chunk_at(s, c, j),
            k <= chunks@.len(),
            total == total_of(chunks_of(s, c).take(k as int)),
        decreases chunks@.len() - k,
    {
        proof {
            lemma_chunk_at_wf(s, c, k as int);
            assert(chunks@[k as int]@ == chunk_at(s, c, k as int));
            assert(forall|j: int|
                0 <= j < chunks@[k as int]@.len()
                    ==> -SIGNAL_ABS_MAX <= #[trigger] chunks@[k as int]@[j] <= SIGNAL_ABS_MAX);
        }
        let partial = chunk_sum(&chunks[k]);
        proof {
            let ck = chunks_of(s, c);
            assert(ck.take(k as int + 1).drop_last() =~= ck.take(k as int));
            assert(ck.take(k as int + 1).last() == ck[k as int]);
            assert(ck[k as int] == chunk_at(s, c, k as int));
            lemma_chunk_prefix(s, c, k as int + 1);
            lemma_total_of_concat(ck.take(k as int + 1));
            let p = s.take(prefix_end(s.len() as int, c, k as int + 1));
            assert(forall|j: int|
                0 <= j < p.len() ==> -SIGNAL_ABS_MAX <= #[trigger] p[j] <= SIGNAL_ABS_MAX);
            lemma_sum_bound(p, SIGNAL_ABS_MAX as int);
            lemma_mul_le(p.len() as int, SIGNAL_ABS_MAX as int, MAX_SERIES_LEN as int);
            assert(total + partial == total_of(ck.take(k as int + 1)));
        }
        total = total + partial;
        k = k + 1;
    }
    proof {
        assert(chunks_of(s, c).take(chunks@.len() as int) =~= chunks_of(s, c));
        lemma_chunked_total(s, c);
    }
    total
}

/// Every per-task outcome carries a partial sum.
pub open spec fn all_completed(s: Seq<Option<i64>>) -> bool {
    forall|k: int| 0 <= k < s.len() ==> (#[trigger] s[k]) is Some
}

/// The left-to-right sum of the completed outcomes' partial sums.
pub open spec fn completed_total(s: Seq<Option<i64>>) -> int
    decreases s.len(),
{
    if s.len() == 0 {
        0
    } else {
        completed_total(s.drop_last()) + (if s.last() is Some {
            s.last()->0 as int
        } else {
            0
        })
    }
}

/// A sum of partial sums that all lie within the partial bound lies within
/// `len * PARTIAL_ABS_MAX`.
proof fn lemma_completed_total_bound(s: Seq<Option<i64>>)
    requires
        forall|k: int|
            0 <= k < s.len() && (#[trigger] s[k]) is Some
                ==> -PARTIAL_ABS_MAX <= s[k]->0 <= PARTIAL_ABS_MAX,
    ensures
        -(s.len() * PARTIAL_ABS_MAX) <= completed_total(s) <= s.len() * PARTIAL_ABS_MAX,
    decreases s.len(),
{
    if s.len() > 0 {
        assert(forall|k: int|
            0 <= k < s.drop_last().len() && (#[trigger] s.drop_last()[k]) is Some
                ==> -PARTIAL_ABS_MAX <= s.drop_last()[k]->0 <= PARTIAL_ABS_MAX);
        lemma_completed_total_bound(s.drop_last());
        assert((s.len() - 1) * (PARTIAL_ABS_MAX as int) + PARTIAL_ABS_MAX == s.len()
            * (PARTIAL_ABS_MAX as int)) by (nonlinear_arith);
    }
}

/// Fan-in decision of the aggregation stage: combine the per-task outcomes
/// in chunk-submission order. If every task completed, the result is the
/// ordered sum of the partial sums; if any task failed to complete, the
/// whole aggregation fails, naming the first failed chunk, and no partial
/// total is returned.
pub fn reduce_outcomes(outcomes: &Vec<Option<i64>>) -> (r: Result<i64, AggregationError>)
    requires
        outcomes@.len() <= MAX_CHUNK_COUNT,
        forall|k: int|
            0 <= k < outcomes@.len() && (#[trigger] outcomes@[k]) is Some
                ==> -PARTIAL_ABS_MAX <= outcomes@[k]->0 <= PARTIAL_ABS_MAX,
    ensures
        (r is Ok <==> all_completed(outcomes@)),
        r is Ok ==> r->Ok_0 == completed_total(outcomes@),
        r is Err ==> r->Err_0.chunk_index < outcomes@.len()
            && outcomes@[r->Err_0.chunk_index as int] is None
            && (forall|j: int|
                0 <= j < r->Err_0.chunk_index ==> (#[trigger] outcomes@[j]) is Some),
{
    let mut total: i64 = 0;
    let mut k: usize = 0;
    while k < outcomes.len()
        invariant
            k <= outcomes@.len(),
            outcomes@.len() <= MAX_CHUNK_COUNT,
            forall|j: int|
                0 <= j < outcomes@.len() && (#[trigger] outcomes@[j]) is Some
                    ==> -PARTIAL_ABS_MAX <= outcomes@[j]->0 <= PARTIAL_ABS_MAX,
            forall|j: int| 0 <= j < k ==> (#[trigger] outcomes@[j]) is Some,
            total == completed_total(outcomes@.take(k as int)),
        decreases outcomes@.len() - k,
    {
        let o: Option<i64> = outcomes[k];
        match o {
            Some(v) => {
                proof {
                    let t1 = outcomes@.take(k as int + 1);
                    assert(t1.drop_last() =~= outcomes@.take(k as int));
                    assert(t1.last() == outcomes@[k as int]);
                    assert(forall|j: int|
                        0 <= j < t1.len() && (#[trigger] t1[j]) is Some
                            ==> -PARTIAL_ABS_MAX <= t1[j]->0 <= PARTIAL_ABS_MAX);
                    lemma_completed_total_bound(t1);
                    lemma_mul_le(
                        t1.len() as int,
                        PARTIAL_ABS_MAX as int,
                        MAX_CHUNK_COUNT as int,
                    );
                }
                total = total + v;
            },
            None => {
                proof {
                    assert(!all_completed(outcomes@)) by {
                        assert(outcomes@[k as int] is None);
                    }
                }
                return Err(AggregationError { chunk_index: k });
            },
        }
        k = k + 1;
    }
    proof {
        assert(outcomes@.take(outcomes@.len() as int) =~= outcomes@);
    }
    Ok(total)
}

} // verus!
