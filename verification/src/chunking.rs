//! Partitioning a signal series into fixed-size contiguous chunks, and the
//! laws tying the partition back to the original series.

use rayon::iter::ParallelIterator;
use rayon::slice::ParallelSlice;
use vstd::arithmetic::div_mod::lemma_fundamental_div_mod;
use vstd::prelude::*;

use crate::signal::sum_of;

verus! {

/// Number of signal values in one chunk of the aggregation stage.
pub const CHUNK_SIZE: usize = 1000;

/// How many chunks a series of length `n` splits into under chunk size `c`:
/// the ceiling of `n / c`.
pub open spec fn num_chunks(n: int, c: int) -> int {
    (n + c - 1) / c
}

/// Where the prefix made of the first `k` chunks of a series of length `n`
/// ends: `k * c`, capped at `n` for the final, possibly shorter, chunk.
pub open spec fn prefix_end(n: int, c: int, k: int) -> int {
    if k * c <= n {
        k * c
    } else {
        n
    }
}

/// The `k`-th chunk of `s` under chunk size `c`.
pub open spec fn chunk_at(s: Seq<i64>, c: int, k: int) -> Seq<i64> {
    s.subrange(k * c, prefix_end(s.len() as int, c, k + 1))
}

/// The partition of `s` into contiguous chunks of `c` values each, in index
/// order; the final chunk may be shorter when `c` does not divide `s.len()`.
pub open spec fn chunks_of(s: Seq<i64>, c: int) -> Seq<Seq<i64>> {
    Seq::new(num_chunks(s.len() as int, c) as nat, |k: int| chunk_at(s, c, k))
}

/// The chunks of `ss` joined back into one sequence, in order.
pub open spec fn concat_of(ss: Seq<Seq<i64>>) -> Seq<i64>
    decreases ss.len(),
{
    if ss.len() == 0 {
        Seq::empty()
    } else {
        concat_of(ss.drop_last()) + ss.last()
    }
}

/// The partial sums of the chunks of `ss`, combined in chunk order.
pub open spec fn total_of(ss: Seq<Seq<i64>>) -> int
    decreases ss.len(),
{
    if ss.len() == 0 {
        0
    } else {
        total_of(ss.drop_last()) + sum_of(ss.last())
    }
}

/// Arithmetic facts about the chunk count: `num_chunks(n, c)` chunks of `c`
/// values cover all `n` values, and one chunk fewer does not.
pub proof fn lemma_num_chunks(n: int, c: int)
    requires
        n >= 0,
        c >= 1,
    ensures
        num_chunks(n, c) >= 0,
        num_chunks(n, c) * c >= n,
        n > 0 ==> (num_chunks(n, c) - 1) * c < n,
        n == 0 ==> num_chunks(n, c) == 0,
{
    lemma_fundamental_div_mod(n + c - 1, c);
    let q = (n + c - 1) / c;
    let r = (n + c - 1) % c;
    assert(0 <= r < c);
    assert(n + c - 1 == c * q + r);
    assert(c * q == q * c) by (nonlinear_arith);
    assert((q - 1) * c == q * c - c) by (nonlinear_arith);
    assert(q >= 0) by (nonlinear_arith)
        requires
            q * c >= 0,
            c >= 1,
    ;
}

/// Shape of one chunk: the `k`-th chunk starts at `k * c`, holds at most `c`
/// values, is never empty, and holds exactly the series values it covers.
pub proof fn lemma_chunk_at_wf(s: Seq<i64>, c: int, k: int)
    requires
        c >= 1,
        0 <= k < num_chunks(s.len() as int, c),
    ensures
        0 <= k * c < s.len(),
        k * c < prefix_end(s.len() as int, c, k + 1) <= s.len(),
        chunk_at(s, c, k).len() == prefix_end(s.len() as int, c, k + 1) - k * c,
        chunk_at(s, c, k).len() <= c,
        forall|j: int|
            0 <= j < chunk_at(s, c, k).len() ==> #[trigger] chunk_at(s, c, k)[j] == s[k * c + j],
{
    let n = s.len() as int;
    lemma_num_chunks(n, c);
    assert(k * c >= 0) by (nonlinear_arith)
        requires
            k >= 0,
            c >= 1,
    ;
    assert(k * c < n) by {
        assert(k <= num_chunks(n, c) - 1);
        assert(k * c <= (num_chunks(n, c) - 1) * c) by (nonlinear_arith)
            requires
                k <= num_chunks(n, c) - 1,
                c >= 1,
        ;
        if n == 0 {
            assert(num_chunks(n, c) == 0);
        }
    }
    assert((k + 1) * c == k * c + c) by (nonlinear_arith);
}

/// Concatenating the first `k` chunks of `s` yields exactly the prefix of
/// `s` that those chunks cover.
pub proof fn lemma_chunk_prefix(s: Seq<i64>, c: int, k: int)
    requires
        c >= 1,
        0 <= k <= num_chunks(s.len() as int, c),
    ensures
        concat_of(chunks_of(s, c).take(k)) == s.take(prefix_end(s.len() as int, c, k)),
    decreases k,
{
    let n = s.len() as int;
    lemma_num_chunks(n, c);
    if k == 0 {
        assert(chunks_of(s, c).take(0) =~= Seq::<Seq<i64>>::empty());
        assert(s.take(0) =~= Seq::<i64>::empty());
        assert(concat_of(chunks_of(s, c).take(k)) == s.take(prefix_end(n, c, k)));
    } else {
        lemma_chunk_prefix(s, c, k - 1);
        assert(chunks_of(s, c).take(k).drop_last() =~= chunks_of(s, c).take(k - 1));
        assert(chunks_of(s, c).take(k).last() == chunk_at(s, c, k - 1));
        let lo = (k - 1) * c;
        let hi = prefix_end(n, c, k);
        assert(lo == k * c - c) by (nonlinear_arith)
            requires
                lo == (k - 1) * c,
        ;
        assert(lo >= 0) by (nonlinear_arith)
            requires
                k >= 1,
                c >= 1,
                lo == (k - 1) * c,
        ;
        assert(lo < n) by {
            assert(k - 1 <= num_chunks(n, c) - 1);
            assert((k - 1) * c <= (num_chunks(n, c) - 1) * c) by (nonlinear_arith)
                requires
                    k - 1 <= num_chunks(n, c) - 1,
                    c >= 1,
            ;
            if n > 0 {
            } else {
                assert(num_chunks(n, c) == 0);
            }
        }
        assert(prefix_end(n, c, k - 1) == lo);
        assert(lo <= hi <= n);
        let left = s.take(lo) + s.subrange(lo, hi);
        assert forall|j: int| 0 <= j < hi implies left[j] == s[j] by {
            if j < lo {
                assert(left[j] == s.take(lo)[j]);
            } else {
                assert(left[j] == s.subrange(lo, hi)[j - lo]);
            }
        }
        assert(left =~= s.take(hi));
        assert(chunk_at(s, c, k - 1) == s.subrange(lo, hi));
        assert(concat_of(chunks_of(s, c).take(k)) == left);
        assert(concat_of(chunks_of(s, c).take(k)) == s.take(prefix_end(n, c, k)));
    }
}

/// Partitioning a series into chunks and concatenating the chunks in order
/// reproduces the series exactly, for every chunk size of at least 1.
pub proof fn lemma_chunks_concat(s: Seq<i64>, c: int)
    requires
        c >= 1,
    ensures
        concat_of(chunks_of(s, c)) == s,
{
    let n = s.len() as int;
    lemma_num_chunks(n, c);
    let k = num_chunks(n, c);
    lemma_chunk_prefix(s, c, k);
    assert(chunks_of(s, c).take(k) =~= chunks_of(s, c));
    assert(prefix_end(n, c, k) == n);
    assert(s.take(n) =~= s);
}

/// The sum of a concatenation is the sum of the parts.
pub proof fn lemma_sum_append(a: Seq<i64>, b: Seq<i64>)
    ensures
        sum_of(a + b) == sum_of(a) + sum_of(b),
    decreases b.len(),
{
    if b.len() == 0 {
        assert(a + b =~= a);
    } else {
        lemma_sum_append(a, b.drop_last());
        assert((a + b).drop_last() =~= a + b.drop_last());
        assert((a + b).last() == b.last());
    }
}

/// Combining per-chunk partial sums in chunk order gives the sum of the
/// concatenation of the chunks.
pub proof fn lemma_total_of_concat(ss: Seq<Seq<i64>>)
    ensures
        total_of(ss) == sum_of(concat_of(ss)),
    decreases ss.len(),
{
    if ss.len() > 0 {
        lemma_total_of_concat(ss.drop_last());
        lemma_sum_append(concat_of(ss.drop_last()), ss.last());
    }
}

/// Chunked aggregation is equivalent to one sequential left-to-right sum of
/// the whole series, regardless of the chunk size.
pub proof fn lemma_chunked_total(s: Seq<i64>, c: int)
    requires
        c >= 1,
    ensures
        total_of(chunks_of(s, c)) == sum_of(s),
{
    lemma_total_of_concat(chunks_of(s, c));
    lemma_chunks_concat(s, c);
}

/// Relies on rayon's `par_chunks`: non-overlapping contiguous chunks of
/// `chunk_size` elements of the slice, in index order, with only the final
/// chunk possibly shorter. The closure handed to rayon only copies each
/// borrowed chunk into an owned vector. `par_chunks` panics only on a chunk
/// size of zero, which the precondition excludes.
#[verifier::external_body]
fn par_chunk_vecs(data: &Vec<i64>, chunk_size: usize) -> (r: Vec<Vec<i64>>)
    requires
        chunk_size >= 1,
    ensures
        r@.len() == num_chunks(data@.len() as int, chunk_size as int),
        forall|k: int|
            0 <= k < r@.len() ==> #[trigger] r@[k]@ == chunk_at(data@, chunk_size as int, k),
{
    data.par_chunks(chunk_size).map(|c: &[i64]| c.to_vec()).collect()
}

/// Partition `signals` into contiguous chunks of `chunk_size` values, in
/// index order; the final chunk may be shorter. The partitioning work runs
/// data-parallel across CPU cores, which does not affect the result.
pub fn partition(signals: &Vec<i64>, chunk_size: usize) -> (chunks: Vec<Vec<i64>>)
    requires
        chunk_size >= 1,
    ensures
        chunks@.len() == num_chunks(signals@.len() as int, chunk_size as int),
        forall|k: int|
            0 <= k < chunks@.len()
                ==> #[trigger] chunks@[k]@ == chunk_at(signals@, chunk_size as int, k),
{
    par_chunk_vecs(signals, chunk_size)
}

} // verus!
