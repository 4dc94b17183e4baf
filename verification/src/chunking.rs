//! Partition of a work sequence into fixed-size batches.
//!
//! Chunked submission turns a sequence of items into batches: every batch is
//! full except possibly the last, batch boundaries are contiguous,
//! non-overlapping and exhaustive, and the order of items inside a batch is
//! the input order. Concatenating the batches in creation order reconstructs
//! the input exactly; the proof of that stands at the end of this module.

use vstd::prelude::*;

verus! {

use vstd::arithmetic::div_mod::lemma_fundamental_div_mod_converse;
use vstd::arithmetic::mul::lemma_mul_inequality;
use vstd::seq_lib::lemma_flatten_concat;

/// How many batches a sequence of `n` items yields at chunk size `c`: the
/// least number of batches of at most `c` items each that covers all `n`.
pub open spec fn spec_chunk_count(n: int, c: int) -> int
    recommends
        c >= 1,
{
    (n + c - 1) / c
}

/// Where batch `i` begins: every earlier batch holds exactly `c` items.
pub open spec fn spec_chunk_start(i: int, c: int) -> int {
    i * c
}

/// Where batch `i` ends: `c` items past its start, clipped to the input
/// length.
pub open spec fn spec_chunk_end(i: int, c: int, n: int) -> int {
    if (i + 1) * c <= n {
        (i + 1) * c
    } else {
        n
    }
}

/// The half-open index ranges of the batches covering `n` items at chunk size
/// `chunk_size`: contiguous, non-overlapping, exhaustive, each full except
/// possibly the last, and none empty unless `n` is zero.
pub fn chunk_bounds(n: usize, chunk_size: usize) -> (r: Vec<(usize, usize)>)
    requires
        chunk_size >= 1,
    ensures
        r@.len() == spec_chunk_count(n as int, chunk_size as int),
        forall|i: int|
            0 <= i < r@.len() ==> ((#[trigger] r@[i]).0 == spec_chunk_start(i, chunk_size as int)
                && r@[i].1 == spec_chunk_end(i, chunk_size as int, n as int)),
        n == 0 ==> r@.len() == 0,
        n > 0 ==> r@.len() >= 1 && r@[0].0 == 0 && r@[r@.len() - 1].1 == n,
        forall|i: int| 0 <= i < r@.len() - 1 ==> (#[trigger] r@[i]).1 == r@[i + 1].0,
        forall|i: int| 0 <= i < r@.len() ==> (#[trigger] r@[i]).0 < r@[i].1 <= n,
        forall|i: int|
            0 <= i < r@.len() - 1 ==> (#[trigger] r@[i]).1 - r@[i].0 == chunk_size,
        n > 0 ==> r@[r@.len() - 1].1 - r@[r@.len() - 1].0 == (if n as int % chunk_size as int == 0 {
            chunk_size as int
        } else {
            n as int % chunk_size as int
        }),
{
    let mut r: Vec<(usize, usize)> = Vec::new();
    let mut start: usize = 0;
    while start < n
        invariant
            chunk_size >= 1,
            start <= n,
            r@.len() == 0 ==> start == 0,
            r@.len() > 0 ==> start == spec_chunk_end(
                r@.len() - 1,
                chunk_size as int,
                n as int,
            ) && spec_chunk_start(r@.len() - 1, chunk_size as int) < n,
            forall|i: int|
                0 <= i < r@.len() ==> ((#[trigger] r@[i]).0 == spec_chunk_start(
                    i,
                    chunk_size as int,
                ) && r@[i].1 == spec_chunk_end(i, chunk_size as int, n as int)),
        decreases n - start,
    {
        let len = r.len();
        proof {
            let c = chunk_size as int;
            let li = len as int;
            // `start` is below `n`, so the batch before this one (if any) was
            // not clipped, and this batch begins right at `len * c`.
            if len == 0 {
                assert(li * c == 0) by (nonlinear_arith)
                    requires
                        li == 0,
                ;
            } else {
                assert(start == spec_chunk_end(li - 1, c, n as int));
                assert((li - 1 + 1) * c == li * c) by (nonlinear_arith);
                if (li - 1 + 1) * c <= n as int {
                    assert(start == (li - 1 + 1) * c);
                } else {
                    assert(start == n);
                    assert(false);
                }
            }
            assert(start == li * c);
            assert(li * c + c == (li + 1) * c) by (nonlinear_arith);
        }
        let end: usize = if n - start >= chunk_size {
            start + chunk_size
        } else {
            n
        };
        r.push((start, end));
        start = end;
    }
    proof {
        let c = chunk_size as int;
        let len = r@.len() as int;
        if len == 0 {
            assert(n == 0);
            assert((c - 1) / c == 0) by (nonlinear_arith)
                requires
                    c >= 1,
            ;
        } else {
            let last_start = spec_chunk_start(len - 1, c);
            assert(last_start == (len - 1) * c);
            assert(last_start < n);
            assert(start == n);
            let rem = n - last_start;
            assert((len - 1) * c + c == len * c) by (nonlinear_arith);
            if len * c <= n as int {
                // The final batch was not clipped: `c` divides `n`.
                assert(n == len * c);
                lemma_fundamental_div_mod_converse(n as int, c, len, 0int);
                lemma_fundamental_div_mod_converse(n as int + c - 1, c, len, c - 1);
            } else {
                // The final batch was clipped to `n`: it holds `n % c` items.
                assert(0 < rem < c);
                lemma_fundamental_div_mod_converse(n as int, c, len - 1, rem);
                lemma_fundamental_div_mod_converse(n as int + c - 1, c, len, rem - 1);
            }
            // Every batch is nonempty, all but the last are full, and each
            // batch begins where the one before it ended.
            assert forall|i: int| 0 <= i < len implies (#[trigger] r@[i]).0 < r@[i].1 <= n by {
                lemma_mul_inequality(i, len - 1, c);
                assert((i + 1) * c - i * c == c) by (nonlinear_arith);
            }
            assert forall|i: int| 0 <= i < len - 1 implies (#[trigger] r@[i]).1 == r@[i + 1].0
                && r@[i].1 - r@[i].0 == chunk_size by {
                lemma_mul_inequality(i + 1, len - 1, c);
                assert((i + 1) * c - i * c == c) by (nonlinear_arith);
            }
            assert(r@[0].0 == 0 * c);
        }
    }
    r
}

/// Splits `items` into batches of `chunk_size` (the last batch may be
/// shorter, and is never empty unless the input is). Batch `i` holds exactly
/// the items of the half-open input range `[i * chunk_size, (i + 1) *
/// chunk_size)` clipped to the input length, in input order; concatenating
/// all batches in order reconstructs the input.
pub fn chunks<T: Copy>(items: &Vec<T>, chunk_size: usize) -> (r: Vec<Vec<T>>)
    requires
        chunk_size >= 1,
    ensures
        r@.len() == spec_chunk_count(items@.len() as int, chunk_size as int),
        forall|i: int|
            0 <= i < r@.len() ==> (#[trigger] r@[i])@ == items@.subrange(
                spec_chunk_start(i, chunk_size as int),
                spec_chunk_end(i, chunk_size as int, items@.len() as int),
            ),
        r@.map(|i: int, b: Vec<T>| b@).flatten() == items@,
{
    let n = items.len();
    let bounds = chunk_bounds(n, chunk_size);
    let mut r: Vec<Vec<T>> = Vec::new();
    let mut bi: usize = 0;
    while bi < bounds.len()
        invariant
            bi <= bounds@.len(),
            r@.len() == bi,
            n == items@.len(),
            chunk_size >= 1,
            bounds@.len() == spec_chunk_count(n as int, chunk_size as int),
            forall|i: int|
                0 <= i < bounds@.len() ==> ((#[trigger] bounds@[i]).0 == spec_chunk_start(
                    i,
                    chunk_size as int,
                ) && bounds@[i].1 == spec_chunk_end(i, chunk_size as int, n as int)),
            forall|i: int|
                0 <= i < bounds@.len() ==> (#[trigger] bounds@[i]).0 < bounds@[i].1 <= n,
            forall|i: int|
                0 <= i < bi ==> (#[trigger] r@[i])@ == items@.subrange(
                    spec_chunk_start(i, chunk_size as int),
                    spec_chunk_end(i, chunk_size as int, n as int),
                ),
        decreases bounds@.len() - bi,
    {
        let b = bounds[bi];
        let mut batch: Vec<T> = Vec::with_capacity(chunk_size);
        let mut j: usize = b.0;
        while j < b.1
            invariant
                b.0 <= j <= b.1 <= n,
                n == items@.len(),
                batch@ == items@.subrange(b.0 as int, j as int),
            decreases b.1 - j,
        {
            batch.push(items[j]);
            proof {
                assert(batch@ =~= items@.subrange(b.0 as int, j as int + 1));
            }
            j += 1;
        }
        r.push(batch);
        bi += 1;
    }
    proof {
        let m = r@.map(|i: int, b: Vec<T>| b@);
        assert forall|i: int|
            0 <= i < m.len() implies #[trigger] m[i] == items@.subrange(
            spec_chunk_start(i, chunk_size as int),
            spec_chunk_end(i, chunk_size as int, items@.len() as int),
        ) by {
            assert(m[i] == r@[i]@);
        }
        lemma_chunks_reconstruct(items@, m, chunk_size as int);
    }
    r
}

/// Chunk partition correctness: however a sequence is cut into batches of a
/// fixed size (the last possibly shorter), concatenating the batches in
/// creation order reconstructs the sequence exactly.
pub proof fn lemma_chunks_reconstruct<T>(s: Seq<T>, batches: Seq<Seq<T>>, c: int)
    requires
        c >= 1,
        batches.len() == spec_chunk_count(s.len() as int, c),
        forall|i: int|
            0 <= i < batches.len() ==> (#[trigger] batches[i]) == s.subrange(
                spec_chunk_start(i, c),
                spec_chunk_end(i, c, s.len() as int),
            ),
    ensures
        batches.flatten() == s,
    decreases batches.len(),
{
    let n = s.len() as int;
    if batches.len() == 0 {
        // Zero batches cover only the empty sequence.
        assert(n == 0) by (nonlinear_arith)
            requires
                c >= 1,
                n >= 0,
                (n + c - 1) / c == 0,
        ;
        assert(batches.flatten() =~= s);
    } else {
        let len = batches.len() as int;
        let cut = (len - 1) * c;
        // The last batch starts strictly inside the sequence.
        assert(0 <= cut < n && n <= len * c) by (nonlinear_arith)
            requires
                c >= 1,
                len >= 1,
                n >= 0,
                cut == (len - 1) * c,
                len == (n + c - 1) / c,
        ;
        let prefix = s.subrange(0, cut);
        let front = batches.drop_last();
        assert(front.len() == spec_chunk_count(cut, c)) by {
            lemma_fundamental_div_mod_converse(cut + c - 1, c, len - 1, c - 1);
        }
        assert forall|i: int|
            0 <= i < front.len() implies (#[trigger] front[i]) == prefix.subrange(
            spec_chunk_start(i, c),
            spec_chunk_end(i, c, cut),
        ) by {
            lemma_mul_inequality(i + 1, len - 1, c);
            assert((i + 1) * c - i * c == c) by (nonlinear_arith);
            assert(front[i] == batches[i]);
            assert(spec_chunk_end(i, c, n) == (i + 1) * c);
            assert(spec_chunk_end(i, c, cut) == (i + 1) * c);
            assert(batches[i] =~= prefix.subrange(i * c, (i + 1) * c));
        }
        lemma_chunks_reconstruct(prefix, front, c);
        assert(batches =~= front + seq![batches.last()]);
        lemma_flatten_concat(front, seq![batches.last()]);
        seq![batches.last()].lemma_flatten_one_element();
        assert(spec_chunk_start(len - 1, c) == cut);
        assert(spec_chunk_end(len - 1, c, n) == n);
        assert(prefix + batches.last() =~= s);
        assert(batches.flatten() == front.flatten() + seq![batches.last()].flatten());
    }
}

} // verus!
