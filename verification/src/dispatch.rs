//! Data-parallel decomposition for the worker pool.
//!
//! One logical operation over `n` elements (or `m` output rows) is split
//! into contiguous, non-overlapping chunks, one per available worker; a
//! kernel runs once per chunk and the partial results are combined, or the
//! row bands are laid down disjointly.  The shapes here say exactly what
//! that means: the chunks are adjacent, non-empty, and cover every index
//! exactly once.

use vstd::arithmetic::div_mod::{
    lemma_div_multiples_vanish_fancy, lemma_fundamental_div_mod, lemma_mod_bound, lemma_small_mod,
    lemma_mod_multiples_vanish,
};
use vstd::prelude::*;

verus! {

/// Relies on num_cpus::get: the number of logical CPUs available to this
/// process.  Its documentation promises at least one.
#[verifier::external_body]
pub(crate) fn worker_count() -> (n: usize)
    ensures
        1 <= n,
{
    num_cpus::get()
}

/// `ranges` splits `[0, n)` into adjacent, non-empty pieces: the first
/// starts at zero, each further piece starts where the one before ends,
/// and the last ends at `n`.
pub open spec fn spec_covers(ranges: Seq<(usize, usize)>, n: int) -> bool {
    &&& (n == 0 ==> ranges.len() == 0)
    &&& (n > 0 ==> ranges.len() > 0)
    &&& forall|i: int| 0 <= i < ranges.len() ==> (#[trigger] ranges[i]).1 > 0
    &&& (ranges.len() > 0 ==> ranges[0].0 == 0)
    &&& (ranges.len() > 0 ==> ranges[ranges.len() - 1].0 + ranges[ranges.len() - 1].1 == n)
    &&& forall|i: int|
        0 <= i < ranges.len() - 1 ==> (#[trigger] ranges[i]).0 + ranges[i].1 == ranges[i + 1].0
}

/// Ceiling of `n / w` for `n >= 0`, `w >= 1`.
pub open spec fn spec_ceil_div(n: int, w: int) -> int {
    if n == 0 {
        0
    } else {
        (n - 1) / w + 1
    }
}

/// `w * ceil(n / w) >= n`: enough chunks of the ceiling size cover `n`.
proof fn lemma_ceil_div_covers(n: int, w: int)
    requires
        n >= 0,
        w >= 1,
    ensures
        spec_ceil_div(n, w) * w >= n,
        n > 0 ==> spec_ceil_div(n, w) >= 1,
{
    if n > 0 {
        let q = (n - 1) / w;
        let r = (n - 1) % w;
        lemma_fundamental_div_mod(n - 1, w);
        lemma_mod_bound(n - 1, w);
        assert((q + 1) * w == w * q + w) by (nonlinear_arith);
        assert(q >= 0) by (nonlinear_arith)
            requires
                n - 1 == w * q + r && 0 <= r < w && w >= 1 && n >= 1,
        ;
    }
}

/// Split `[0, n)` into at most `workers` adjacent chunks, each of
/// `ceil(n / workers)` indices but for a shorter final one.
pub fn chunk_ranges(n: usize, workers: usize) -> (r: Vec<(usize, usize)>)
    requires
        workers >= 1,
    ensures
        spec_covers(r@, n as int),
        r@.len() <= workers,
        forall|i: int|
            0 <= i < r@.len() ==> (#[trigger] r@[i]).1 <= spec_ceil_div(n as int, workers as int),
        forall|i: int|
            0 <= i < r@.len() - 1 ==> (#[trigger] r@[i]).1 == spec_ceil_div(
                n as int,
                workers as int,
            ),
{
    let mut out: Vec<(usize, usize)> = Vec::new();
    if n == 0 {
        return out;
    }
    let chunk: usize = (n - 1) / workers + 1;
    proof {
        lemma_ceil_div_covers(n as int, workers as int);
    }
    let mut start: usize = 0;
    while start < n
        invariant
            workers >= 1,
            n > 0,
            chunk == spec_ceil_div(n as int, workers as int),
            chunk >= 1,
            start <= n,
            chunk * workers >= n,
            start == out@.len() * chunk || (start == n && out@.len() >= 1 && start > (out@.len()
                - 1) * chunk),
            out@.len() > 0 ==> out@[0].0 == 0,
            out@.len() > 0 ==> out@[out@.len() - 1].0 + out@[out@.len() - 1].1 == start,
            start < n ==> start == out@.len() * chunk,
            forall|i: int| 0 <= i < out@.len() ==> (#[trigger] out@[i]).1 > 0,
            forall|i: int| 0 <= i < out@.len() ==> (#[trigger] out@[i]).1 <= chunk,
            forall|i: int| 0 <= i < out@.len() - 1 ==> (#[trigger] out@[i]).1 == chunk,
            start < n && out@.len() > 0 ==> out@[out@.len() - 1].1 == chunk,
            forall|i: int|
                0 <= i < out@.len() - 1 ==> (#[trigger] out@[i]).0 + out@[i].1 == out@[i + 1].0,
            start == 0 ==> out@.len() == 0,
        decreases n - start,
    {
        let len = if n - start < chunk {
            n - start
        } else {
            chunk
        };
        let ghost prev = out@;
        out.push((start, len));
        proof {
            assert(out@.drop_last() =~= prev);
            assert((prev.len() + 1 - 1) * chunk == prev.len() * chunk) by (nonlinear_arith);
            assert((prev.len() + 1) * chunk == prev.len() * chunk + chunk) by (nonlinear_arith);
        }
        start += len;
    }
    proof {
        // The count bound: all chunks but the last are full.
        let cnt = out@.len() as int;
        if start == out@.len() * chunk {
            assert(cnt * chunk == n);
            assert(cnt <= workers) by (nonlinear_arith)
                requires
                    cnt * chunk == n && chunk * workers >= n && chunk >= 1 && cnt >= 0 && workers
                        >= 1,
            ;
        } else {
            assert((cnt - 1) * chunk < n);
            assert(cnt <= workers) by (nonlinear_arith)
                requires
                    (cnt - 1) * chunk < n && chunk * workers >= n && chunk >= 1 && cnt >= 1
                        && workers >= 1,
            ;
        }
    }
    out
}

/// Whether `idx` falls inside the chunk `c`.
pub open spec fn spec_in_chunk(c: (usize, usize), idx: int) -> bool {
    c.0 <= idx < c.0 + c.1
}

/// Chunk starts never decrease along the sequence: each chunk ends at or
/// before any later chunk's start.
pub proof fn lemma_chunk_starts_monotonic(ranges: Seq<(usize, usize)>, n: int, i: int, j: int)
    requires
        spec_covers(ranges, n),
        0 <= i < j < ranges.len(),
    ensures
        ranges[i].0 + ranges[i].1 <= ranges[j].0,
    decreases j - i,
{
    if i + 1 < j {
        lemma_chunk_starts_monotonic(ranges, n, i + 1, j);
    }
}

/// Every index of `[0, n)` falls inside exactly one of the chunks: the
/// correctness invariant of any data-parallel fan-out over the range.
pub proof fn lemma_chunks_cover_each_index_once(ranges: Seq<(usize, usize)>, n: int, idx: int)
    requires
        spec_covers(ranges, n),
        0 <= idx < n,
    ensures
        exists|i: int| 0 <= i < ranges.len() && spec_in_chunk(#[trigger] ranges[i], idx),
        forall|i: int, j: int|
            0 <= i < j < ranges.len() ==> !(spec_in_chunk(#[trigger] ranges[i], idx)
                && spec_in_chunk(#[trigger] ranges[j], idx)),
    decreases ranges.len(),
{
    let last = ranges[ranges.len() - 1];
    if idx >= last.0 {
        assert(spec_in_chunk(ranges[ranges.len() - 1], idx));
    } else {
        let prefix = ranges.drop_last();
        assert(spec_covers(prefix, last.0 as int));
        lemma_chunks_cover_each_index_once(prefix, last.0 as int, idx);
        let w = choose|i: int| 0 <= i < prefix.len() && spec_in_chunk(#[trigger] prefix[i], idx);
        assert(spec_in_chunk(ranges[w], idx));
    }
    assert forall|i: int, j: int| 0 <= i < j < ranges.len() implies !(spec_in_chunk(
        #[trigger] ranges[i],
        idx,
    ) && spec_in_chunk(#[trigger] ranges[j], idx)) by {
        lemma_chunk_starts_monotonic(ranges, n, i, j);
    }
}

/// Entry `(row, col)` of the row-major product of `a` (rows of length `k`)
/// and `b` (`k` rows of length `n`), summed over the first `terms`
/// products.
pub open spec fn spec_mm_entry_partial(
    a: Seq<int>,
    b: Seq<int>,
    k: int,
    n: int,
    row: int,
    col: int,
    terms: int,
) -> int
    decreases terms,
{
    if terms <= 0 {
        0
    } else {
        spec_mm_entry_partial(a, b, k, n, row, col, terms - 1) + a[row * k + (terms - 1)] * b[(terms
            - 1) * n + col]
    }
}

/// Entry `(row, col)` of the full product.
pub open spec fn spec_mm_entry(a: Seq<int>, b: Seq<int>, k: int, n: int, row: int, col: int) -> int {
    spec_mm_entry_partial(a, b, k, n, row, col, k)
}

/// Row-major product of `a` (`m` by `k`) and `b` (`k` by `n`).
pub open spec fn spec_matmul(a: Seq<int>, b: Seq<int>, m: int, k: int, n: int) -> Seq<int> {
    Seq::new((m * n) as nat, |idx: int| spec_mm_entry(a, b, k, n, idx / n, idx % n))
}

/// An entry computed inside the band of rows `s .. s + rows` of `a` equals
/// the corresponding entry computed over all of `a`.
proof fn lemma_mm_entry_shift(
    a: Seq<int>,
    b: Seq<int>,
    k: int,
    n: int,
    s: int,
    rows: int,
    row: int,
    col: int,
    terms: int,
)
    requires
        0 <= s,
        0 <= row < rows,
        0 <= terms <= k,
        (s + rows) * k <= a.len(),
    ensures
        spec_mm_entry_partial(a.subrange(s * k, (s + rows) * k), b, k, n, row, col, terms)
            == spec_mm_entry_partial(a, b, k, n, s + row, col, terms),
    decreases terms,
{
    if terms > 0 {
        lemma_mm_entry_shift(a, b, k, n, s, rows, row, col, terms - 1);
        assert((s + row) * k == s * k + row * k) by (nonlinear_arith);
        assert(0 <= row * k + (terms - 1) < rows * k) by (nonlinear_arith)
            requires
                0 <= row < rows && 0 < terms <= k,
        ;
        assert((s + rows) * k == s * k + rows * k) by (nonlinear_arith);
    }
}

/// Rows `s .. s + rows` of the full product equal the product of just
/// those rows of `a` with all of `b`.
pub proof fn lemma_matmul_band(a: Seq<int>, b: Seq<int>, m: int, k: int, n: int, s: int, rows: int)
    requires
        0 <= s,
        0 <= rows,
        s + rows <= m,
        0 <= k,
        0 < n,
        m * k <= a.len(),
    ensures
        spec_matmul(a.subrange(s * k, (s + rows) * k), b, rows, k, n) =~= spec_matmul(
            a,
            b,
            m,
            k,
            n,
        ).subrange(s * n, (s + rows) * n),
{
    assert((s + rows) * k <= m * k) by (nonlinear_arith)
        requires
            s + rows <= m && 0 <= k,
    ;
    assert((s + rows) * n <= m * n) by (nonlinear_arith)
        requires
            s + rows <= m && 0 < n,
    ;
    assert((s + rows) * n == s * n + rows * n) by (nonlinear_arith);
    assert((s + rows) * k == s * k + rows * k) by (nonlinear_arith);
    let lhs = spec_matmul(a.subrange(s * k, (s + rows) * k), b, rows, k, n);
    let rhs = spec_matmul(a, b, m, k, n).subrange(s * n, (s + rows) * n);
    assert(lhs.len() == rows * n);
    assert forall|idx: int| 0 <= idx < rows * n implies lhs[idx] == rhs[idx] by {
        let row = idx / n;
        let col = idx % n;
        lemma_fundamental_div_mod(idx, n);
        lemma_mod_bound(idx, n);
        assert(0 <= row < rows) by (nonlinear_arith)
            requires
                idx == n * row + col && 0 <= col < n && 0 <= idx < rows * n,
        ;
        lemma_mm_entry_shift(a, b, k, n, s, rows, row, col, k);
        // The global index decomposes the same way, shifted by s rows.
        assert(s * n + idx == n * (s + row) + col) by (nonlinear_arith)
            requires
                idx == n * row + col,
        ;
        lemma_div_multiples_vanish_fancy(s + row, col, n);
        lemma_mod_multiples_vanish(s + row, col, n);
        lemma_small_mod(col as nat, n as nat);
        assert((s * n + idx) / n == s + row);
        assert((s * n + idx) % n == col);
        assert(0 <= s * n + idx < m * n) by (nonlinear_arith)
            requires
                0 <= idx < rows * n && 0 <= s && (s + rows) * n <= m * n && s * n + rows * n == (s
                    + rows) * n && 0 < n,
        ;
        assert(rhs[idx] == spec_matmul(a, b, m, k, n)[s * n + idx]);
        assert(spec_matmul(a, b, m, k, n)[s * n + idx] == spec_mm_entry(a, b, k, n, s + row, col));
        assert(lhs[idx] == spec_mm_entry(a.subrange(s * k, (s + rows) * k), b, k, n, row, col));
    }
}

/// A product over `s` rows reads only the first `s * k` entries of `a`.
proof fn lemma_matmul_ignores_tail(a: Seq<int>, b: Seq<int>, s: int, k: int, n: int)
    requires
        0 <= s,
        0 <= k,
        0 < n,
        s * k <= a.len(),
    ensures
        spec_matmul(a.subrange(0, s * k), b, s, k, n) =~= spec_matmul(a, b, s, k, n),
{
    let lhs = spec_matmul(a.subrange(0, s * k), b, s, k, n);
    let rhs = spec_matmul(a, b, s, k, n);
    assert forall|idx: int| 0 <= idx < s * n implies lhs[idx] == rhs[idx] by {
        let row = idx / n;
        let col = idx % n;
        lemma_fundamental_div_mod(idx, n);
        lemma_mod_bound(idx, n);
        assert(0 <= row < s) by (nonlinear_arith)
            requires
                idx == n * row + col && 0 <= col < n && 0 <= idx < s * n,
        ;
        lemma_mm_entry_shift(a, b, k, n, 0, s, row, col, k);
    }
}

/// The band results laid down in band order: each band is the product of
/// its rows of `a` with all of `b`.
pub open spec fn spec_band_results(
    a: Seq<int>,
    b: Seq<int>,
    k: int,
    n: int,
    bands: Seq<(usize, usize)>,
) -> Seq<int>
    decreases bands.len(),
{
    if bands.len() == 0 {
        Seq::<int>::empty()
    } else {
        let band = bands.last();
        spec_band_results(a, b, k, n, bands.drop_last()) + spec_matmul(
            a.subrange(band.0 * k, (band.0 + band.1) * k),
            b,
            band.1 as int,
            k,
            n,
        )
    }
}

/// Row decomposition is exact: the bands of the product computed
/// independently per worker and concatenated in row order equal the
/// single-threaded product, entry for entry.  The bands write disjoint
/// output rows, so no tolerance enters.
pub proof fn lemma_matmul_band_decomposition(
    a: Seq<int>,
    b: Seq<int>,
    m: int,
    k: int,
    n: int,
    bands: Seq<(usize, usize)>,
)
    requires
        spec_covers(bands, m),
        0 <= k,
        0 < n,
        0 <= m,
        m * k <= a.len(),
    ensures
        spec_band_results(a, b, k, n, bands) =~= spec_matmul(a, b, m, k, n),
    decreases bands.len(),
{
    if bands.len() == 0 {
        assert(m == 0);
    } else {
        let band = bands.last();
        let s = band.0 as int;
        let rows = band.1 as int;
        assert(s + rows == m);
        let prefix = bands.drop_last();
        if bands.len() >= 2 {
            lemma_chunk_starts_monotonic(bands, m, 0, bands.len() - 1);
        }
        assert(spec_covers(prefix, s));
        assert(s * k <= m * k && s * n <= m * n) by (nonlinear_arith)
            requires
                0 <= s <= m && 0 <= k && 0 < n,
        ;
        lemma_matmul_band_decomposition(a, b, s, k, n, prefix);
        lemma_matmul_band(a, b, m, k, n, s, rows);
        // The prefix result equals the first s rows of the full product.
        lemma_matmul_band(a, b, m, k, n, 0, s);
        lemma_matmul_ignores_tail(a, b, s, k, n);
        assert((s + rows) * n == m * n) by (nonlinear_arith)
            requires
                s + rows == m && 0 < n,
        ;
        assert(spec_matmul(a, b, m, k, n).subrange(0, s * n) + spec_matmul(a, b, m, k, n).subrange(
            s * n,
            (s + rows) * n,
        ) =~= spec_matmul(a, b, m, k, n));
    }
}

} // verus!
