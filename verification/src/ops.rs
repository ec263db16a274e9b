//! The operation surface: validation, routing and the integer kernels.
//!
//! Buffer addresses arrive as opaque integers from the caller that owns
//! the buffers.  Every entry point validates them before any profiling
//! scope is opened or any dispatch is recorded: a rejected request has no
//! side effect at all.  Floating-point kernels live outside this crate, so
//! for them the entry points return the exact step the caller must run;
//! the boolean and integer reductions are computed here outright.

use crate::backend::{
    decide_matmul_backend, record_detailed_dispatch, record_dispatch, spec_matmul_route,
    BackendState, MatmulRoute,
};
use crate::dispatch::{chunk_ranges, spec_covers, worker_count};
use vstd::prelude::*;
use vstd::wrapping::i32_specs;

verus! {

/// Element count past which a sum-style f32 reduction fans out.
pub const PARALLEL_THRESHOLD_F32: usize = 1000000;

/// Element count past which a sum-style i32 reduction fans out.
pub const PARALLEL_THRESHOLD_I32: usize = 1000000;

/// Typed failures of the operation surface.
#[derive(Clone, Copy, PartialEq, Eq, Structural, Debug)]
pub enum TensorError {
    /// A null (zero) buffer address was passed.
    NullPointer,
    /// An empty input where the operation is mathematically undefined.
    EmptyInput,
    /// The requested backend policy is reserved and not handled here.
    BackendUnsupported,
}

impl TensorError {
    /// A short description of the failure.
    pub fn message(&self) -> (s: &'static str)
        ensures
            self is NullPointer ==> s@ == "null buffer address"@,
            self is EmptyInput ==> s@ == "empty input"@,
            self is BackendUnsupported ==> s@ == "backend not handled here"@,
    {
        match self {
            TensorError::NullPointer => "null buffer address",
            TensorError::EmptyInput => "empty input",
            TensorError::BackendUnsupported => "backend not handled here",
        }
    }
}

/// All elements are non-zero (vacuously true of no elements).
pub open spec fn spec_all_nonzero(data: Seq<u8>) -> bool {
    forall|i: int| 0 <= i < data.len() ==> data[i] != 0
}

/// Some element is non-zero.
pub open spec fn spec_any_nonzero(data: Seq<u8>) -> bool {
    exists|i: int| 0 <= i < data.len() && data[i] != 0
}

/// The `all` reduction kernel: true exactly when every byte is non-zero.
pub fn all_bool_cpu_dispatch(data: &[u8]) -> (r: bool)
    ensures
        r == spec_all_nonzero(data@),
{
    let n = data.len();
    let mut i: usize = 0;
    while i < n
        invariant
            i <= n == data@.len(),
            forall|j: int| 0 <= j < i ==> data@[j] != 0,
        decreases n - i,
    {
        if data[i] == 0 {
            return false;
        }
        i += 1;
    }
    true
}

/// The `any` reduction kernel: true exactly when some byte is non-zero.
pub fn any_bool_cpu_dispatch(data: &[u8]) -> (r: bool)
    ensures
        r == spec_any_nonzero(data@),
{
    let n = data.len();
    let mut i: usize = 0;
    while i < n
        invariant
            i <= n == data@.len(),
            forall|j: int| 0 <= j < i ==> data@[j] == 0,
        decreases n - i,
    {
        if data[i] != 0 {
            return true;
        }
        i += 1;
    }
    false
}

/// Sum with two's-complement wraparound, left to right.
pub open spec fn spec_wsum(data: Seq<i32>) -> i32
    decreases data.len(),
{
    if data.len() == 0 {
        0
    } else {
        i32_specs::wrapping_add(spec_wsum(data.drop_last()), data.last())
    }
}

/// Wrapping addition associates: both orders reduce the same three terms.
pub proof fn lemma_wadd_assoc(a: i32, b: i32, c: i32)
    ensures
        i32_specs::wrapping_add(i32_specs::wrapping_add(a, b), c) == i32_specs::wrapping_add(
            a,
            i32_specs::wrapping_add(b, c),
        ),
{
}

/// Wrapping addition commutes: with associativity, the combination of
/// partial sums is insensitive to the order workers deliver them in.
pub proof fn lemma_wadd_comm(a: i32, b: i32)
    ensures
        i32_specs::wrapping_add(a, b) == i32_specs::wrapping_add(b, a),
{
}

/// Summing a concatenation equals combining the two partial sums.
pub proof fn lemma_wsum_concat(s1: Seq<i32>, s2: Seq<i32>)
    ensures
        spec_wsum(s1 + s2) == i32_specs::wrapping_add(spec_wsum(s1), spec_wsum(s2)),
    decreases s2.len(),
{
    if s2.len() == 0 {
        assert(s1 + s2 =~= s1);
    } else {
        assert((s1 + s2).drop_last() =~= s1 + s2.drop_last());
        lemma_wsum_concat(s1, s2.drop_last());
        lemma_wadd_assoc(spec_wsum(s1), spec_wsum(s2.drop_last()), s2.last());
    }
}

/// Sequential wrapping sum of `data[start .. start + len]`.
pub fn sum_i32_range(data: &[i32], start: usize, len: usize) -> (r: i32)
    requires
        start + len <= data@.len(),
    ensures
        r == spec_wsum(data@.subrange(start as int, start as int + len as int)),
{
    let n = data.len();
    let mut acc: i32 = 0;
    let mut i: usize = 0;
    while i < len
        invariant
            i <= len,
            n == data@.len(),
            start + len <= data@.len(),
            acc == spec_wsum(data@.subrange(start as int, start as int + i as int)),
        decreases len - i,
    {
        proof {
            assert(data@.subrange(start as int, start as int + i as int + 1).drop_last()
                =~= data@.subrange(start as int, start as int + i as int));
        }
        acc = acc.wrapping_add(data[start + i]);
        i += 1;
    }
    acc
}

/// Partial chunk sums combined in chunk order.
pub open spec fn spec_chunk_sums_fold(data: Seq<i32>, chunks: Seq<(usize, usize)>) -> i32
    decreases chunks.len(),
{
    if chunks.len() == 0 {
        0
    } else {
        let c = chunks.last();
        i32_specs::wrapping_add(
            spec_chunk_sums_fold(data, chunks.drop_last()),
            spec_wsum(data.subrange(c.0 as int, c.0 as int + c.1 as int)),
        )
    }
}

proof fn lemma_chunked_prefix_sum(data: Seq<i32>, chunks: Seq<(usize, usize)>, e: int)
    requires
        spec_covers(chunks, e),
        0 <= e <= data.len(),
    ensures
        spec_chunk_sums_fold(data, chunks) == spec_wsum(data.subrange(0, e)),
    decreases chunks.len(),
{
    if chunks.len() == 0 {
        assert(data.subrange(0, 0) =~= Seq::<i32>::empty());
    } else {
        let c = chunks.last();
        let s = c.0 as int;
        let prefix = chunks.drop_last();
        if chunks.len() >= 2 {
            crate::dispatch::lemma_chunks_cover_each_index_once(chunks, e, s);
        }
        assert(spec_covers(prefix, s));
        lemma_chunked_prefix_sum(data, prefix, s);
        lemma_wsum_concat(data.subrange(0, s), data.subrange(s, e));
        assert(data.subrange(0, s) + data.subrange(s, e) =~= data.subrange(0, e));
    }
}

/// Chunk decomposition is exact for the integer reduction: for every
/// chunking of the range, the per-chunk sums combined in chunk order equal
/// the sequential sum.  Wrapping addition is associative, so the combine
/// is insensitive to how the chunks were grouped.
pub proof fn lemma_chunked_sum_exact(data: Seq<i32>, chunks: Seq<(usize, usize)>)
    requires
        spec_covers(chunks, data.len() as int),
    ensures
        spec_chunk_sums_fold(data, chunks) == spec_wsum(data),
{
    lemma_chunked_prefix_sum(data, chunks, data.len() as int);
    assert(data.subrange(0, data.len() as int) =~= data);
}

/// Parallel-shape i32 sum: chunk the range per worker, sum each chunk with
/// the sequential kernel, and combine in chunk order.  Exactly equal to
/// the sequential sum.
pub fn parallel_sum_i32_cpu(data: &[i32]) -> (r: i32)
    ensures
        r == spec_wsum(data@),
{
    let n = data.len();
    let workers = worker_count();
    let chunks = chunk_ranges(n, workers);
    let mut acc: i32 = 0;
    let mut i: usize = 0;
    let mut pos: usize = 0;
    while i < chunks.len()
        invariant
            i <= chunks@.len(),
            spec_covers(chunks@, n as int),
            n == data@.len(),
            pos == if i == 0 {
                0
            } else {
                chunks@[i - 1].0 + chunks@[i - 1].1
            },
            pos <= n,
            acc == spec_wsum(data@.subrange(0, pos as int)),
        decreases chunks@.len() - i,
    {
        let c = chunks[i];
        proof {
            if i > 0 {
                assert(chunks@[i as int - 1].0 + chunks@[i as int - 1].1 == chunks@[i as int].0);
            }
            if i as int == chunks@.len() - 1 {
                assert(c.0 + c.1 == n);
            } else {
                crate::dispatch::lemma_chunk_starts_monotonic(
                    chunks@,
                    n as int,
                    i as int,
                    chunks@.len() - 1,
                );
                assert(chunks@[chunks@.len() - 1].0 + chunks@[chunks@.len() - 1].1 == n);
            }
            assert(c.0 + c.1 <= n);
        }
        let part = sum_i32_range(data, c.0, c.1);
        proof {
            lemma_wsum_concat(
                data@.subrange(0, pos as int),
                data@.subrange(pos as int, pos as int + c.1 as int),
            );
            assert(data@.subrange(0, pos as int) + data@.subrange(
                pos as int,
                pos as int + c.1 as int,
            ) =~= data@.subrange(0, pos as int + c.1 as int));
        }
        acc = acc.wrapping_add(part);
        pos = c.0 + c.1;
        i += 1;
    }
    proof {
        if chunks@.len() == 0 {
            assert(n == 0);
        }
        assert(pos == n);
        assert(data@.subrange(0, n as int) =~= data@);
    }
    acc
}

/// The i32 sum kernel: sequential below the parallel threshold, the
/// chunked path at or past it.  Both paths return the wrapping sum.
pub fn sum_i32_cpu_dispatch(data: &[i32]) -> (r: i32)
    ensures
        r == spec_wsum(data@),
{
    if data.len() >= PARALLEL_THRESHOLD_I32 {
        parallel_sum_i32_cpu(data)
    } else {
        let r = sum_i32_range(data, 0, data.len());
        proof {
            assert(data@.subrange(0, data@.len() as int) =~= data@);
        }
        r
    }
}

/// Next step of a boolean reduction.
#[derive(Clone, Copy, PartialEq, Eq, Structural, Debug)]
pub enum BoolReduceStep {
    /// The answer needs no kernel.
    Done(bool),
    /// Run the reduction kernel over the buffer.
    RunKernel,
}

/// Next step of an i32 sum.
#[derive(Clone, Copy, PartialEq, Eq, Structural, Debug)]
pub enum SumI32Step {
    /// The answer needs no kernel.
    Done(i32),
    /// Run the sum kernel over the buffer.
    RunKernel,
}

/// Next step of an f32 sum.
#[derive(Debug)]
pub enum SumF32Step {
    /// No elements: the sum is zero, no kernel runs.
    Zero,
    /// Run the sequential kernel over the whole buffer.
    Sequential,
    /// Fan out: run the kernel once per chunk and add the partial sums in
    /// chunk order.
    Parallel(Vec<(usize, usize)>),
}

/// Next step of an f32 mean.
#[derive(Debug)]
pub enum MeanF32Step {
    /// Run the sequential mean kernel over the whole buffer.
    Sequential,
    /// Fan out: sum the chunks, add the partial sums in chunk order, and
    /// divide by the element count.
    Parallel(Vec<(usize, usize)>),
}

/// Next step of an f32 dot product.
#[derive(Clone, Copy, PartialEq, Eq, Structural, Debug)]
pub enum DotF32Step {
    /// No elements: the product is zero, no kernel runs.
    Zero,
    /// Run the dot-product kernel over the two buffers.
    RunKernel,
}

/// Next step of an element-wise f32 operation.
#[derive(Clone, Copy, PartialEq, Eq, Structural, Debug)]
pub enum ElementwiseStep {
    /// No elements: nothing to write, no kernel runs.
    Noop,
    /// Run the element-wise kernel over the buffers.
    RunKernel,
}

/// Next step of a 2-D f32 matrix multiply.
#[derive(Debug)]
pub enum MatmulStep {
    /// Hand the whole problem to the vendor BLAS library.
    Vendor,
    /// Run the native kernel once per band of output rows; the bands are
    /// disjoint and cover all rows.
    Native(Vec<(usize, usize)>),
}

/// Validation and routing for `all`: a null address fails before any other
/// work; no elements are vacuously all-true with no kernel run.
pub fn tensor_all(data_ptr: usize, count: usize) -> (r: Result<BoolReduceStep, TensorError>)
    ensures
        data_ptr == 0 ==> r == Err::<BoolReduceStep, TensorError>(TensorError::NullPointer),
        data_ptr != 0 && count == 0 ==> r == Ok::<BoolReduceStep, TensorError>(
            BoolReduceStep::Done(true),
        ),
        data_ptr != 0 && count != 0 ==> r == Ok::<BoolReduceStep, TensorError>(
            BoolReduceStep::RunKernel,
        ),
{
    if data_ptr == 0 {
        return Err(TensorError::NullPointer);
    }
    if count == 0 {
        return Ok(BoolReduceStep::Done(true));
    }
    Ok(BoolReduceStep::RunKernel)
}

/// Validation and routing for `any`: a null address fails before any other
/// work; no elements are vacuously any-false with no kernel run.
pub fn tensor_any(data_ptr: usize, count: usize) -> (r: Result<BoolReduceStep, TensorError>)
    ensures
        data_ptr == 0 ==> r == Err::<BoolReduceStep, TensorError>(TensorError::NullPointer),
        data_ptr != 0 && count == 0 ==> r == Ok::<BoolReduceStep, TensorError>(
            BoolReduceStep::Done(false),
        ),
        data_ptr != 0 && count != 0 ==> r == Ok::<BoolReduceStep, TensorError>(
            BoolReduceStep::RunKernel,
        ),
{
    if data_ptr == 0 {
        return Err(TensorError::NullPointer);
    }
    if count == 0 {
        return Ok(BoolReduceStep::Done(false));
    }
    Ok(BoolReduceStep::RunKernel)
}

/// Validation and routing for the i32 sum: a null address fails first;
/// no elements sum to zero with no kernel run.
pub fn tensor_sum_i32(data_ptr: usize, count: usize) -> (r: Result<SumI32Step, TensorError>)
    ensures
        data_ptr == 0 ==> r == Err::<SumI32Step, TensorError>(TensorError::NullPointer),
        data_ptr != 0 && count == 0 ==> r == Ok::<SumI32Step, TensorError>(SumI32Step::Done(0)),
        data_ptr != 0 && count != 0 ==> r == Ok::<SumI32Step, TensorError>(SumI32Step::RunKernel),
{
    if data_ptr == 0 {
        return Err(TensorError::NullPointer);
    }
    if count == 0 {
        return Ok(SumI32Step::Done(0));
    }
    Ok(SumI32Step::RunKernel)
}

/// The f32 sum's threshold routing: sequential below the parallel
/// threshold, chunked fan-out at or past it, with chunks that cover the
/// range exactly once.
pub fn sum_f32_cpu_dispatch(count: usize) -> (r: SumF32Step)
    ensures
        count == 0 ==> r is Zero,
        0 < count < PARALLEL_THRESHOLD_F32 ==> r is Sequential,
        count >= PARALLEL_THRESHOLD_F32 ==> (r matches SumF32Step::Parallel(chunks)
            && spec_covers(chunks@, count as int)),
{
    if count == 0 {
        SumF32Step::Zero
    } else if count < PARALLEL_THRESHOLD_F32 {
        SumF32Step::Sequential
    } else {
        let workers = worker_count();
        SumF32Step::Parallel(chunk_ranges(count, workers))
    }
}

/// Validation and routing for the f32 sum: a null address fails first; no
/// elements sum to zero with no kernel run; otherwise the threshold rule
/// routes between the sequential kernel and the chunked fan-out.
pub fn tensor_sum_f32(data_ptr: usize, count: usize) -> (r: Result<SumF32Step, TensorError>)
    ensures
        data_ptr == 0 ==> r == Err::<SumF32Step, TensorError>(TensorError::NullPointer),
        data_ptr != 0 && count == 0 ==> (r matches Ok(step) && step is Zero),
        data_ptr != 0 && 0 < count < PARALLEL_THRESHOLD_F32 ==> (r matches Ok(step) && step is Sequential),
        data_ptr != 0 && count >= PARALLEL_THRESHOLD_F32 ==> (r matches Ok(SumF32Step::Parallel(chunks)) && spec_covers(chunks@, count as int)),
{
    if data_ptr == 0 {
        return Err(TensorError::NullPointer);
    }
    Ok(sum_f32_cpu_dispatch(count))
}

/// The f32 mean's threshold routing, for a non-empty buffer.
pub fn mean_f32_cpu_dispatch(count: usize) -> (r: MeanF32Step)
    requires
        count > 0,
    ensures
        count < PARALLEL_THRESHOLD_F32 ==> r is Sequential,
        count >= PARALLEL_THRESHOLD_F32 ==> (r matches MeanF32Step::Parallel(chunks)
            && spec_covers(chunks@, count as int)),
{
    if count < PARALLEL_THRESHOLD_F32 {
        MeanF32Step::Sequential
    } else {
        let workers = worker_count();
        MeanF32Step::Parallel(chunk_ranges(count, workers))
    }
}

/// Validation and routing for the f32 mean: a null address fails first,
/// and the mean of no elements is undefined, so an empty input is the
/// empty-input error; otherwise the threshold rule routes the work.
pub fn tensor_mean_f32(data_ptr: usize, count: usize) -> (r: Result<MeanF32Step, TensorError>)
    ensures
        data_ptr == 0 ==> r == Err::<MeanF32Step, TensorError>(TensorError::NullPointer),
        data_ptr != 0 && count == 0 ==> r == Err::<MeanF32Step, TensorError>(
            TensorError::EmptyInput,
        ),
        data_ptr != 0 && 0 < count < PARALLEL_THRESHOLD_F32 ==> (r matches Ok(step) && step is Sequential),
        data_ptr != 0 && count >= PARALLEL_THRESHOLD_F32 ==> (r matches Ok(MeanF32Step::Parallel(chunks)) && spec_covers(chunks@, count as int)),
{
    if data_ptr == 0 {
        return Err(TensorError::NullPointer);
    }
    if count == 0 {
        return Err(TensorError::EmptyInput);
    }
    Ok(mean_f32_cpu_dispatch(count))
}

/// Validation and routing for the f32 dot product: either null address
/// fails first; no elements give a zero product with no kernel run.
pub fn tensor_dot_product_f32(a_ptr: usize, b_ptr: usize, count: usize) -> (r: Result<
    DotF32Step,
    TensorError,
>)
    ensures
        (a_ptr == 0 || b_ptr == 0) ==> r == Err::<DotF32Step, TensorError>(
            TensorError::NullPointer,
        ),
        a_ptr != 0 && b_ptr != 0 && count == 0 ==> (r matches Ok(step) && step is Zero),
        a_ptr != 0 && b_ptr != 0 && count != 0 ==> (r matches Ok(step) && step is RunKernel),
{
    if a_ptr == 0 || b_ptr == 0 {
        return Err(TensorError::NullPointer);
    }
    if count == 0 {
        return Ok(DotF32Step::Zero);
    }
    Ok(DotF32Step::RunKernel)
}

/// Shared validation for the element-wise operations: every address must
/// be non-null, and zero elements mean nothing runs.
pub fn elementwise_step(a_ptr: usize, b_ptr: usize, out_ptr: usize, count: usize) -> (r: Result<
    ElementwiseStep,
    TensorError,
>)
    ensures
        (a_ptr == 0 || b_ptr == 0 || out_ptr == 0) ==> r == Err::<ElementwiseStep, TensorError>(
            TensorError::NullPointer,
        ),
        a_ptr != 0 && b_ptr != 0 && out_ptr != 0 && count == 0 ==> (r matches Ok(step) && step is Noop),
        a_ptr != 0 && b_ptr != 0 && out_ptr != 0 && count != 0 ==> (r matches Ok(step) && step is RunKernel),
{
    if a_ptr == 0 || b_ptr == 0 || out_ptr == 0 {
        return Err(TensorError::NullPointer);
    }
    if count == 0 {
        return Ok(ElementwiseStep::Noop);
    }
    Ok(ElementwiseStep::RunKernel)
}

/// Validation for element-wise addition.
pub fn tensor_add_f32(a_ptr: usize, b_ptr: usize, out_ptr: usize, count: usize) -> (r: Result<
    ElementwiseStep,
    TensorError,
>)
    ensures
        (a_ptr == 0 || b_ptr == 0 || out_ptr == 0) ==> r == Err::<ElementwiseStep, TensorError>(
            TensorError::NullPointer,
        ),
        a_ptr != 0 && b_ptr != 0 && out_ptr != 0 && count == 0 ==> (r matches Ok(step) && step is Noop),
        a_ptr != 0 && b_ptr != 0 && out_ptr != 0 && count != 0 ==> (r matches Ok(step) && step is RunKernel),
{
    elementwise_step(a_ptr, b_ptr, out_ptr, count)
}

/// Validation for element-wise subtraction.
pub fn tensor_sub_f32(a_ptr: usize, b_ptr: usize, out_ptr: usize, count: usize) -> (r: Result<
    ElementwiseStep,
    TensorError,
>)
    ensures
        (a_ptr == 0 || b_ptr == 0 || out_ptr == 0) ==> r == Err::<ElementwiseStep, TensorError>(
            TensorError::NullPointer,
        ),
        a_ptr != 0 && b_ptr != 0 && out_ptr != 0 && count == 0 ==> (r matches Ok(step) && step is Noop),
        a_ptr != 0 && b_ptr != 0 && out_ptr != 0 && count != 0 ==> (r matches Ok(step) && step is RunKernel),
{
    elementwise_step(a_ptr, b_ptr, out_ptr, count)
}

/// Validation for element-wise multiplication.
pub fn tensor_mul_f32(a_ptr: usize, b_ptr: usize, out_ptr: usize, count: usize) -> (r: Result<
    ElementwiseStep,
    TensorError,
>)
    ensures
        (a_ptr == 0 || b_ptr == 0 || out_ptr == 0) ==> r == Err::<ElementwiseStep, TensorError>(
            TensorError::NullPointer,
        ),
        a_ptr != 0 && b_ptr != 0 && out_ptr != 0 && count == 0 ==> (r matches Ok(step) && step is Noop),
        a_ptr != 0 && b_ptr != 0 && out_ptr != 0 && count != 0 ==> (r matches Ok(step) && step is RunKernel),
{
    elementwise_step(a_ptr, b_ptr, out_ptr, count)
}

/// Validation for element-wise division.
pub fn tensor_div_f32(a_ptr: usize, b_ptr: usize, out_ptr: usize, count: usize) -> (r: Result<
    ElementwiseStep,
    TensorError,
>)
    ensures
        (a_ptr == 0 || b_ptr == 0 || out_ptr == 0) ==> r == Err::<ElementwiseStep, TensorError>(
            TensorError::NullPointer,
        ),
        a_ptr != 0 && b_ptr != 0 && out_ptr != 0 && count == 0 ==> (r matches Ok(step) && step is Noop),
        a_ptr != 0 && b_ptr != 0 && out_ptr != 0 && count != 0 ==> (r matches Ok(step) && step is RunKernel),
{
    elementwise_step(a_ptr, b_ptr, out_ptr, count)
}

/// The route, records and bands a matmul dispatch must produce under the
/// rule `spec_matmul_route`, given the state before the call.
pub open spec fn matmul_dispatch_ok(
    prior: BackendState,
    after: BackendState,
    r: Result<MatmulStep, TensorError>,
    m: int,
    n: int,
    k: int,
    vendor_available: bool,
) -> bool {
    let route = spec_matmul_route(prior.spec_policy(), m, n, k, vendor_available);
    &&& after.spec_policy() == prior.spec_policy()
    &&& match route {
        MatmulRoute::Vendor => {
            &&& r matches Ok(step) && step is Vendor
            &&& after.spec_last_dispatch() == 1
            &&& after.spec_last_detailed() matches Some(info) && info.backend_id == 1
                && info.operation@ == "matmul"@ && info.dimensions == (
                m as usize,
                n as usize,
                k as usize,
            ) && info.policy == prior.spec_policy()
        },
        MatmulRoute::Native => {
            &&& r matches Ok(MatmulStep::Native(bands)) && spec_covers(bands@, m)
            &&& after.spec_last_dispatch() == 0
            &&& after.spec_last_detailed() matches Some(info) && info.backend_id == 0
                && info.operation@ == "matmul"@ && info.dimensions == (
                m as usize,
                n as usize,
                k as usize,
            ) && info.policy == prior.spec_policy()
        },
        MatmulRoute::NotHandled => {
            &&& r == Err::<MatmulStep, TensorError>(TensorError::BackendUnsupported)
            &&& after == prior
        },
    }
}

/// Route one matrix multiply of dimensions (m, k, n) under the policy in
/// force, record the dispatch, and hand back the step: the vendor path, or
/// the native path with its disjoint row bands.  The reserved accelerator
/// policy is surfaced as unsupported and records nothing.
pub fn matmul_f32_cpu_dispatch(
    state: &mut BackendState,
    m: usize,
    k: usize,
    n: usize,
    vendor_available: bool,
) -> (r: Result<MatmulStep, TensorError>)
    ensures
        matmul_dispatch_ok(
            *old(state),
            *final(state),
            r,
            m as int,
            n as int,
            k as int,
            vendor_available,
        ),
{
    let policy = crate::backend::get_policy(state);
    let route = decide_matmul_backend(policy, m, n, k, vendor_available);
    match route {
        MatmulRoute::Vendor => {
            record_dispatch(state, 1);
            record_detailed_dispatch(state, 1, "matmul", m, n, k, policy);
            Ok(MatmulStep::Vendor)
        },
        MatmulRoute::Native => {
            record_dispatch(state, 0);
            record_detailed_dispatch(state, 0, "matmul", m, n, k, policy);
            let workers = worker_count();
            let bands = chunk_ranges(m, workers);
            Ok(MatmulStep::Native(bands))
        },
        MatmulRoute::NotHandled => Err(TensorError::BackendUnsupported),
    }
}

/// Validation, routing and recording for a 2-D matrix multiply: a null
/// address fails before any record is taken or scope opened, leaving the
/// state untouched; otherwise the dispatch rule runs and is recorded.
pub fn tensor_matmul_2d_f32(
    state: &mut BackendState,
    a_ptr: usize,
    b_ptr: usize,
    out_ptr: usize,
    m: usize,
    k: usize,
    n: usize,
    vendor_available: bool,
) -> (r: Result<MatmulStep, TensorError>)
    ensures
        (a_ptr == 0 || b_ptr == 0 || out_ptr == 0) ==> r == Err::<MatmulStep, TensorError>(
            TensorError::NullPointer,
        ) && *final(state) == *old(state),
        a_ptr != 0 && b_ptr != 0 && out_ptr != 0 ==> matmul_dispatch_ok(
            *old(state),
            *final(state),
            r,
            m as int,
            n as int,
            k as int,
            vendor_available,
        ),
{
    if a_ptr == 0 || b_ptr == 0 || out_ptr == 0 {
        return Err(TensorError::NullPointer);
    }
    matmul_f32_cpu_dispatch(state, m, k, n, vendor_available)
}

} // verus!
