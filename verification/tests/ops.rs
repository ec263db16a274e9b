use corepy_runtime::backend::{set_policy, BackendPolicy, BackendState};
use corepy_runtime::dispatch::chunk_ranges;
use corepy_runtime::ops::{
    all_bool_cpu_dispatch, any_bool_cpu_dispatch, elementwise_step, matmul_f32_cpu_dispatch,
    parallel_sum_i32_cpu, sum_f32_cpu_dispatch, sum_i32_cpu_dispatch, sum_i32_range, tensor_all,
    tensor_any, tensor_div_f32, tensor_dot_product_f32, tensor_matmul_2d_f32, tensor_mean_f32,
    tensor_sum_f32, tensor_sum_i32, BoolReduceStep, DotF32Step, ElementwiseStep, MatmulStep,
    MeanF32Step, SumF32Step, SumI32Step, TensorError, PARALLEL_THRESHOLD_I32,
};

fn assert_covers(ranges: &[(usize, usize)], n: usize) {
    if n == 0 {
        assert!(ranges.is_empty());
        return;
    }
    assert!(!ranges.is_empty());
    assert_eq!(ranges[0].0, 0);
    for w in ranges.windows(2) {
        assert_eq!(w[0].0 + w[0].1, w[1].0);
    }
    for r in ranges {
        assert!(r.1 > 0);
    }
    let last = ranges[ranges.len() - 1];
    assert_eq!(last.0 + last.1, n);
}

#[test]
fn chunk_ranges_shape() {
    assert_eq!(chunk_ranges(10, 4), vec![(0, 3), (3, 3), (6, 3), (9, 1)]);
    assert_eq!(chunk_ranges(0, 4), vec![]);
    assert_eq!(chunk_ranges(5, 8), vec![(0, 1), (1, 1), (2, 1), (3, 1), (4, 1)]);
    assert_eq!(chunk_ranges(8, 2), vec![(0, 4), (4, 4)]);
    let ranges = chunk_ranges(1000, 7);
    assert!(ranges.len() <= 7);
    assert_covers(&ranges, 1000);
}

#[test]
fn bool_reduction_kernels() {
    assert!(all_bool_cpu_dispatch(&[]));
    assert!(all_bool_cpu_dispatch(&[1, 2, 255]));
    assert!(!all_bool_cpu_dispatch(&[1, 0, 255]));

    assert!(!any_bool_cpu_dispatch(&[]));
    assert!(!any_bool_cpu_dispatch(&[0, 0, 0]));
    assert!(any_bool_cpu_dispatch(&[0, 7, 0]));
}

#[test]
fn sum_i32_paths_agree_across_threshold() {
    // One element below and one above the fan-out threshold: the dispatch
    // and the explicitly chunked path both equal the sequential sum.
    for &count in &[PARALLEL_THRESHOLD_I32 - 1, PARALLEL_THRESHOLD_I32 + 1] {
        let data: Vec<i32> = (0..count).map(|i| (i % 7) as i32 - 3).collect();
        let sequential = sum_i32_range(&data, 0, data.len());
        assert_eq!(sum_i32_cpu_dispatch(&data), sequential);
        assert_eq!(parallel_sum_i32_cpu(&data), sequential);
    }
}

#[test]
fn sum_i32_wraps_like_the_machine() {
    let data = vec![i32::MAX, 1, i32::MAX, 3];
    let expected = i32::MAX.wrapping_add(1).wrapping_add(i32::MAX).wrapping_add(3);
    assert_eq!(sum_i32_cpu_dispatch(&data), expected);
    assert_eq!(parallel_sum_i32_cpu(&data), expected);
}

#[test]
fn null_addresses_fail_every_operation() {
    assert_eq!(tensor_all(0, 4), Err(TensorError::NullPointer));
    assert_eq!(tensor_any(0, 4), Err(TensorError::NullPointer));
    assert!(matches!(tensor_sum_f32(0, 4), Err(TensorError::NullPointer)));
    assert_eq!(tensor_sum_i32(0, 4), Err(TensorError::NullPointer));
    assert!(matches!(tensor_mean_f32(0, 4), Err(TensorError::NullPointer)));
    assert!(matches!(tensor_dot_product_f32(8, 0, 4), Err(TensorError::NullPointer)));
    assert!(matches!(tensor_div_f32(8, 16, 0, 4), Err(TensorError::NullPointer)));
    assert!(matches!(elementwise_step(0, 16, 24, 4), Err(TensorError::NullPointer)));

    let mut state = BackendState::new();
    let r = tensor_matmul_2d_f32(&mut state, 8, 0, 24, 2, 2, 2, true);
    assert!(matches!(r, Err(TensorError::NullPointer)));
    // No record was taken: the state still reads as untouched.
    assert_eq!(
        corepy_runtime::backend::get_last_dispatch(&state),
        "Default CPU backend"
    );
}

#[test]
fn zero_count_defaults() {
    assert_eq!(tensor_all(8, 0), Ok(BoolReduceStep::Done(true)));
    assert_eq!(tensor_any(8, 0), Ok(BoolReduceStep::Done(false)));
    assert_eq!(tensor_sum_i32(8, 0), Ok(SumI32Step::Done(0)));
    assert!(matches!(tensor_sum_f32(8, 0), Ok(SumF32Step::Zero)));
    assert!(matches!(tensor_dot_product_f32(8, 16, 0), Ok(DotF32Step::Zero)));
    assert!(matches!(tensor_div_f32(8, 16, 24, 0), Ok(ElementwiseStep::Noop)));
    // The mean of no elements is undefined, not defaulted.
    assert!(matches!(tensor_mean_f32(8, 0), Err(TensorError::EmptyInput)));
}

#[test]
fn nonzero_counts_run_kernels() {
    assert_eq!(tensor_all(8, 3), Ok(BoolReduceStep::RunKernel));
    assert_eq!(tensor_any(8, 3), Ok(BoolReduceStep::RunKernel));
    assert_eq!(tensor_sum_i32(8, 3), Ok(SumI32Step::RunKernel));
    assert!(matches!(tensor_sum_f32(8, 3), Ok(SumF32Step::Sequential)));
    assert!(matches!(tensor_dot_product_f32(8, 16, 3), Ok(DotF32Step::RunKernel)));
    assert!(matches!(tensor_div_f32(8, 16, 24, 3), Ok(ElementwiseStep::RunKernel)));
    assert!(matches!(tensor_mean_f32(8, 3), Ok(MeanF32Step::Sequential)));
}

#[test]
fn f32_sum_fans_out_past_threshold() {
    match sum_f32_cpu_dispatch(2_000_000) {
        SumF32Step::Parallel(chunks) => assert_covers(&chunks, 2_000_000),
        _ => panic!("expected the parallel step"),
    }
    assert!(matches!(sum_f32_cpu_dispatch(0), SumF32Step::Zero));
    assert!(matches!(sum_f32_cpu_dispatch(10), SumF32Step::Sequential));
}

#[test]
fn matmul_explicit_policy_overrides_heuristic() {
    let mut state = BackendState::new();
    set_policy(&mut state, BackendPolicy::OPENBLAS);
    // Below the size threshold, yet the vendor path is taken.
    let r = matmul_f32_cpu_dispatch(&mut state, 8, 8, 8, true);
    assert!(matches!(r, Ok(MatmulStep::Vendor)));
    let line = corepy_runtime::backend::get_last_dispatch(&state);
    assert!(line.starts_with("matmul -> OpenBLAS (size=8x8x8, policy=OPENBLAS, "));
}

#[test]
fn matmul_default_policy_uses_size_heuristic() {
    let mut state = BackendState::new();
    let r = matmul_f32_cpu_dispatch(&mut state, 512, 512, 512, true);
    assert!(matches!(r, Ok(MatmulStep::Vendor)));

    let mut state = BackendState::new();
    match matmul_f32_cpu_dispatch(&mut state, 512, 512, 512, false) {
        Ok(MatmulStep::Native(bands)) => assert_covers(&bands, 512),
        _ => panic!("expected the native step"),
    }
    let line = corepy_runtime::backend::get_last_dispatch(&state);
    assert!(line.starts_with("matmul -> Corepy AVX2 (size=512x512x512, policy=DEFAULT, "));
}

#[test]
fn matmul_native_bands_cover_all_rows() {
    let mut state = BackendState::new();
    match tensor_matmul_2d_f32(&mut state, 8, 16, 24, 33, 4, 5, false) {
        Ok(MatmulStep::Native(bands)) => assert_covers(&bands, 33),
        _ => panic!("expected the native step"),
    }
}

#[test]
fn matmul_reserved_policy_is_surfaced() {
    let mut state = BackendState::new();
    set_policy(&mut state, BackendPolicy::CUDA);
    let r = matmul_f32_cpu_dispatch(&mut state, 512, 512, 512, true);
    assert!(matches!(r, Err(TensorError::BackendUnsupported)));
    assert_eq!(
        corepy_runtime::backend::get_last_dispatch(&state),
        "Default CPU backend"
    );
}

#[test]
fn error_messages() {
    assert_eq!(TensorError::NullPointer.message(), "null buffer address");
    assert_eq!(TensorError::EmptyInput.message(), "empty input");
    assert_eq!(TensorError::BackendUnsupported.message(), "backend not handled here");
}
