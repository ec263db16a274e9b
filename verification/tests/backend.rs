use corepy_runtime::backend::{
    decide_matmul_backend, get_backend_policy, get_last_dispatch, get_policy, policy_from_code,
    record_detailed_dispatch, record_dispatch, set_backend_policy, set_policy, BackendPolicy,
    BackendState, MatmulRoute,
};

#[test]
fn policy_defaults_and_roundtrip() {
    let mut state = BackendState::new();
    assert_eq!(get_policy(&state), BackendPolicy::DEFAULT);

    set_policy(&mut state, BackendPolicy::OPENBLAS);
    assert_eq!(get_policy(&state), BackendPolicy::OPENBLAS);
    assert_eq!(get_policy(&state).code(), 1);

    assert_eq!(policy_from_code(0), BackendPolicy::DEFAULT);
    assert_eq!(policy_from_code(1), BackendPolicy::OPENBLAS);
    assert_eq!(policy_from_code(2), BackendPolicy::BLAS);
    assert_eq!(policy_from_code(3), BackendPolicy::CUDA);
    assert_eq!(policy_from_code(77), BackendPolicy::DEFAULT);
}

#[test]
fn control_surface_codes() {
    let mut state = BackendState::new();
    set_backend_policy(&mut state, 2);
    assert_eq!(get_backend_policy(&state), 2);
    assert_eq!(get_policy(&state), BackendPolicy::BLAS);
    // The surface maps unknown codes, the reserved one included, to the
    // default.
    set_backend_policy(&mut state, 3);
    assert_eq!(get_backend_policy(&state), 0);
    assert_eq!(get_policy(&state), BackendPolicy::DEFAULT);
}

#[test]
fn simple_dispatch_descriptions() {
    let mut state = BackendState::new();
    assert_eq!(get_last_dispatch(&state), "Default CPU backend");

    record_dispatch(&mut state, 1);
    assert_eq!(get_last_dispatch(&state), "OpenBLAS backend");

    record_dispatch(&mut state, 2);
    assert_eq!(get_last_dispatch(&state), "BLAS backend");

    record_dispatch(&mut state, 9);
    assert_eq!(get_last_dispatch(&state), "Unknown backend (9)");
}

#[test]
fn detailed_dispatch_description() {
    let mut state = BackendState::new();
    record_detailed_dispatch(&mut state, 1, "matmul", 4, 5, 6, BackendPolicy::OPENBLAS);
    let line = get_last_dispatch(&state);
    assert!(line.starts_with("matmul -> OpenBLAS (size=4x5x6, policy=OPENBLAS, "));
    assert!(line.ends_with("us ago)"));
}

#[test]
fn matmul_routing_rule() {
    // An explicit vendor policy overrides the size heuristic.
    assert_eq!(
        decide_matmul_backend(BackendPolicy::OPENBLAS, 8, 8, 8, true),
        MatmulRoute::Vendor
    );
    assert_eq!(decide_matmul_backend(BackendPolicy::BLAS, 8, 8, 8, true), MatmulRoute::Vendor);
    // Without the capability it degrades to the native path.
    assert_eq!(
        decide_matmul_backend(BackendPolicy::OPENBLAS, 8, 8, 8, false),
        MatmulRoute::Native
    );
    // The default policy flips on the size cutover.
    assert_eq!(
        decide_matmul_backend(BackendPolicy::DEFAULT, 512, 512, 512, true),
        MatmulRoute::Vendor
    );
    assert_eq!(
        decide_matmul_backend(BackendPolicy::DEFAULT, 512, 512, 512, false),
        MatmulRoute::Native
    );
    assert_eq!(
        decide_matmul_backend(BackendPolicy::DEFAULT, 256, 256, 256, true),
        MatmulRoute::Native
    );
    assert_eq!(
        decide_matmul_backend(BackendPolicy::DEFAULT, 257, 8, 8, true),
        MatmulRoute::Vendor
    );
    // The reserved accelerator policy is surfaced, not re-routed.
    assert_eq!(
        decide_matmul_backend(BackendPolicy::CUDA, 512, 512, 512, true),
        MatmulRoute::NotHandled
    );
}
