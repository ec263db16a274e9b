//! Backend-selection policy and dispatch records.
//!
//! The policy is explicit state rather than an ambient global: one
//! instance normally serves the whole process, and a test may construct
//! its own.  Every dispatch records which backend actually ran, so the
//! decision is observable afterwards.

use crate::profiler::now_micros;
use crate::text::{spec_dec_digits, u64_to_string};
use vstd::prelude::*;
use vstd::string::*;

verus! {

/// Strategy for selecting the execution backend.
#[allow(non_camel_case_types)]
#[derive(Clone, Copy, PartialEq, Eq, Structural, Debug)]
pub enum BackendPolicy {
    /// Decide per dispatch, by heuristics.
    DEFAULT,
    /// Force the OpenBLAS vendor path.
    OPENBLAS,
    /// Force a generic vendor BLAS path.
    BLAS,
    /// Accelerator execution, reserved and not handled here.
    CUDA,
}

impl BackendPolicy {
    /// The policy's integer code on the control surface.
    pub open spec fn spec_code(self) -> u8 {
        match self {
            BackendPolicy::DEFAULT => 0,
            BackendPolicy::OPENBLAS => 1,
            BackendPolicy::BLAS => 2,
            BackendPolicy::CUDA => 3,
        }
    }

    /// The policy's integer code on the control surface.
    pub fn code(self) -> (r: u8)
        ensures
            r == self.spec_code(),
    {
        match self {
            BackendPolicy::DEFAULT => 0,
            BackendPolicy::OPENBLAS => 1,
            BackendPolicy::BLAS => 2,
            BackendPolicy::CUDA => 3,
        }
    }
}

/// The policy a stored code denotes; unknown codes read as the default.
pub open spec fn spec_policy_from_code(code: u8) -> BackendPolicy {
    if code == 1 {
        BackendPolicy::OPENBLAS
    } else if code == 2 {
        BackendPolicy::BLAS
    } else if code == 3 {
        BackendPolicy::CUDA
    } else {
        BackendPolicy::DEFAULT
    }
}

/// The policy a stored code denotes; unknown codes read as the default.
pub fn policy_from_code(code: u8) -> (r: BackendPolicy)
    ensures
        r == spec_policy_from_code(code),
{
    if code == 1 {
        BackendPolicy::OPENBLAS
    } else if code == 2 {
        BackendPolicy::BLAS
    } else if code == 3 {
        BackendPolicy::CUDA
    } else {
        BackendPolicy::DEFAULT
    }
}

/// One dispatch decision: which backend ran, for which operation and
/// problem dimensions, under which policy, and when (microseconds since
/// the Unix epoch).
pub struct DispatchInfo {
    pub backend_id: u8,
    pub operation: String,
    pub dimensions: (usize, usize, usize),
    pub policy: BackendPolicy,
    pub timestamp_us: u64,
}

/// Backend-selection state: the policy in force, the backend id of the
/// most recent dispatch, and its detailed record when one was taken.
pub struct BackendState {
    policy: BackendPolicy,
    last_dispatch: u8,
    last_detailed: Option<DispatchInfo>,
}

impl BackendState {
    /// The policy in force.
    pub closed spec fn spec_policy(&self) -> BackendPolicy {
        self.policy
    }

    /// Backend id of the most recent dispatch.
    pub closed spec fn spec_last_dispatch(&self) -> u8 {
        self.last_dispatch
    }

    /// The most recent detailed dispatch record, if any.
    pub closed spec fn spec_last_detailed(&self) -> Option<DispatchInfo> {
        self.last_detailed
    }

    /// Fresh state: default policy, no dispatch recorded.
    pub fn new() -> (s: Self)
        ensures
            s.spec_policy() == BackendPolicy::DEFAULT,
            s.spec_last_dispatch() == 0,
            s.spec_last_detailed() is None,
    {
        BackendState { policy: BackendPolicy::DEFAULT, last_dispatch: 0, last_detailed: None }
    }
}

/// Get the backend selection policy in force.
pub fn get_policy(state: &BackendState) -> (p: BackendPolicy)
    ensures
        p == state.spec_policy(),
{
    state.policy
}

/// Change the backend selection policy; it governs every later dispatch
/// through this state.  All four values are legal, so nothing can fail.
pub fn set_policy(state: &mut BackendState, policy: BackendPolicy)
    ensures
        final(state).spec_policy() == policy,
        final(state).spec_last_dispatch() == old(state).spec_last_dispatch(),
        final(state).spec_last_detailed() == old(state).spec_last_detailed(),
{
    state.policy = policy;
}

/// Record which backend one dispatch actually used (simple record).
pub fn record_dispatch(state: &mut BackendState, backend_id: u8)
    ensures
        final(state).spec_policy() == old(state).spec_policy(),
        final(state).spec_last_dispatch() == backend_id,
        final(state).spec_last_detailed() == old(state).spec_last_detailed(),
{
    state.last_dispatch = backend_id;
}

/// Record one dispatch in detail: backend, operation, dimensions and the
/// policy in force, stamped with the current clock.
pub fn record_detailed_dispatch(
    state: &mut BackendState,
    backend_id: u8,
    operation: &str,
    m: usize,
    n: usize,
    k: usize,
    policy: BackendPolicy,
)
    ensures
        final(state).spec_policy() == old(state).spec_policy(),
        final(state).spec_last_dispatch() == old(state).spec_last_dispatch(),
        final(state).spec_last_detailed() matches Some(info) && info.backend_id == backend_id
            && info.operation@ == operation@ && info.dimensions == (m, n, k) && info.policy
            == policy,
{
    let info = DispatchInfo {
        backend_id,
        operation: String::from_str(operation),
        dimensions: (m, n, k),
        policy,
        timestamp_us: now_micros(),
    };
    state.last_detailed = Some(info);
}

/// Label shown for a backend id.
pub open spec fn spec_backend_label(id: u8) -> Seq<char> {
    if id == 0 {
        "Corepy AVX2"@
    } else if id == 1 {
        "OpenBLAS"@
    } else if id == 2 {
        "BLAS"@
    } else if id == 3 {
        "CUDA"@
    } else {
        "Unknown"@
    }
}

/// Label shown for a policy.
pub open spec fn spec_policy_label(p: BackendPolicy) -> Seq<char> {
    match p {
        BackendPolicy::DEFAULT => "DEFAULT"@,
        BackendPolicy::OPENBLAS => "OPENBLAS"@,
        BackendPolicy::BLAS => "BLAS"@,
        BackendPolicy::CUDA => "CUDA"@,
    }
}

/// Age of a record at `now_us`, clamped at zero.
pub open spec fn spec_elapsed_us(timestamp_us: u64, now_us: u64) -> u64 {
    if now_us >= timestamp_us {
        (now_us - timestamp_us) as u64
    } else {
        0
    }
}

/// The one-line description of a detailed dispatch record as read at
/// `now_us`: operation, backend, dimensions, policy, and the record's age.
pub open spec fn spec_dispatch_line(info: DispatchInfo, now_us: u64) -> Seq<char> {
    info.operation@ + " -> "@ + spec_backend_label(info.backend_id) + " (size="@
        + spec_dec_digits(info.dimensions.0 as nat) + "x"@ + spec_dec_digits(
        info.dimensions.1 as nat,
    ) + "x"@ + spec_dec_digits(info.dimensions.2 as nat) + ", policy="@ + spec_policy_label(
        info.policy,
    ) + ", "@ + spec_dec_digits(spec_elapsed_us(info.timestamp_us, now_us) as nat) + "us ago)"@
}

/// The one-line description when only the simple record exists.
pub open spec fn spec_simple_dispatch_line(id: u8) -> Seq<char> {
    if id == 0 {
        "Default CPU backend"@
    } else if id == 1 {
        "OpenBLAS backend"@
    } else if id == 2 {
        "BLAS backend"@
    } else if id == 3 {
        "CUDA backend"@
    } else {
        "Unknown backend ("@ + spec_dec_digits(id as nat) + ")"@
    }
}

/// Label shown for a backend id.
fn backend_label(id: u8) -> (s: &'static str)
    ensures
        s@ == spec_backend_label(id),
{
    if id == 0 {
        "Corepy AVX2"
    } else if id == 1 {
        "OpenBLAS"
    } else if id == 2 {
        "BLAS"
    } else if id == 3 {
        "CUDA"
    } else {
        "Unknown"
    }
}

/// Label shown for a policy.
fn policy_label(p: BackendPolicy) -> (s: &'static str)
    ensures
        s@ == spec_policy_label(p),
{
    match p {
        BackendPolicy::DEFAULT => "DEFAULT",
        BackendPolicy::OPENBLAS => "OPENBLAS",
        BackendPolicy::BLAS => "BLAS",
        BackendPolicy::CUDA => "CUDA",
    }
}

/// Describe the most recent dispatch: the detailed record with its age in
/// microseconds when one was taken, else the simple backend label.
pub fn get_last_dispatch(state: &BackendState) -> (r: String)
    ensures
        match state.spec_last_detailed() {
            Some(info) => exists|now_us: u64| r@ == spec_dispatch_line(info, now_us),
            None => r@ == spec_simple_dispatch_line(state.spec_last_dispatch()),
        },
{
    match &state.last_detailed {
        Some(info) => {
            let now_us = now_micros();
            let elapsed: u64 = if now_us >= info.timestamp_us {
                now_us - info.timestamp_us
            } else {
                0
            };
            let mut s = info.operation.clone();
            s.append(" -> ");
            s.append(backend_label(info.backend_id));
            s.append(" (size=");
            let d0 = u64_to_string(info.dimensions.0 as u64);
            s.append(d0.as_str());
            s.append("x");
            let d1 = u64_to_string(info.dimensions.1 as u64);
            s.append(d1.as_str());
            s.append("x");
            let d2 = u64_to_string(info.dimensions.2 as u64);
            s.append(d2.as_str());
            s.append(", policy=");
            s.append(policy_label(info.policy));
            s.append(", ");
            let age = u64_to_string(elapsed);
            s.append(age.as_str());
            s.append("us ago)");
            proof {
                assert(s@ =~= spec_dispatch_line(*info, now_us));
            }
            s
        },
        None => {
            let id = state.last_dispatch;
            if id == 0 {
                String::from_str("Default CPU backend")
            } else if id == 1 {
                String::from_str("OpenBLAS backend")
            } else if id == 2 {
                String::from_str("BLAS backend")
            } else if id == 3 {
                String::from_str("CUDA backend")
            } else {
                let mut s = String::from_str("Unknown backend (");
                let digits = u64_to_string(id as u64);
                s.append(digits.as_str());
                s.append(")");
                proof {
                    assert(s@ =~= spec_simple_dispatch_line(id));
                }
                s
            }
        },
    }
}

/// Set the policy from its control-surface code.  Only the two vendor
/// codes select a policy; every other code, the reserved accelerator's
/// included, selects the default.
pub fn set_backend_policy(state: &mut BackendState, code: u8)
    ensures
        final(state).spec_policy() == (if code == 1 {
            BackendPolicy::OPENBLAS
        } else if code == 2 {
            BackendPolicy::BLAS
        } else {
            BackendPolicy::DEFAULT
        }),
        final(state).spec_last_dispatch() == old(state).spec_last_dispatch(),
        final(state).spec_last_detailed() == old(state).spec_last_detailed(),
{
    let p = if code == 1 {
        BackendPolicy::OPENBLAS
    } else if code == 2 {
        BackendPolicy::BLAS
    } else {
        BackendPolicy::DEFAULT
    };
    set_policy(state, p);
}

/// Read the policy in force as its control-surface code.
pub fn get_backend_policy(state: &BackendState) -> (r: u8)
    ensures
        r == state.spec_policy().spec_code(),
{
    get_policy(state).code()
}

/// Size threshold of the default heuristic: past this in any dimension the
/// vendor library wins.  Benchmark-derived, not an architectural constant.
pub const BLAS_SIZE_CUTOVER: usize = 256;

/// Where one matrix multiply should run.
#[derive(Clone, Copy, PartialEq, Eq, Structural, Debug)]
pub enum MatmulRoute {
    /// The vendor BLAS library.
    Vendor,
    /// The native parallel kernel path.
    Native,
    /// A reserved policy with no implementation here; surfaced to the
    /// caller rather than silently re-routed.
    NotHandled,
}

/// The routing rule for a matrix multiply of dimensions (m, n, k).  An
/// explicit vendor policy forces the vendor path whenever the vendor
/// capability is present, and degrades gracefully to the native path when
/// it is absent.  The default policy takes the vendor path exactly when
/// some dimension passes the cutover and the capability is present.  The
/// reserved accelerator policy is not handled here.
pub open spec fn spec_matmul_route(
    policy: BackendPolicy,
    m: int,
    n: int,
    k: int,
    vendor_available: bool,
) -> MatmulRoute {
    match policy {
        BackendPolicy::OPENBLAS => if vendor_available {
            MatmulRoute::Vendor
        } else {
            MatmulRoute::Native
        },
        BackendPolicy::BLAS => if vendor_available {
            MatmulRoute::Vendor
        } else {
            MatmulRoute::Native
        },
        BackendPolicy::DEFAULT => if vendor_available && (m > BLAS_SIZE_CUTOVER || n
            > BLAS_SIZE_CUTOVER || k > BLAS_SIZE_CUTOVER) {
            MatmulRoute::Vendor
        } else {
            MatmulRoute::Native
        },
        BackendPolicy::CUDA => MatmulRoute::NotHandled,
    }
}

/// Decide where a matrix multiply of dimensions (m, n, k) runs under
/// `policy`, given whether the vendor capability is compiled in.
pub fn decide_matmul_backend(
    policy: BackendPolicy,
    m: usize,
    n: usize,
    k: usize,
    vendor_available: bool,
) -> (r: MatmulRoute)
    ensures
        r == spec_matmul_route(policy, m as int, n as int, k as int, vendor_available),
{
    match policy {
        BackendPolicy::OPENBLAS => if vendor_available {
            MatmulRoute::Vendor
        } else {
            MatmulRoute::Native
        },
        BackendPolicy::BLAS => if vendor_available {
            MatmulRoute::Vendor
        } else {
            MatmulRoute::Native
        },
        BackendPolicy::DEFAULT => if vendor_available && (m > BLAS_SIZE_CUTOVER || n
            > BLAS_SIZE_CUTOVER || k > BLAS_SIZE_CUTOVER) {
            MatmulRoute::Vendor
        } else {
            MatmulRoute::Native
        },
        BackendPolicy::CUDA => MatmulRoute::NotHandled,
    }
}

} // verus!
