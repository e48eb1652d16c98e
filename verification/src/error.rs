//! Classification of CUDA runtime return codes.
//!
//! The classification is fail-closed: a code that is not on the list below is
//! `Fatal`.

use vstd::prelude::*;

verus! {

/// What a failed device call means for the caller.
#[derive(Debug, Clone, Copy, PartialEq, Eq, Structural)]
pub enum LaunchError {
    /// Device memory is exhausted.
    Oom,
    /// The device or its context is gone; a rebuilt context may be retried.
    Driver,
    /// Anything else: a programming error or an unknown code.
    Fatal,
}

/// A `cudaError_t` as a number.
pub type CudaErrorCode = i32;

pub const CUDA_SUCCESS: CudaErrorCode = 0;

pub const CUDA_ERROR_MEMORY_ALLOCATION: CudaErrorCode = 2;

pub const CUDA_ERROR_DEVICES_UNAVAILABLE: CudaErrorCode = 46;

pub const CUDA_ERROR_NO_DEVICE: CudaErrorCode = 100;

/// Event query only: the event has not completed.  Not an error.
pub const CUDA_ERROR_NOT_READY: CudaErrorCode = 600;

pub const CUDA_ERROR_ILLEGAL_ADDRESS: CudaErrorCode = 700;

/// The codes after which a rebuilt context may be retried.
pub open spec fn is_driver_code(code: CudaErrorCode) -> bool {
    code == CUDA_ERROR_NO_DEVICE || code == CUDA_ERROR_DEVICES_UNAVAILABLE || code
        == CUDA_ERROR_ILLEGAL_ADDRESS
}

/// The class of a failure code; `None` only for success.
pub open spec fn class_of(code: CudaErrorCode) -> Option<LaunchError> {
    if code == CUDA_SUCCESS {
        None
    } else if code == CUDA_ERROR_MEMORY_ALLOCATION {
        Some(LaunchError::Oom)
    } else if is_driver_code(code) {
        Some(LaunchError::Driver)
    } else {
        Some(LaunchError::Fatal)
    }
}

/// Classifies a return code; the success code has no class.
pub fn classify(code: CudaErrorCode) -> (r: Option<LaunchError>)
    ensures
        r == class_of(code),
{
    if code == CUDA_SUCCESS {
        None
    } else if code == CUDA_ERROR_MEMORY_ALLOCATION {
        Some(LaunchError::Oom)
    } else if code == CUDA_ERROR_NO_DEVICE || code == CUDA_ERROR_DEVICES_UNAVAILABLE || code
        == CUDA_ERROR_ILLEGAL_ADDRESS {
        Some(LaunchError::Driver)
    } else {
        Some(LaunchError::Fatal)
    }
}

/// A return code as a `Result`.
pub fn map_err(code: CudaErrorCode) -> (r: Result<(), LaunchError>)
    ensures
        r is Ok <==> code == CUDA_SUCCESS,
        r is Err ==> class_of(code) == Some(r->Err_0),
{
    match classify(code) {
        Some(e) => Err(e),
        None => Ok(()),
    }
}

/// The class of a runtime error, by its code.  An error that carries the
/// success code is still an error.
pub fn from_runtime_error(code: CudaErrorCode) -> (r: LaunchError)
    ensures
        code == CUDA_SUCCESS ==> r == LaunchError::Fatal,
        code != CUDA_SUCCESS ==> class_of(code) == Some(r),
{
    match classify(code) {
        Some(e) => e,
        None => LaunchError::Fatal,
    }
}

/// Reads the return code of an event query: whether the event has completed.
pub fn event_query_status(rc: CudaErrorCode) -> (r: Result<bool, LaunchError>)
    ensures
        rc == CUDA_SUCCESS ==> r == Ok::<bool, LaunchError>(true),
        rc == CUDA_ERROR_NOT_READY ==> r == Ok::<bool, LaunchError>(false),
        rc != CUDA_SUCCESS && rc != CUDA_ERROR_NOT_READY ==> r is Err && class_of(rc) == Some(
            r->Err_0,
        ),
{
    if rc == CUDA_SUCCESS {
        Ok(true)
    } else if rc == CUDA_ERROR_NOT_READY {
        Ok(false)
    } else {
        Err(from_runtime_error(rc))
    }
}

/// Fail-closed: every code outside the list of known ones is `Fatal`, and only
/// the listed ones are anything else.
pub proof fn classification_is_fail_closed(code: CudaErrorCode)
    ensures
        class_of(code) == Some(LaunchError::Fatal) <==> code != CUDA_SUCCESS && code
            != CUDA_ERROR_MEMORY_ALLOCATION && !is_driver_code(code),
        class_of(code) is None <==> code == CUDA_SUCCESS,
{
}

} // verus!
