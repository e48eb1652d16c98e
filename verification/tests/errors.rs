use cudarc::runtime::sys::cudaError_t;
use reinfer_cuda::engine_error::EngineError;
use reinfer_cuda::error::{
    classify, event_query_status, from_runtime_error, map_err, LaunchError,
    CUDA_ERROR_DEVICES_UNAVAILABLE, CUDA_ERROR_ILLEGAL_ADDRESS, CUDA_ERROR_MEMORY_ALLOCATION,
    CUDA_ERROR_NOT_READY, CUDA_ERROR_NO_DEVICE, CUDA_SUCCESS,
};
use reinfer_cuda::gemm::{map_status, status_message};

#[test]
fn runtime_error_conversion_roundtrip() {
    assert_eq!(
        from_runtime_error(cudaError_t::cudaErrorMemoryAllocation as i32),
        LaunchError::Oom
    );
    assert_eq!(from_runtime_error(cudaError_t::cudaErrorNoDevice as i32), LaunchError::Driver);
    assert_eq!(from_runtime_error(cudaError_t::cudaErrorInvalidValue as i32), LaunchError::Fatal);
}

#[test]
fn success_is_not_an_error() {
    assert_eq!(classify(CUDA_SUCCESS), None);
    assert!(map_err(CUDA_SUCCESS).is_ok());
}

#[test]
fn oom_whitelist() {
    assert_eq!(classify(CUDA_ERROR_MEMORY_ALLOCATION), Some(LaunchError::Oom));
}

#[test]
fn driver_whitelist() {
    for code in [CUDA_ERROR_NO_DEVICE, CUDA_ERROR_DEVICES_UNAVAILABLE, CUDA_ERROR_ILLEGAL_ADDRESS] {
        assert_eq!(classify(code), Some(LaunchError::Driver), "code={code}");
    }
}

#[test]
fn fail_closed_default_fatal() {
    for code in [1, 3, 12345, i32::MAX] {
        assert_eq!(classify(code), Some(LaunchError::Fatal), "code={code}");
    }
}

#[test]
fn map_err_roundtrip() {
    assert_eq!(map_err(CUDA_ERROR_MEMORY_ALLOCATION), Err(LaunchError::Oom));
    assert_eq!(map_err(99), Err(LaunchError::Fatal));
}

#[test]
fn event_query_status_completed_is_true() {
    assert_eq!(event_query_status(CUDA_SUCCESS), Ok(true));
}

#[test]
fn event_query_status_not_ready_is_false() {
    assert_eq!(event_query_status(CUDA_ERROR_NOT_READY), Ok(false));
}

#[test]
fn event_query_status_other_hits_whitelist() {
    assert_eq!(event_query_status(1), Err(LaunchError::Fatal));
    assert_eq!(event_query_status(CUDA_ERROR_MEMORY_ALLOCATION), Err(LaunchError::Oom));
}

#[test]
fn codes_are_those_of_the_runtime() {
    assert_eq!(cudaError_t::cudaSuccess as i32, CUDA_SUCCESS);
    assert_eq!(cudaError_t::cudaErrorMemoryAllocation as i32, CUDA_ERROR_MEMORY_ALLOCATION);
    assert_eq!(cudaError_t::cudaErrorNoDevice as i32, CUDA_ERROR_NO_DEVICE);
    assert_eq!(cudaError_t::cudaErrorDevicesUnavailable as i32, CUDA_ERROR_DEVICES_UNAVAILABLE);
    assert_eq!(cudaError_t::cudaErrorIllegalAddress as i32, CUDA_ERROR_ILLEGAL_ADDRESS);
    assert_eq!(cudaError_t::cudaErrorNotReady as i32, CUDA_ERROR_NOT_READY);
}

#[test]
fn cublas_statuses() {
    assert_eq!(map_status(0), Ok(()));
    assert_eq!(map_status(3), Err(LaunchError::Oom));
    assert_eq!(map_status(7), Err(LaunchError::Fatal));
    assert_eq!(status_message(3), "cublas: alloc failed");
    assert_eq!(status_message(1), "cublas: not initialized");
    assert_eq!(status_message(7), "cublas: invalid value");
    assert_eq!(status_message(13), "cublas: internal error");
}

#[test]
fn engine_errors_in_words() {
    let t = "missing".to_string();
    assert_eq!(EngineError::from(LaunchError::Oom), EngineError::Launch(LaunchError::Oom));
    assert_eq!(EngineError::Launch(LaunchError::Oom).message("oom"), "launch: oom");
    assert_eq!(EngineError::Arch(t.clone()).message(""), "arch: missing");
    assert_eq!(EngineError::Io(t.clone()).message(""), "io: missing");
    assert_eq!(EngineError::Sts(t.clone()).message(""), "safetensors: missing");
    assert_eq!(EngineError::MissingTensor(t.clone()).message(""), "missing tensor: missing");
    assert_eq!(EngineError::WeightShape(t.clone()).message(""), "weight shape: missing");
    assert_eq!(EngineError::UnsupportedDtype(t).message(""), "unsupported dtype: missing");
    assert_eq!(EngineError::EmbeddingOov(151936).message(""), "embedding OOV token: 151936");
    assert_eq!(
        EngineError::NaNLogits.message(""),
        "logits contain only NaN — refuse to sample"
    );
}
