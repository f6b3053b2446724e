use qtom_core::cuda::{
    CUDA_BUFFER_LENGTH_MISMATCH_REASON, CUDA_DEVICE_BUFFER_CONTEXT, CUDA_DRIVER_INIT_FAILED_REASON,
    CUDA_PLAN_CONTEXT, CUDA_RUNTIME_AVAILABLE_REASON, CUDA_RUNTIME_FEATURE_DISABLED_REASON,
    ROUTE_AGENTS_K1_KERNEL_NAME, SCAFFOLD_REASON,
};
use qtom_core::{
    CudaBackendStatus, CudaBufferPlan, CudaDeviceBuffer, CudaKernelLaunchConfig, CudaRuntime,
    CudaRuntimeError, CudaRuntimeStatus, RouteError, detect_cuda_runtime,
};
use std::mem::size_of;

#[test]
fn buffer_plan_matches_flat_cuda_layout() {
    let plan = CudaBufferPlan::try_new(8, 4, 16, 3).unwrap();

    assert_eq!(plan.agent_id_u32_len, 8);
    assert_eq!(plan.agent_vector_f32_len, 128);
    assert_eq!(plan.request_vector_f32_len, 64);
    assert_eq!(plan.output_candidate_u32_len, 12);
    assert_eq!(plan.output_effective_f32_len, 12);
    assert_eq!(plan.output_base_f32_len, 12);
    assert_eq!(plan.output_flag_u32_len, 4);
}

#[test]
fn buffer_plan_rejects_overflow() {
    let error = CudaBufferPlan::try_new(usize::MAX, 2, 2, 1).unwrap_err();

    assert_eq!(
        error,
        RouteError::BufferSizeOverflow {
            context: CUDA_PLAN_CONTEXT
        }
    );
}

#[test]
fn device_buffer_byte_len_rejects_overflow() {
    let error = CudaDeviceBuffer::<u32>::checked_byte_len(usize::MAX).unwrap_err();

    assert_eq!(
        error,
        CudaRuntimeError::ResourceSizeOverflow(CUDA_DEVICE_BUFFER_CONTEXT)
    );
}

#[test]
fn launch_config_uses_one_block_for_empty_work() {
    let config = CudaKernelLaunchConfig::for_1d_thread_count(0, 128).unwrap();

    assert_eq!(config.grid_dim_x(), 1);
    assert_eq!(config.block_dim_x(), 128);
}

#[test]
fn launch_config_rounds_up_grid_width() {
    let config = CudaKernelLaunchConfig::for_1d_thread_count(129, 128).unwrap();

    assert_eq!(config.grid_dim_x(), 2);
    assert_eq!(config.block_dim_x(), 128);
}

#[test]
fn launch_config_rejects_zero_block_width() {
    let error = CudaKernelLaunchConfig::for_1d_thread_count(1, 0).unwrap_err();

    assert_eq!(error, CudaRuntimeError::InvalidLaunchConfig("block_dim_x"));
}

#[test]
fn resource_wrappers_round_trip_when_runtime_available() {
    let Ok(runtime) = CudaRuntime::initialize() else {
        return;
    };

    let stream = runtime.create_stream().unwrap();
    stream.synchronize().unwrap();
    stream.destroy().unwrap();

    let buffer = runtime.allocate_device_buffer::<f32>(16).unwrap();
    assert_eq!(buffer.len(), 16);
    assert_eq!(buffer.byte_len(), 16 * size_of::<f32>());
    assert!(!buffer.is_empty());
    buffer.free().unwrap();

    let empty = runtime.allocate_device_buffer::<u32>(0).unwrap();
    assert_eq!(empty.len(), 0);
    assert_eq!(empty.byte_len(), 0);
    assert!(empty.is_empty());
    empty.free().unwrap();
}

#[test]
fn runtime_status_is_consistent() {
    let status = detect_cuda_runtime();

    if status.available {
        assert!(status.device_count > 0);
        assert_eq!(status.reason, CUDA_RUNTIME_AVAILABLE_REASON);
        assert_eq!(status.error_code, None);
    } else {
        assert_eq!(status.device_count, 0);
        assert!(!status.reason.is_empty());
    }
}

#[test]
fn runtime_status_reports_disabled_without_feature() {
    let status = detect_cuda_runtime();

    assert_eq!(
        status,
        CudaRuntimeStatus::unavailable(CUDA_RUNTIME_FEATURE_DISABLED_REASON, None)
    );
}

#[test]
fn buffer_plan_totals_add_up_each_element_kind() {
    let plan = CudaBufferPlan::try_new(8, 4, 16, 3).unwrap();

    assert_eq!(plan.total_f32_len(), 128 + 64 + 8 + 12 + 12);
    assert_eq!(plan.total_u32_len(), 8 + 8 + 12 + 4);
}

#[test]
fn buffer_plan_rejects_overflowing_totals() {
    let error = CudaBufferPlan::try_new(usize::MAX / 2, 1, 1, 1).unwrap_err();

    assert_eq!(
        error,
        RouteError::BufferSizeOverflow {
            context: CUDA_PLAN_CONTEXT
        }
    );
}

#[test]
fn device_buffer_byte_len_scales_by_element_size() {
    assert_eq!(CudaDeviceBuffer::<u32>::checked_byte_len(16), Ok(64));
    assert_eq!(CudaDeviceBuffer::<u64>::checked_byte_len(3), Ok(24));
}

#[test]
fn launch_config_covers_exact_multiples_without_extra_block() {
    let config = CudaKernelLaunchConfig::for_1d_thread_count(256, 128).unwrap();

    assert_eq!(config.grid_dim_x(), 2);
    assert_eq!(config.grid_dim_y(), 1);
    assert_eq!(config.grid_dim_z(), 1);
    assert_eq!(config.block_dim_y(), 1);
    assert_eq!(config.block_dim_z(), 1);
    assert_eq!(config.shared_mem_bytes(), 0);
}

#[test]
fn runtime_error_status_carries_reason_and_driver_code() {
    assert_eq!(
        CudaRuntimeError::DriverInitFailed(-3).status(),
        CudaRuntimeStatus::unavailable(CUDA_DRIVER_INIT_FAILED_REASON, Some(-3))
    );
    assert_eq!(
        CudaRuntimeError::ResourceSizeOverflow("x").status().error_code,
        None
    );
}

#[test]
fn runtime_error_messages_name_reason_and_detail() {
    assert_eq!(
        CudaRuntimeError::DriverInitFailed(-3).to_string(),
        "CUDA driver initialization failed: -3"
    );
    assert_eq!(
        CudaRuntimeError::InvalidLaunchConfig("block_dim_x").to_string(),
        "CUDA kernel launch config is invalid: block_dim_x"
    );
    assert_eq!(
        CudaRuntimeError::BufferLengthMismatch {
            buffer: "host_to_device_source",
            expected: 4,
            actual: 3
        }
        .to_string(),
        format!("{CUDA_BUFFER_LENGTH_MISMATCH_REASON}: host_to_device_source expected 4, got 3")
    );
    assert_eq!(
        CudaRuntimeError::FeatureDisabled.to_string(),
        CUDA_RUNTIME_FEATURE_DISABLED_REASON
    );
}

#[test]
fn backend_status_stays_closed_over_any_runtime() {
    let runtime = CudaRuntimeStatus::available(2);
    let status = CudaBackendStatus::from_runtime(runtime);

    assert!(!status.available);
    assert_eq!(status.reason, SCAFFOLD_REASON);
    assert_eq!(status.runtime, runtime);
    assert_eq!(runtime.reason, CUDA_RUNTIME_AVAILABLE_REASON);

    let closed = CudaBackendStatus::unavailable("no k>1 kernel");
    assert!(!closed.available);
    assert_eq!(closed.reason, "no k>1 kernel");
    assert_eq!(closed.runtime, detect_cuda_runtime());
}

#[test]
fn runtime_initialization_reports_the_disabled_feature() {
    let error = CudaRuntime::initialize().unwrap_err();

    assert_eq!(error, CudaRuntimeError::FeatureDisabled);
    assert_eq!(ROUTE_AGENTS_K1_KERNEL_NAME, "qtom_route_agents_k1");
}
