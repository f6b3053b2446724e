//! The CUDA backend surface as this build has it: runtime and backend
//! statuses, the runtime error vocabulary with its statuses and messages,
//! the flat device-buffer plan, 1-D launch geometry, and the runtime
//! resource types. This build carries no driver binding, so detection
//! reports the runtime feature as disabled and every driver operation
//! fails with that error after its argument checks.
use vstd::prelude::*;
use core::marker::PhantomData;
use crate::text::{decimal, push_decimal, push_signed, push_text, signed_decimal};
use crate::types::RouteError;

verus! {

/// The name routers report for the CUDA backend.
pub const CUDA_BACKEND_NAME: &'static str = "cuda";

/// The entry point of the route-agents kernel.
pub const ROUTE_AGENTS_K1_KERNEL_NAME: &'static str = "qtom_route_agents_k1";

/// Why the CUDA router stays closed even when a runtime is present.
pub const SCAFFOLD_REASON: &'static str = "CUDA public routing is limited to k=1";

/// The reason an available runtime reports.
pub const CUDA_RUNTIME_AVAILABLE_REASON: &'static str = "CUDA driver runtime is available";
pub const CUDA_RUNTIME_FEATURE_DISABLED_REASON: &'static str = "CUDA runtime feature is disabled";
pub const CUDA_RUNTIME_UNSUPPORTED_REASON: &'static str = "CUDA runtime detection is unsupported on this platform";
pub const CUDA_DRIVER_NOT_FOUND_REASON: &'static str = "CUDA driver library was not found";
pub const CUDA_DRIVER_SYMBOL_MISSING_REASON: &'static str = "CUDA driver library is missing a required symbol";
pub const CUDA_DRIVER_INIT_FAILED_REASON: &'static str = "CUDA driver initialization failed";
pub const CUDA_DEVICE_COUNT_FAILED_REASON: &'static str = "CUDA device count query failed";
pub const CUDA_NO_DEVICE_REASON: &'static str = "CUDA driver reported no devices";
pub const CUDA_DEVICE_GET_FAILED_REASON: &'static str = "CUDA device query failed";
pub const CUDA_CONTEXT_RETAIN_FAILED_REASON: &'static str = "CUDA primary context retain failed";
pub const CUDA_CONTEXT_SET_CURRENT_FAILED_REASON: &'static str = "CUDA context activation failed";
pub const CUDA_DEVICE_ALLOC_FAILED_REASON: &'static str = "CUDA device allocation failed";
pub const CUDA_DEVICE_FREE_FAILED_REASON: &'static str = "CUDA device free failed";
pub const CUDA_HOST_TO_DEVICE_COPY_FAILED_REASON: &'static str = "CUDA host-to-device copy failed";
pub const CUDA_DEVICE_TO_HOST_COPY_FAILED_REASON: &'static str = "CUDA device-to-host copy failed";
pub const CUDA_STREAM_CREATE_FAILED_REASON: &'static str = "CUDA stream create failed";
pub const CUDA_STREAM_DESTROY_FAILED_REASON: &'static str = "CUDA stream destroy failed";
pub const CUDA_STREAM_SYNCHRONIZE_FAILED_REASON: &'static str = "CUDA stream synchronize failed";
pub const CUDA_EVENT_CREATE_FAILED_REASON: &'static str = "CUDA event create failed";
pub const CUDA_EVENT_DESTROY_FAILED_REASON: &'static str = "CUDA event destroy failed";
pub const CUDA_EVENT_RECORD_FAILED_REASON: &'static str = "CUDA event record failed";
pub const CUDA_EVENT_SYNCHRONIZE_FAILED_REASON: &'static str = "CUDA event synchronize failed";
pub const CUDA_EVENT_ELAPSED_TIME_FAILED_REASON: &'static str = "CUDA event elapsed time query failed";
pub const CUDA_MODULE_IMAGE_CONTAINS_NUL_REASON: &'static str = "CUDA module image contains an interior nul";
pub const CUDA_MODULE_LOAD_FAILED_REASON: &'static str = "CUDA module load failed";
pub const CUDA_MODULE_UNLOAD_FAILED_REASON: &'static str = "CUDA module unload failed";
pub const CUDA_FUNCTION_NAME_CONTAINS_NUL_REASON: &'static str = "CUDA function name contains an interior nul";
pub const CUDA_FUNCTION_LOOKUP_FAILED_REASON: &'static str = "CUDA function lookup failed";
pub const CUDA_INVALID_LAUNCH_CONFIG_REASON: &'static str = "CUDA kernel launch config is invalid";
pub const CUDA_KERNEL_LAUNCH_FAILED_REASON: &'static str = "CUDA kernel launch failed";
pub const CUDA_BUFFER_LENGTH_MISMATCH_REASON: &'static str = "CUDA buffer length mismatch";
pub const CUDA_RESOURCE_SIZE_OVERFLOW_REASON: &'static str = "CUDA resource size overflow";

/// What a CUDA buffer plan names when its sizes overflow.
pub const CUDA_PLAN_CONTEXT: &'static str = "cuda buffer plan";

/// What a device buffer names when its byte length overflows.
pub const CUDA_DEVICE_BUFFER_CONTEXT: &'static str = "cuda device buffer";

/// The block width of the route-agents kernel.
pub const ROUTE_AGENTS_K1_BLOCK_DIM_X: u32 = 128;

/// Whether a CUDA runtime is usable, on how many devices, and why.
#[derive(Clone, Copy, Debug, PartialEq, Eq)]
pub struct CudaRuntimeStatus {
    pub available: bool,
    pub device_count: usize,
    pub reason: &'static str,
    pub error_code: Option<i32>,
}

impl CudaRuntimeStatus {
    /// The status of a runtime with `device_count` devices.
    pub fn available(device_count: usize) -> (r: Self)
        ensures
            r == (CudaRuntimeStatus {
                available: true,
                device_count,
                reason: CUDA_RUNTIME_AVAILABLE_REASON,
                error_code: None,
            }),
    {
        CudaRuntimeStatus {
            available: true,
            device_count,
            reason: CUDA_RUNTIME_AVAILABLE_REASON,
            error_code: None,
        }
    }

    /// The status of an unusable runtime: no devices, a reason and maybe a driver code.
    pub fn unavailable(reason: &'static str, error_code: Option<i32>) -> (r: Self)
        ensures
            r == unavailable_status(reason, error_code),
    {
        CudaRuntimeStatus { available: false, device_count: 0, reason, error_code }
    }
}

/// The status of an unusable runtime.
pub open spec fn unavailable_status(reason: &'static str, error_code: Option<i32>) -> CudaRuntimeStatus {
    CudaRuntimeStatus { available: false, device_count: 0, reason, error_code }
}

/// Whether the CUDA backend can route, why, and the runtime beneath it.
#[derive(Clone, Copy, Debug, PartialEq, Eq)]
pub struct CudaBackendStatus {
    pub available: bool,
    pub reason: &'static str,
    pub runtime: CudaRuntimeStatus,
}

impl CudaBackendStatus {
    /// A closed backend for `reason`, over the runtime this build detects.
    pub fn unavailable(reason: &'static str) -> (r: Self)
        ensures
            r == (CudaBackendStatus { available: false, reason, runtime: detected_runtime_status() }),
    {
        CudaBackendStatus { available: false, reason, runtime: detect_cuda_runtime() }
    }

    /// The backend over `runtime`: closed, since public routing is limited to k=1.
    pub fn from_runtime(runtime: CudaRuntimeStatus) -> (r: Self)
        ensures
            r == (CudaBackendStatus { available: false, reason: SCAFFOLD_REASON, runtime }),
    {
        CudaBackendStatus { available: false, reason: SCAFFOLD_REASON, runtime }
    }
}

/// Why a CUDA runtime operation failed.
#[derive(Clone, Copy, Debug, PartialEq, Eq)]
pub enum CudaRuntimeError {
    FeatureDisabled,
    UnsupportedPlatform,
    DriverLibraryNotFound,
    MissingSymbol(&'static str),
    DriverInitFailed(i32),
    DeviceCountFailed(i32),
    NoDevice,
    DeviceGetFailed(i32),
    PrimaryContextRetainFailed(i32),
    ContextSetCurrentFailed(i32),
    DeviceAllocFailed(i32),
    DeviceFreeFailed(i32),
    HostToDeviceCopyFailed(i32),
    DeviceToHostCopyFailed(i32),
    StreamCreateFailed(i32),
    StreamDestroyFailed(i32),
    StreamSynchronizeFailed(i32),
    EventCreateFailed(i32),
    EventDestroyFailed(i32),
    EventRecordFailed(i32),
    EventSynchronizeFailed(i32),
    EventElapsedTimeFailed(i32),
    ModuleImageContainsNul,
    ModuleLoadFailed(i32),
    ModuleUnloadFailed(i32),
    FunctionNameContainsNul,
    FunctionLookupFailed(i32),
    InvalidLaunchConfig(&'static str),
    KernelLaunchFailed(i32),
    BufferLengthMismatch { buffer: &'static str, expected: usize, actual: usize },
    ResourceSizeOverflow(&'static str),
}

/// The runtime status an error stands for: unavailable, with the error's
/// reason and, where the driver gave one, its code.
pub open spec fn runtime_error_status(e: CudaRuntimeError) -> CudaRuntimeStatus {
    match e {
        CudaRuntimeError::FeatureDisabled => unavailable_status(CUDA_RUNTIME_FEATURE_DISABLED_REASON, None),
        CudaRuntimeError::UnsupportedPlatform => unavailable_status(CUDA_RUNTIME_UNSUPPORTED_REASON, None),
        CudaRuntimeError::DriverLibraryNotFound => unavailable_status(CUDA_DRIVER_NOT_FOUND_REASON, None),
        CudaRuntimeError::MissingSymbol(_) => unavailable_status(CUDA_DRIVER_SYMBOL_MISSING_REASON, None),
        CudaRuntimeError::DriverInitFailed(code) => unavailable_status(CUDA_DRIVER_INIT_FAILED_REASON, Some(code)),
        CudaRuntimeError::DeviceCountFailed(code) => unavailable_status(CUDA_DEVICE_COUNT_FAILED_REASON, Some(code)),
        CudaRuntimeError::NoDevice => unavailable_status(CUDA_NO_DEVICE_REASON, None),
        CudaRuntimeError::DeviceGetFailed(code) => unavailable_status(CUDA_DEVICE_GET_FAILED_REASON, Some(code)),
        CudaRuntimeError::PrimaryContextRetainFailed(code) => unavailable_status(CUDA_CONTEXT_RETAIN_FAILED_REASON, Some(code)),
        CudaRuntimeError::ContextSetCurrentFailed(code) => unavailable_status(CUDA_CONTEXT_SET_CURRENT_FAILED_REASON, Some(code)),
        CudaRuntimeError::DeviceAllocFailed(code) => unavailable_status(CUDA_DEVICE_ALLOC_FAILED_REASON, Some(code)),
        CudaRuntimeError::DeviceFreeFailed(code) => unavailable_status(CUDA_DEVICE_FREE_FAILED_REASON, Some(code)),
        CudaRuntimeError::HostToDeviceCopyFailed(code) => unavailable_status(CUDA_HOST_TO_DEVICE_COPY_FAILED_REASON, Some(code)),
        CudaRuntimeError::DeviceToHostCopyFailed(code) => unavailable_status(CUDA_DEVICE_TO_HOST_COPY_FAILED_REASON, Some(code)),
        CudaRuntimeError::StreamCreateFailed(code) => unavailable_status(CUDA_STREAM_CREATE_FAILED_REASON, Some(code)),
        CudaRuntimeError::StreamDestroyFailed(code) => unavailable_status(CUDA_STREAM_DESTROY_FAILED_REASON, Some(code)),
        CudaRuntimeError::StreamSynchronizeFailed(code) => unavailable_status(CUDA_STREAM_SYNCHRONIZE_FAILED_REASON, Some(code)),
        CudaRuntimeError::EventCreateFailed(code) => unavailable_status(CUDA_EVENT_CREATE_FAILED_REASON, Some(code)),
        CudaRuntimeError::EventDestroyFailed(code) => unavailable_status(CUDA_EVENT_DESTROY_FAILED_REASON, Some(code)),
        CudaRuntimeError::EventRecordFailed(code) => unavailable_status(CUDA_EVENT_RECORD_FAILED_REASON, Some(code)),
        CudaRuntimeError::EventSynchronizeFailed(code) => unavailable_status(CUDA_EVENT_SYNCHRONIZE_FAILED_REASON, Some(code)),
        CudaRuntimeError::EventElapsedTimeFailed(code) => unavailable_status(CUDA_EVENT_ELAPSED_TIME_FAILED_REASON, Some(code)),
        CudaRuntimeError::ModuleImageContainsNul => unavailable_status(CUDA_MODULE_IMAGE_CONTAINS_NUL_REASON, None),
        CudaRuntimeError::ModuleLoadFailed(code) => unavailable_status(CUDA_MODULE_LOAD_FAILED_REASON, Some(code)),
        CudaRuntimeError::ModuleUnloadFailed(code) => unavailable_status(CUDA_MODULE_UNLOAD_FAILED_REASON, Some(code)),
        CudaRuntimeError::FunctionNameContainsNul => unavailable_status(CUDA_FUNCTION_NAME_CONTAINS_NUL_REASON, None),
        CudaRuntimeError::FunctionLookupFailed(code) => unavailable_status(CUDA_FUNCTION_LOOKUP_FAILED_REASON, Some(code)),
        CudaRuntimeError::InvalidLaunchConfig(_) => unavailable_status(CUDA_INVALID_LAUNCH_CONFIG_REASON, None),
        CudaRuntimeError::KernelLaunchFailed(code) => unavailable_status(CUDA_KERNEL_LAUNCH_FAILED_REASON, Some(code)),
        CudaRuntimeError::BufferLengthMismatch { .. } => unavailable_status(CUDA_BUFFER_LENGTH_MISMATCH_REASON, None),
        CudaRuntimeError::ResourceSizeOverflow(_) => unavailable_status(CUDA_RESOURCE_SIZE_OVERFLOW_REASON, None),
    }
}

/// The message of a runtime error: its reason, then what it names.
pub open spec fn runtime_error_text(e: CudaRuntimeError) -> Seq<char> {
    match e {
        CudaRuntimeError::FeatureDisabled => CUDA_RUNTIME_FEATURE_DISABLED_REASON@,
        CudaRuntimeError::UnsupportedPlatform => CUDA_RUNTIME_UNSUPPORTED_REASON@,
        CudaRuntimeError::DriverLibraryNotFound => CUDA_DRIVER_NOT_FOUND_REASON@,
        CudaRuntimeError::MissingSymbol(what) => CUDA_DRIVER_SYMBOL_MISSING_REASON@ + ": "@ + what@,
        CudaRuntimeError::DriverInitFailed(code) => CUDA_DRIVER_INIT_FAILED_REASON@ + ": "@ + signed_decimal(code as int),
        CudaRuntimeError::DeviceCountFailed(code) => CUDA_DEVICE_COUNT_FAILED_REASON@ + ": "@ + signed_decimal(code as int),
        CudaRuntimeError::NoDevice => CUDA_NO_DEVICE_REASON@,
        CudaRuntimeError::DeviceGetFailed(code) => CUDA_DEVICE_GET_FAILED_REASON@ + ": "@ + signed_decimal(code as int),
        CudaRuntimeError::PrimaryContextRetainFailed(code) => CUDA_CONTEXT_RETAIN_FAILED_REASON@ + ": "@ + signed_decimal(code as int),
        CudaRuntimeError::ContextSetCurrentFailed(code) => CUDA_CONTEXT_SET_CURRENT_FAILED_REASON@ + ": "@ + signed_decimal(code as int),
        CudaRuntimeError::DeviceAllocFailed(code) => CUDA_DEVICE_ALLOC_FAILED_REASON@ + ": "@ + signed_decimal(code as int),
        CudaRuntimeError::DeviceFreeFailed(code) => CUDA_DEVICE_FREE_FAILED_REASON@ + ": "@ + signed_decimal(code as int),
        CudaRuntimeError::HostToDeviceCopyFailed(code) => CUDA_HOST_TO_DEVICE_COPY_FAILED_REASON@ + ": "@ + signed_decimal(code as int),
        CudaRuntimeError::DeviceToHostCopyFailed(code) => CUDA_DEVICE_TO_HOST_COPY_FAILED_REASON@ + ": "@ + signed_decimal(code as int),
        CudaRuntimeError::StreamCreateFailed(code) => CUDA_STREAM_CREATE_FAILED_REASON@ + ": "@ + signed_decimal(code as int),
        CudaRuntimeError::StreamDestroyFailed(code) => CUDA_STREAM_DESTROY_FAILED_REASON@ + ": "@ + signed_decimal(code as int),
        CudaRuntimeError::StreamSynchronizeFailed(code) => CUDA_STREAM_SYNCHRONIZE_FAILED_REASON@ + ": "@ + signed_decimal(code as int),
        CudaRuntimeError::EventCreateFailed(code) => CUDA_EVENT_CREATE_FAILED_REASON@ + ": "@ + signed_decimal(code as int),
        CudaRuntimeError::EventDestroyFailed(code) => CUDA_EVENT_DESTROY_FAILED_REASON@ + ": "@ + signed_decimal(code as int),
        CudaRuntimeError::EventRecordFailed(code) => CUDA_EVENT_RECORD_FAILED_REASON@ + ": "@ + signed_decimal(code as int),
        CudaRuntimeError::EventSynchronizeFailed(code) => CUDA_EVENT_SYNCHRONIZE_FAILED_REASON@ + ": "@ + signed_decimal(code as int),
        CudaRuntimeError::EventElapsedTimeFailed(code) => CUDA_EVENT_ELAPSED_TIME_FAILED_REASON@ + ": "@ + signed_decimal(code as int),
        CudaRuntimeError::ModuleImageContainsNul => CUDA_MODULE_IMAGE_CONTAINS_NUL_REASON@,
        CudaRuntimeError::ModuleLoadFailed(code) => CUDA_MODULE_LOAD_FAILED_REASON@ + ": "@ + signed_decimal(code as int),
        CudaRuntimeError::ModuleUnloadFailed(code) => CUDA_MODULE_UNLOAD_FAILED_REASON@ + ": "@ + signed_decimal(code as int),
        CudaRuntimeError::FunctionNameContainsNul => CUDA_FUNCTION_NAME_CONTAINS_NUL_REASON@,
        CudaRuntimeError::FunctionLookupFailed(code) => CUDA_FUNCTION_LOOKUP_FAILED_REASON@ + ": "@ + signed_decimal(code as int),
        CudaRuntimeError::InvalidLaunchConfig(what) => CUDA_INVALID_LAUNCH_CONFIG_REASON@ + ": "@ + what@,
        CudaRuntimeError::KernelLaunchFailed(code) => CUDA_KERNEL_LAUNCH_FAILED_REASON@ + ": "@ + signed_decimal(code as int),
        CudaRuntimeError::BufferLengthMismatch { buffer, expected, actual } => CUDA_BUFFER_LENGTH_MISMATCH_REASON@ + ": "@ + buffer@
            + " expected "@ + decimal(expected as nat) + ", got "@ + decimal(actual as nat),
        CudaRuntimeError::ResourceSizeOverflow(what) => CUDA_RESOURCE_SIZE_OVERFLOW_REASON@ + ": "@ + what@,
    }
}

impl CudaRuntimeError {
    /// The runtime status this error stands for.
    pub fn status(self) -> (r: CudaRuntimeStatus)
        ensures
            r == runtime_error_status(self),
    {
        match self {
            CudaRuntimeError::FeatureDisabled => CudaRuntimeStatus::unavailable(CUDA_RUNTIME_FEATURE_DISABLED_REASON, None),
            CudaRuntimeError::UnsupportedPlatform => CudaRuntimeStatus::unavailable(CUDA_RUNTIME_UNSUPPORTED_REASON, None),
            CudaRuntimeError::DriverLibraryNotFound => CudaRuntimeStatus::unavailable(CUDA_DRIVER_NOT_FOUND_REASON, None),
            CudaRuntimeError::MissingSymbol(_) => CudaRuntimeStatus::unavailable(CUDA_DRIVER_SYMBOL_MISSING_REASON, None),
            CudaRuntimeError::DriverInitFailed(code) => CudaRuntimeStatus::unavailable(CUDA_DRIVER_INIT_FAILED_REASON, Some(code)),
            CudaRuntimeError::DeviceCountFailed(code) => CudaRuntimeStatus::unavailable(CUDA_DEVICE_COUNT_FAILED_REASON, Some(code)),
            CudaRuntimeError::NoDevice => CudaRuntimeStatus::unavailable(CUDA_NO_DEVICE_REASON, None),
            CudaRuntimeError::DeviceGetFailed(code) => CudaRuntimeStatus::unavailable(CUDA_DEVICE_GET_FAILED_REASON, Some(code)),
            CudaRuntimeError::PrimaryContextRetainFailed(code) => CudaRuntimeStatus::unavailable(CUDA_CONTEXT_RETAIN_FAILED_REASON, Some(code)),
            CudaRuntimeError::ContextSetCurrentFailed(code) => CudaRuntimeStatus::unavailable(CUDA_CONTEXT_SET_CURRENT_FAILED_REASON, Some(code)),
            CudaRuntimeError::DeviceAllocFailed(code) => CudaRuntimeStatus::unavailable(CUDA_DEVICE_ALLOC_FAILED_REASON, Some(code)),
            CudaRuntimeError::DeviceFreeFailed(code) => CudaRuntimeStatus::unavailable(CUDA_DEVICE_FREE_FAILED_REASON, Some(code)),
            CudaRuntimeError::HostToDeviceCopyFailed(code) => CudaRuntimeStatus::unavailable(CUDA_HOST_TO_DEVICE_COPY_FAILED_REASON, Some(code)),
            CudaRuntimeError::DeviceToHostCopyFailed(code) => CudaRuntimeStatus::unavailable(CUDA_DEVICE_TO_HOST_COPY_FAILED_REASON, Some(code)),
            CudaRuntimeError::StreamCreateFailed(code) => CudaRuntimeStatus::unavailable(CUDA_STREAM_CREATE_FAILED_REASON, Some(code)),
            CudaRuntimeError::StreamDestroyFailed(code) => CudaRuntimeStatus::unavailable(CUDA_STREAM_DESTROY_FAILED_REASON, Some(code)),
            CudaRuntimeError::StreamSynchronizeFailed(code) => CudaRuntimeStatus::unavailable(CUDA_STREAM_SYNCHRONIZE_FAILED_REASON, Some(code)),
            CudaRuntimeError::EventCreateFailed(code) => CudaRuntimeStatus::unavailable(CUDA_EVENT_CREATE_FAILED_REASON, Some(code)),
            CudaRuntimeError::EventDestroyFailed(code) => CudaRuntimeStatus::unavailable(CUDA_EVENT_DESTROY_FAILED_REASON, Some(code)),
            CudaRuntimeError::EventRecordFailed(code) => CudaRuntimeStatus::unavailable(CUDA_EVENT_RECORD_FAILED_REASON, Some(code)),
            CudaRuntimeError::EventSynchronizeFailed(code) => CudaRuntimeStatus::unavailable(CUDA_EVENT_SYNCHRONIZE_FAILED_REASON, Some(code)),
            CudaRuntimeError::EventElapsedTimeFailed(code) => CudaRuntimeStatus::unavailable(CUDA_EVENT_ELAPSED_TIME_FAILED_REASON, Some(code)),
            CudaRuntimeError::ModuleImageContainsNul => CudaRuntimeStatus::unavailable(CUDA_MODULE_IMAGE_CONTAINS_NUL_REASON, None),
            CudaRuntimeError::ModuleLoadFailed(code) => CudaRuntimeStatus::unavailable(CUDA_MODULE_LOAD_FAILED_REASON, Some(code)),
            CudaRuntimeError::ModuleUnloadFailed(code) => CudaRuntimeStatus::unavailable(CUDA_MODULE_UNLOAD_FAILED_REASON, Some(code)),
            CudaRuntimeError::FunctionNameContainsNul => CudaRuntimeStatus::unavailable(CUDA_FUNCTION_NAME_CONTAINS_NUL_REASON, None),
            CudaRuntimeError::FunctionLookupFailed(code) => CudaRuntimeStatus::unavailable(CUDA_FUNCTION_LOOKUP_FAILED_REASON, Some(code)),
            CudaRuntimeError::InvalidLaunchConfig(_) => CudaRuntimeStatus::unavailable(CUDA_INVALID_LAUNCH_CONFIG_REASON, None),
            CudaRuntimeError::KernelLaunchFailed(code) => CudaRuntimeStatus::unavailable(CUDA_KERNEL_LAUNCH_FAILED_REASON, Some(code)),
            CudaRuntimeError::BufferLengthMismatch { .. } => CudaRuntimeStatus::unavailable(CUDA_BUFFER_LENGTH_MISMATCH_REASON, None),
            CudaRuntimeError::ResourceSizeOverflow(_) => CudaRuntimeStatus::unavailable(CUDA_RESOURCE_SIZE_OVERFLOW_REASON, None),
        }
    }

    /// The error's message.
    pub fn to_string(&self) -> (r: String)
        ensures
            r@ == runtime_error_text(*self),
    {
        let mut out = String::new();
        match self {
            CudaRuntimeError::FeatureDisabled => {
                push_text(&mut out, CUDA_RUNTIME_FEATURE_DISABLED_REASON);
            },
            CudaRuntimeError::UnsupportedPlatform => {
                push_text(&mut out, CUDA_RUNTIME_UNSUPPORTED_REASON);
            },
            CudaRuntimeError::DriverLibraryNotFound => {
                push_text(&mut out, CUDA_DRIVER_NOT_FOUND_REASON);
            },
            CudaRuntimeError::MissingSymbol(what) => {
                push_text(&mut out, CUDA_DRIVER_SYMBOL_MISSING_REASON);
                push_text(&mut out, ": ");
                push_text(&mut out, what);
            },
            CudaRuntimeError::DriverInitFailed(code) => {
                push_text(&mut out, CUDA_DRIVER_INIT_FAILED_REASON);
                push_text(&mut out, ": ");
                push_signed(&mut out, *code);
            },
            CudaRuntimeError::DeviceCountFailed(code) => {
                push_text(&mut out, CUDA_DEVICE_COUNT_FAILED_REASON);
                push_text(&mut out, ": ");
                push_signed(&mut out, *code);
            },
            CudaRuntimeError::NoDevice => {
                push_text(&mut out, CUDA_NO_DEVICE_REASON);
            },
            CudaRuntimeError::DeviceGetFailed(code) => {
                push_text(&mut out, CUDA_DEVICE_GET_FAILED_REASON);
                push_text(&mut out, ": ");
                push_signed(&mut out, *code);
            },
            CudaRuntimeError::PrimaryContextRetainFailed(code) => {
                push_text(&mut out, CUDA_CONTEXT_RETAIN_FAILED_REASON);
                push_text(&mut out, ": ");
                push_signed(&mut out, *code);
            },
            CudaRuntimeError::ContextSetCurrentFailed(code) => {
                push_text(&mut out, CUDA_CONTEXT_SET_CURRENT_FAILED_REASON);
                push_text(&mut out, ": ");
                push_signed(&mut out, *code);
            },
            CudaRuntimeError::DeviceAllocFailed(code) => {
                push_text(&mut out, CUDA_DEVICE_ALLOC_FAILED_REASON);
                push_text(&mut out, ": ");
                push_signed(&mut out, *code);
            },
            CudaRuntimeError::DeviceFreeFailed(code) => {
                push_text(&mut out, CUDA_DEVICE_FREE_FAILED_REASON);
                push_text(&mut out, ": ");
                push_signed(&mut out, *code);
            },
            CudaRuntimeError::HostToDeviceCopyFailed(code) => {
                push_text(&mut out, CUDA_HOST_TO_DEVICE_COPY_FAILED_REASON);
                push_text(&mut out, ": ");
                push_signed(&mut out, *code);
            },
            CudaRuntimeError::DeviceToHostCopyFailed(code) => {
                push_text(&mut out, CUDA_DEVICE_TO_HOST_COPY_FAILED_REASON);
                push_text(&mut out, ": ");
                push_signed(&mut out, *code);
            },
            CudaRuntimeError::StreamCreateFailed(code) => {
                push_text(&mut out, CUDA_STREAM_CREATE_FAILED_REASON);
                push_text(&mut out, ": ");
                push_signed(&mut out, *code);
            },
            CudaRuntimeError::StreamDestroyFailed(code) => {
                push_text(&mut out, CUDA_STREAM_DESTROY_FAILED_REASON);
                push_text(&mut out, ": ");
                push_signed(&mut out, *code);
            },
            CudaRuntimeError::StreamSynchronizeFailed(code) => {
                push_text(&mut out, CUDA_STREAM_SYNCHRONIZE_FAILED_REASON);
                push_text(&mut out, ": ");
                push_signed(&mut out, *code);
            },
            CudaRuntimeError::EventCreateFailed(code) => {
                push_text(&mut out, CUDA_EVENT_CREATE_FAILED_REASON);
                push_text(&mut out, ": ");
                push_signed(&mut out, *code);
            },
            CudaRuntimeError::EventDestroyFailed(code) => {
                push_text(&mut out, CUDA_EVENT_DESTROY_FAILED_REASON);
                push_text(&mut out, ": ");
                push_signed(&mut out, *code);
            },
            CudaRuntimeError::EventRecordFailed(code) => {
                push_text(&mut out, CUDA_EVENT_RECORD_FAILED_REASON);
                push_text(&mut out, ": ");
                push_signed(&mut out, *code);
            },
            CudaRuntimeError::EventSynchronizeFailed(code) => {
                push_text(&mut out, CUDA_EVENT_SYNCHRONIZE_FAILED_REASON);
                push_text(&mut out, ": ");
                push_signed(&mut out, *code);
            },
            CudaRuntimeError::EventElapsedTimeFailed(code) => {
                push_text(&mut out, CUDA_EVENT_ELAPSED_TIME_FAILED_REASON);
                push_text(&mut out, ": ");
                push_signed(&mut out, *code);
            },
            CudaRuntimeError::ModuleImageContainsNul => {
                push_text(&mut out, CUDA_MODULE_IMAGE_CONTAINS_NUL_REASON);
            },
            CudaRuntimeError::ModuleLoadFailed(code) => {
                push_text(&mut out, CUDA_MODULE_LOAD_FAILED_REASON);
                push_text(&mut out, ": ");
                push_signed(&mut out, *code);
            },
            CudaRuntimeError::ModuleUnloadFailed(code) => {
                push_text(&mut out, CUDA_MODULE_UNLOAD_FAILED_REASON);
                push_text(&mut out, ": ");
                push_signed(&mut out, *code);
            },
            CudaRuntimeError::FunctionNameContainsNul => {
                push_text(&mut out, CUDA_FUNCTION_NAME_CONTAINS_NUL_REASON);
            },
            CudaRuntimeError::FunctionLookupFailed(code) => {
                push_text(&mut out, CUDA_FUNCTION_LOOKUP_FAILED_REASON);
                push_text(&mut out, ": ");
                push_signed(&mut out, *code);
            },
            CudaRuntimeError::InvalidLaunchConfig(what) => {
                push_text(&mut out, CUDA_INVALID_LAUNCH_CONFIG_REASON);
                push_text(&mut out, ": ");
                push_text(&mut out, what);
            },
            CudaRuntimeError::KernelLaunchFailed(code) => {
                push_text(&mut out, CUDA_KERNEL_LAUNCH_FAILED_REASON);
                push_text(&mut out, ": ");
                push_signed(&mut out, *code);
            },
            CudaRuntimeError::BufferLengthMismatch { buffer, expected, actual } => {
                push_text(&mut out, CUDA_BUFFER_LENGTH_MISMATCH_REASON);
                push_text(&mut out, ": ");
                push_text(&mut out, buffer);
                push_text(&mut out, " expected ");
                push_decimal(&mut out, *expected as u64);
                push_text(&mut out, ", got ");
                push_decimal(&mut out, *actual as u64);
            },
            CudaRuntimeError::ResourceSizeOverflow(what) => {
                push_text(&mut out, CUDA_RESOURCE_SIZE_OVERFLOW_REASON);
                push_text(&mut out, ": ");
                push_text(&mut out, what);
            },
        }
        assert(out@ =~= runtime_error_text(*self));
        out
    }
}

/// The runtime status this build detects: it carries no driver binding, so
/// the runtime feature is reported as disabled.
pub open spec fn detected_runtime_status() -> CudaRuntimeStatus {
    runtime_error_status(CudaRuntimeError::FeatureDisabled)
}

/// Detects the CUDA runtime.
pub fn detect_cuda_runtime() -> (r: CudaRuntimeStatus)
    ensures
        r == detected_runtime_status(),
{
    CudaRuntimeError::FeatureDisabled.status()
}

/// The number of blocks of `block` threads that cover `threads` threads.
pub open spec fn blocks_covering(threads: int, block: int) -> int {
    (threads + block - 1) / block
}

/// The grid width a 1-D launch of `threads` threads in blocks of `block`
/// uses: enough blocks to cover every thread, and at least one.
pub open spec fn grid_width(threads: int, block: int) -> int {
    if blocks_covering(threads, block) < 1 {
        1
    } else {
        blocks_covering(threads, block)
    }
}

/// The grid, block and shared-memory geometry of a kernel launch.
#[derive(Clone, Copy, Debug, PartialEq, Eq)]
pub struct CudaKernelLaunchConfig {
    grid_dim_x: u32,
    grid_dim_y: u32,
    grid_dim_z: u32,
    block_dim_x: u32,
    block_dim_y: u32,
    block_dim_z: u32,
    shared_mem_bytes: u32,
}

impl CudaKernelLaunchConfig {
    /// A one-dimensional launch covering `thread_count` threads in blocks of
    /// `block_dim_x` threads; a zero block width is refused.
    pub fn for_1d_thread_count(thread_count: u32, block_dim_x: u32) -> (r: Result<
        Self,
        CudaRuntimeError,
    >)
        ensures
            block_dim_x == 0 ==> r == Err::<Self, CudaRuntimeError>(
                CudaRuntimeError::InvalidLaunchConfig("block_dim_x"),
            ),
            block_dim_x != 0 ==> (r matches Ok(c) && c.grid_dim_x() == grid_width(
                thread_count as int,
                block_dim_x as int,
            ) && c.grid_dim_y() == 1 && c.grid_dim_z() == 1 && c.block_dim_x() == block_dim_x
                && c.block_dim_y() == 1 && c.block_dim_z() == 1 && c.shared_mem_bytes() == 0),
    {
        if block_dim_x == 0 {
            return Err(CudaRuntimeError::InvalidLaunchConfig("block_dim_x"));
        }
        let blocks: u32 = if thread_count == 0 {
            0
        } else {
            (thread_count - 1) / block_dim_x + 1
        };
        proof {
            let t = thread_count as int;
            let b = block_dim_x as int;
            if t > 0 {
                assert((t - 1 + b) / b == (t - 1) / b + 1) by (nonlinear_arith)
                    requires
                        b > 0,
                        t > 0,
                ;
            } else {
                assert((b - 1) / b == 0) by (nonlinear_arith)
                    requires
                        b > 0,
                ;
            }
        }
        let grid_dim_x = if blocks < 1 {
            1
        } else {
            blocks
        };
        Ok(
            CudaKernelLaunchConfig {
                grid_dim_x,
                grid_dim_y: 1,
                grid_dim_z: 1,
                block_dim_x,
                block_dim_y: 1,
                block_dim_z: 1,
                shared_mem_bytes: 0,
            },
        )
    }

    /// Blocks along x.
    pub closed spec fn spec_grid_dim_x(self) -> u32 {
        self.grid_dim_x
    }

    /// Blocks along x.
    #[verifier::when_used_as_spec(spec_grid_dim_x)]
    pub fn grid_dim_x(self) -> (r: u32)
        ensures
            r == self.spec_grid_dim_x(),
    {
        self.grid_dim_x
    }

    /// Blocks along y.
    pub closed spec fn spec_grid_dim_y(self) -> u32 {
        self.grid_dim_y
    }

    /// Blocks along y.
    #[verifier::when_used_as_spec(spec_grid_dim_y)]
    pub fn grid_dim_y(self) -> (r: u32)
        ensures
            r == self.spec_grid_dim_y(),
    {
        self.grid_dim_y
    }

    /// Blocks along z.
    pub closed spec fn spec_grid_dim_z(self) -> u32 {
        self.grid_dim_z
    }

    /// Blocks along z.
    #[verifier::when_used_as_spec(spec_grid_dim_z)]
    pub fn grid_dim_z(self) -> (r: u32)
        ensures
            r == self.spec_grid_dim_z(),
    {
        self.grid_dim_z
    }

    /// Threads per block along x.
    pub closed spec fn spec_block_dim_x(self) -> u32 {
        self.block_dim_x
    }

    /// Threads per block along x.
    #[verifier::when_used_as_spec(spec_block_dim_x)]
    pub fn block_dim_x(self) -> (r: u32)
        ensures
            r == self.spec_block_dim_x(),
    {
        self.block_dim_x
    }

    /// Threads per block along y.
    pub closed spec fn spec_block_dim_y(self) -> u32 {
        self.block_dim_y
    }

    /// Threads per block along y.
    #[verifier::when_used_as_spec(spec_block_dim_y)]
    pub fn block_dim_y(self) -> (r: u32)
        ensures
            r == self.spec_block_dim_y(),
    {
        self.block_dim_y
    }

    /// Threads per block along z.
    pub closed spec fn spec_block_dim_z(self) -> u32 {
        self.block_dim_z
    }

    /// Threads per block along z.
    #[verifier::when_used_as_spec(spec_block_dim_z)]
    pub fn block_dim_z(self) -> (r: u32)
        ensures
            r == self.spec_block_dim_z(),
    {
        self.block_dim_z
    }

    /// Dynamic shared memory per block, in bytes.
    pub closed spec fn spec_shared_mem_bytes(self) -> u32 {
        self.shared_mem_bytes
    }

    /// Dynamic shared memory per block, in bytes.
    #[verifier::when_used_as_spec(spec_shared_mem_bytes)]
    pub fn shared_mem_bytes(self) -> (r: u32)
        ensures
            r == self.spec_shared_mem_bytes(),
    {
        self.shared_mem_bytes
    }
}

/// The flat buffer layout of a CUDA routing batch: how many `u32` and `f32`
/// elements each device buffer holds.
#[derive(Clone, Copy, Debug, PartialEq, Eq)]
pub struct CudaBufferPlan {
    pub agent_count: usize,
    pub request_count: usize,
    pub dimensions: usize,
    pub k: usize,
    pub agent_id_u32_len: usize,
    pub agent_vector_f32_len: usize,
    pub request_vector_f32_len: usize,
    pub agent_score_weight_f32_len: usize,
    pub availability_u32_len: usize,
    pub output_candidate_u32_len: usize,
    pub output_effective_f32_len: usize,
    pub output_base_f32_len: usize,
    pub output_flag_u32_len: usize,
}

/// The `f32` elements of all the plan's buffers together.
pub open spec fn plan_f32_total(p: CudaBufferPlan) -> int {
    p.agent_vector_f32_len + p.request_vector_f32_len + p.agent_score_weight_f32_len
        + p.output_effective_f32_len + p.output_base_f32_len
}

/// The `u32` elements of all the plan's buffers together.
pub open spec fn plan_u32_total(p: CudaBufferPlan) -> int {
    p.agent_id_u32_len + p.availability_u32_len + p.output_candidate_u32_len
        + p.output_flag_u32_len
}

/// Whether every buffer size of a batch, and both totals, fit in `usize`.
pub open spec fn plan_fits(agents: int, requests: int, dimensions: int, k: int) -> bool {
    &&& requests * k <= usize::MAX
    &&& agents * dimensions <= usize::MAX
    &&& requests * dimensions <= usize::MAX
    &&& agents * dimensions + requests * dimensions + agents + 2 * (requests * k) <= usize::MAX
    &&& agents + agents + requests * k + requests <= usize::MAX
}

/// The plan of a batch whose sizes fit: agent vectors hold `dimensions`
/// elements per agent, request vectors per request, and each request has
/// `k` output candidate slots.
pub open spec fn plan_of(agents: usize, requests: usize, dimensions: usize, k: usize) -> CudaBufferPlan {
    CudaBufferPlan {
        agent_count: agents,
        request_count: requests,
        dimensions,
        k,
        agent_id_u32_len: agents,
        agent_vector_f32_len: (agents * dimensions) as usize,
        request_vector_f32_len: (requests * dimensions) as usize,
        agent_score_weight_f32_len: agents,
        availability_u32_len: agents,
        output_candidate_u32_len: (requests * k) as usize,
        output_effective_f32_len: (requests * k) as usize,
        output_base_f32_len: (requests * k) as usize,
        output_flag_u32_len: requests,
    }
}

/// The sum of `values`.
pub open spec fn sum_of(values: Seq<usize>) -> int
    decreases values.len(),
{
    if values.len() == 0 {
        0
    } else {
        sum_of(values.drop_last()) + values.last()
    }
}

proof fn lemma_sum_of_prefix(values: Seq<usize>, i: int)
    requires
        0 <= i <= values.len(),
    ensures
        sum_of(values.take(i)) <= sum_of(values),
    decreases values.len() - i,
{
    if i < values.len() {
        lemma_sum_of_prefix(values, i + 1);
        assert(values.take(i + 1).drop_last() =~= values.take(i));
    } else {
        assert(values.take(i) =~= values);
    }
}

fn checked_product(left: usize, right: usize) -> (r: Result<usize, RouteError>)
    ensures
        left * right <= usize::MAX ==> r == Ok::<usize, RouteError>((left * right) as usize),
        left * right > usize::MAX ==> r == Err::<usize, RouteError>(
            RouteError::BufferSizeOverflow { context: CUDA_PLAN_CONTEXT },
        ),
{
    match left.checked_mul(right) {
        Some(v) => Ok(v),
        None => Err(RouteError::BufferSizeOverflow { context: CUDA_PLAN_CONTEXT }),
    }
}

fn checked_total(values: &Vec<usize>) -> (r: Result<usize, RouteError>)
    ensures
        sum_of(values@) <= usize::MAX ==> r == Ok::<usize, RouteError>(sum_of(values@) as usize),
        sum_of(values@) > usize::MAX ==> r == Err::<usize, RouteError>(
            RouteError::BufferSizeOverflow { context: CUDA_PLAN_CONTEXT },
        ),
{
    let n = values.len();
    let mut total: usize = 0;
    let mut i: usize = 0;
    while i < n
        invariant
            n == values@.len(),
            i <= n,
            total == sum_of(values@.take(i as int)),
        decreases n - i,
    {
        proof {
            assert(values@.take(i + 1).drop_last() =~= values@.take(i as int));
        }
        match total.checked_add(values[i]) {
            Some(t) => {
                total = t;
            },
            None => {
                proof {
                    lemma_sum_of_prefix(values@, i + 1);
                }
                return Err(RouteError::BufferSizeOverflow { context: CUDA_PLAN_CONTEXT });
            },
        }
        i = i + 1;
    }
    assert(values@.take(n as int) =~= values@);
    Ok(total)
}

impl CudaBufferPlan {
    /// The plan of a batch of `request_count` requests over `agent_count`
    /// agents with `dimensions`-wide vectors and `k` candidates per request;
    /// refused when a buffer size or a total overflows.
    pub fn try_new(agent_count: usize, request_count: usize, dimensions: usize, k: usize) -> (r:
        Result<Self, RouteError>)
        ensures
            plan_fits(agent_count as int, request_count as int, dimensions as int, k as int) ==> r
                == Ok::<Self, RouteError>(plan_of(agent_count, request_count, dimensions, k)),
            !plan_fits(agent_count as int, request_count as int, dimensions as int, k as int) ==> r
                == Err::<Self, RouteError>(RouteError::BufferSizeOverflow { context: CUDA_PLAN_CONTEXT }),
    {
        let candidate_slots = checked_product(request_count, k)?;
        let agent_vector_f32_len = checked_product(agent_count, dimensions)?;
        let request_vector_f32_len = checked_product(request_count, dimensions)?;
        let plan = CudaBufferPlan {
            agent_count,
            request_count,
            dimensions,
            k,
            agent_id_u32_len: agent_count,
            agent_vector_f32_len,
            request_vector_f32_len,
            agent_score_weight_f32_len: agent_count,
            availability_u32_len: agent_count,
            output_candidate_u32_len: candidate_slots,
            output_effective_f32_len: candidate_slots,
            output_base_f32_len: candidate_slots,
            output_flag_u32_len: request_count,
        };
        let f32_parts = plan.f32_parts();
        checked_total(&f32_parts)?;
        let u32_parts = plan.u32_parts();
        checked_total(&u32_parts)?;
        Ok(plan)
    }

    fn f32_parts(self) -> (r: Vec<usize>)
        ensures
            sum_of(r@) == plan_f32_total(self),
    {
        let r = vec![
            self.agent_vector_f32_len,
            self.request_vector_f32_len,
            self.agent_score_weight_f32_len,
            self.output_effective_f32_len,
            self.output_base_f32_len,
        ];
        proof {
            reveal_with_fuel(sum_of, 6);
            assert(r@.drop_last().drop_last().drop_last().drop_last().drop_last() =~= Seq::<
                usize,
            >::empty());
        }
        r
    }

    fn u32_parts(self) -> (r: Vec<usize>)
        ensures
            sum_of(r@) == plan_u32_total(self),
    {
        let r = vec![
            self.agent_id_u32_len,
            self.availability_u32_len,
            self.output_candidate_u32_len,
            self.output_flag_u32_len,
        ];
        proof {
            reveal_with_fuel(sum_of, 5);
            assert(r@.drop_last().drop_last().drop_last().drop_last() =~= Seq::<usize>::empty());
        }
        r
    }

    /// The `f32` elements of all the plan's buffers together.
    pub fn total_f32_len(self) -> (r: usize)
        requires
            plan_f32_total(self) <= usize::MAX,
        ensures
            r == plan_f32_total(self),
    {
        self.agent_vector_f32_len + self.request_vector_f32_len + self.agent_score_weight_f32_len
            + self.output_effective_f32_len + self.output_base_f32_len
    }

    /// The `u32` elements of all the plan's buffers together.
    pub fn total_u32_len(self) -> (r: usize)
        requires
            plan_u32_total(self) <= usize::MAX,
        ensures
            r == plan_u32_total(self),
    {
        self.agent_id_u32_len + self.availability_u32_len + self.output_candidate_u32_len
            + self.output_flag_u32_len
    }
}

/// A plain copyable element that device buffers can hold.
pub trait CudaDeviceElement: Copy + 'static {

}

impl<T: Copy + 'static> CudaDeviceElement for T {

}

/// Whether `s` holds a nul character.
pub open spec fn has_nul(s: Seq<char>) -> bool {
    s.contains('\0')
}

fn has_nul_exec(s: &str) -> (r: bool)
    ensures
        r == has_nul(s@),
{
    let n = s.unicode_len();
    let mut i: usize = 0;
    while i < n
        invariant
            n == s@.len(),
            i <= n,
            forall|j: int| 0 <= j < i ==> s@[j] != '\0',
        decreases n - i,
    {
        if s.get_char(i) == '\0' {
            assert(s@[i as int] == '\0');
            return true;
        }
        i = i + 1;
    }
    false
}

/// The byte length of `len` elements of `T`, when it fits in `usize`.
pub open spec fn byte_len_outcome<T>(len: usize) -> Result<usize, CudaRuntimeError> {
    if len * vstd::layout::size_of::<T>() <= usize::MAX {
        Ok((len * vstd::layout::size_of::<T>()) as usize)
    } else {
        Err(CudaRuntimeError::ResourceSizeOverflow(CUDA_DEVICE_BUFFER_CONTEXT))
    }
}

/// An initialized CUDA driver runtime.
#[derive(Debug)]
pub struct CudaRuntime {
    device_count: usize,
}

impl CudaRuntime {
    /// The number of devices the runtime found.
    pub closed spec fn devices(&self) -> usize {
        self.device_count
    }

    /// Initializes the driver runtime; this build has no driver binding, so
    /// it reports the runtime feature as disabled.
    pub fn initialize() -> (r: Result<Self, CudaRuntimeError>)
        ensures
            r == Err::<Self, CudaRuntimeError>(CudaRuntimeError::FeatureDisabled),
    {
        Err(CudaRuntimeError::FeatureDisabled)
    }

    /// The number of devices the runtime found.
    pub fn device_count(&self) -> (r: usize)
        ensures
            r == self.devices(),
    {
        self.device_count
    }

    /// Creates a stream; refused, as no driver is bound.
    pub fn create_stream(&self) -> (r: Result<CudaStream<'_>, CudaRuntimeError>)
        ensures
            r is Err && r->Err_0 == CudaRuntimeError::FeatureDisabled,
    {
        Err(CudaRuntimeError::FeatureDisabled)
    }

    /// Allocates a device buffer of `len` elements: refused when its byte
    /// length overflows, and otherwise because no driver is bound.
    pub fn allocate_device_buffer<T: CudaDeviceElement>(&self, len: usize) -> (r: Result<
        CudaDeviceBuffer<'_, T>,
        CudaRuntimeError,
    >)
        ensures
            r is Err,
            byte_len_outcome::<T>(len) is Err ==> r->Err_0 == byte_len_outcome::<T>(len)->Err_0,
            byte_len_outcome::<T>(len) is Ok ==> r->Err_0 == CudaRuntimeError::FeatureDisabled,
    {
        CudaDeviceBuffer::<T>::checked_byte_len(len)?;
        Err(CudaRuntimeError::FeatureDisabled)
    }

    /// Loads a module from PTX text: refused when the text holds a nul, and
    /// otherwise because no driver is bound.
    pub fn load_module_from_ptx(&self, ptx: &str) -> (r: Result<CudaModule<'_>, CudaRuntimeError>)
        ensures
            r is Err,
            has_nul(ptx@) ==> r->Err_0 == CudaRuntimeError::ModuleImageContainsNul,
            !has_nul(ptx@) ==> r->Err_0 == CudaRuntimeError::FeatureDisabled,
    {
        if has_nul_exec(ptx) {
            return Err(CudaRuntimeError::ModuleImageContainsNul);
        }
        Err(CudaRuntimeError::FeatureDisabled)
    }

    /// Loads the route-agents kernel module; refused, as no driver is bound
    /// to hand the kernel image to.
    pub fn load_route_agents_module(&self) -> (r: Result<CudaModule<'_>, CudaRuntimeError>)
        ensures
            r is Err && r->Err_0 == CudaRuntimeError::FeatureDisabled,
    {
        Err(CudaRuntimeError::FeatureDisabled)
    }
}

/// A CUDA stream of a runtime.
#[derive(Debug)]
pub struct CudaStream<'runtime> {
    runtime: &'runtime CudaRuntime,
}

impl<'runtime> CudaStream<'runtime> {
    /// Waits for the stream's work; refused, as no driver is bound.
    pub fn synchronize(&self) -> (r: Result<(), CudaRuntimeError>)
        ensures
            r == Err::<(), CudaRuntimeError>(CudaRuntimeError::FeatureDisabled),
    {
        Err(CudaRuntimeError::FeatureDisabled)
    }

    /// Destroys the stream; refused, as no driver is bound.
    pub fn destroy(self) -> (r: Result<(), CudaRuntimeError>)
        ensures
            r == Err::<(), CudaRuntimeError>(CudaRuntimeError::FeatureDisabled),
    {
        Err(CudaRuntimeError::FeatureDisabled)
    }
}

fn validate_buffer_len(buffer: &'static str, actual: usize, expected: usize) -> (r: Result<
    (),
    CudaRuntimeError,
>)
    ensures
        actual == expected ==> r == Ok::<(), CudaRuntimeError>(()),
        actual != expected ==> r == Err::<(), CudaRuntimeError>(
            CudaRuntimeError::BufferLengthMismatch { buffer, expected, actual },
        ),
{
    if actual == expected {
        Ok(())
    } else {
        Err(CudaRuntimeError::BufferLengthMismatch { buffer, expected, actual })
    }
}

/// A device buffer of `T` elements.
#[derive(Debug)]
pub struct CudaDeviceBuffer<'runtime, T: CudaDeviceElement> {
    runtime: &'runtime CudaRuntime,
    len: usize,
    byte_len: usize,
    element: PhantomData<T>,
}

impl<'runtime, T: CudaDeviceElement> CudaDeviceBuffer<'runtime, T> {
    /// The number of elements the buffer holds.
    pub closed spec fn elements(&self) -> usize {
        self.len
    }

    /// The number of bytes the buffer holds.
    pub closed spec fn bytes(&self) -> usize {
        self.byte_len
    }

    /// The byte length of `len` elements of `T`, refused when it overflows.
    pub fn checked_byte_len(len: usize) -> (r: Result<usize, CudaRuntimeError>)
        ensures
            r == byte_len_outcome::<T>(len),
    {
        match len.checked_mul(core::mem::size_of::<T>()) {
            Some(n) => Ok(n),
            None => Err(CudaRuntimeError::ResourceSizeOverflow(CUDA_DEVICE_BUFFER_CONTEXT)),
        }
    }

    /// The number of elements the buffer holds.
    pub fn len(&self) -> (r: usize)
        ensures
            r == self.elements(),
    {
        self.len
    }

    /// Whether the buffer holds no element.
    pub fn is_empty(&self) -> (r: bool)
        ensures
            r == (self.elements() == 0),
    {
        self.len == 0
    }

    /// The number of bytes the buffer holds.
    pub fn byte_len(&self) -> (r: usize)
        ensures
            r == self.bytes(),
    {
        self.byte_len
    }

    /// Copies `source` to the device: refused when its length differs from
    /// the buffer's, and otherwise because no driver is bound.
    pub fn copy_from(&mut self, source: &[T]) -> (r: Result<(), CudaRuntimeError>)
        ensures
            final(self).elements() == old(self).elements(),
            final(self).bytes() == old(self).bytes(),
            source@.len() != old(self).elements() ==> r == Err::<(), CudaRuntimeError>(
                CudaRuntimeError::BufferLengthMismatch {
                    buffer: "host_to_device_source",
                    expected: old(self).elements(),
                    actual: source@.len() as usize,
                },
            ),
            source@.len() == old(self).elements() ==> r == Err::<(), CudaRuntimeError>(
                CudaRuntimeError::FeatureDisabled,
            ),
    {
        validate_buffer_len("host_to_device_source", source.len(), self.len)?;
        Err(CudaRuntimeError::FeatureDisabled)
    }

    /// Copies the buffer to `destination`: refused when its length differs
    /// from the buffer's, and otherwise because no driver is bound; the
    /// destination is left as it was.
    pub fn copy_to(&self, destination: &mut [T]) -> (r: Result<(), CudaRuntimeError>)
        ensures
            final(destination)@ == old(destination)@,
            old(destination)@.len() != self.elements() ==> r == Err::<(), CudaRuntimeError>(
                CudaRuntimeError::BufferLengthMismatch {
                    buffer: "device_to_host_destination",
                    expected: self.elements(),
                    actual: old(destination)@.len() as usize,
                },
            ),
            old(destination)@.len() == self.elements() ==> r == Err::<(), CudaRuntimeError>(
                CudaRuntimeError::FeatureDisabled,
            ),
    {
        validate_buffer_len("device_to_host_destination", destination.len(), self.len)?;
        Err(CudaRuntimeError::FeatureDisabled)
    }

    /// Frees the buffer; refused, as no driver is bound.
    pub fn free(self) -> (r: Result<(), CudaRuntimeError>)
        ensures
            r == Err::<(), CudaRuntimeError>(CudaRuntimeError::FeatureDisabled),
    {
        Err(CudaRuntimeError::FeatureDisabled)
    }
}

/// A loaded CUDA module.
#[derive(Debug)]
pub struct CudaModule<'runtime> {
    runtime: &'runtime CudaRuntime,
}

impl<'runtime> CudaModule<'runtime> {
    /// Looks up a kernel by name: refused when the name holds a nul, and
    /// otherwise because no driver is bound.
    pub fn get_function<'module>(&'module self, name: &str) -> (r: Result<
        CudaFunction<'module, 'runtime>,
        CudaRuntimeError,
    >)
        ensures
            r is Err,
            has_nul(name@) ==> r->Err_0 == CudaRuntimeError::FunctionNameContainsNul,
            !has_nul(name@) ==> r->Err_0 == CudaRuntimeError::FeatureDisabled,
    {
        if has_nul_exec(name) {
            return Err(CudaRuntimeError::FunctionNameContainsNul);
        }
        Err(CudaRuntimeError::FeatureDisabled)
    }

    /// The route-agents kernel of the module.
    pub fn route_agents_kernel<'module>(&'module self) -> (r: Result<
        RouteAgentsKernel<'module, 'runtime>,
        CudaRuntimeError,
    >)
        ensures
            r is Err && r->Err_0 == CudaRuntimeError::FeatureDisabled,
    {
        proof {
            reveal_strlit("qtom_route_agents_k1");
            assert(!has_nul(ROUTE_AGENTS_K1_KERNEL_NAME@));
        }
        let function = self.get_function(ROUTE_AGENTS_K1_KERNEL_NAME)?;
        Ok(RouteAgentsKernel { function })
    }

    /// Unloads the module; refused, as no driver is bound.
    pub fn unload(self) -> (r: Result<(), CudaRuntimeError>)
        ensures
            r == Err::<(), CudaRuntimeError>(CudaRuntimeError::FeatureDisabled),
    {
        Err(CudaRuntimeError::FeatureDisabled)
    }
}

/// A kernel of a loaded module.
#[derive(Debug)]
pub struct CudaFunction<'module, 'runtime> {
    module: &'module CudaModule<'runtime>,
    name: String,
}

impl CudaFunction<'_, '_> {
    /// The kernel's name.
    pub closed spec fn name_text(&self) -> Seq<char> {
        self.name@
    }

    /// The kernel's name.
    pub fn name(&self) -> (r: &str)
        ensures
            r@ == self.name_text(),
    {
        self.name.as_str()
    }
}

/// The route-agents kernel of a loaded module.
#[derive(Debug)]
pub struct RouteAgentsKernel<'module, 'runtime> {
    function: CudaFunction<'module, 'runtime>,
}

impl<'runtime> RouteAgentsKernel<'_, 'runtime> {
    /// The kernel's name.
    pub closed spec fn name_text(&self) -> Seq<char> {
        self.function.name_text()
    }

    /// The kernel's name.
    pub fn name(&self) -> (r: &str)
        ensures
            r@ == self.name_text(),
    {
        self.function.name()
    }

    /// Launches the kernel over `args` on `stream` and waits for it; the
    /// launch geometry is checked first, then refused, as no driver is bound.
    pub fn launch_and_synchronize<F: CudaDeviceElement>(
        &self,
        stream: &CudaStream<'runtime>,
        args: &mut RouteAgentsKernelArgs<'_, 'runtime, F>,
    ) -> (r: Result<(), CudaRuntimeError>)
        ensures
            r == Err::<(), CudaRuntimeError>(CudaRuntimeError::FeatureDisabled),
            *final(args) == *old(args),
    {
        let _config = args.launch_config()?;
        let _ = stream;
        Err(CudaRuntimeError::FeatureDisabled)
    }
}

/// The message of a route-agents launch whose plan is not for one candidate.
pub const ROUTE_AGENTS_K1_ONLY: &'static str = "route agents kernel currently supports k=1";

/// What a route-agents launch names when a count does not fit in 32 bits.
pub const CUDA_ROUTE_AGENTS_LAUNCH_CONTEXT: &'static str = "cuda route agents launch";

/// A count as the 32-bit value a kernel takes, refused when it does not fit.
fn checked_u32(value: usize, context: &'static str) -> (r: Result<u32, CudaRuntimeError>)
    ensures
        value <= u32::MAX ==> r == Ok::<u32, CudaRuntimeError>(value as u32),
        value > u32::MAX ==> r == Err::<u32, CudaRuntimeError>(CudaRuntimeError::ResourceSizeOverflow(context)),
{
    if value <= u32::MAX as usize {
        Ok(value as u32)
    } else {
        Err(CudaRuntimeError::ResourceSizeOverflow(context))
    }
}

/// The first buffer, in argument order, whose length differs from the
/// plan's: its name, the planned length and its length.
pub open spec fn first_misplanned_buffer(plan: CudaBufferPlan, lens: Seq<usize>) -> Option<
    (&'static str, usize, usize),
>
    recommends
        lens.len() == 9,
{
    if lens[0] != plan.agent_vector_f32_len {
        Some(("agent_vectors", plan.agent_vector_f32_len, lens[0]))
    } else if lens[1] != plan.agent_id_u32_len {
        Some(("agent_ids", plan.agent_id_u32_len, lens[1]))
    } else if lens[2] != plan.request_vector_f32_len {
        Some(("request_vectors", plan.request_vector_f32_len, lens[2]))
    } else if lens[3] != plan.agent_score_weight_f32_len {
        Some(("agent_score_weights", plan.agent_score_weight_f32_len, lens[3]))
    } else if lens[4] != plan.availability_u32_len {
        Some(("availability", plan.availability_u32_len, lens[4]))
    } else if lens[5] != plan.output_candidate_u32_len {
        Some(("output_agent_ids", plan.output_candidate_u32_len, lens[5]))
    } else if lens[6] != plan.output_effective_f32_len {
        Some(("output_effective_distances", plan.output_effective_f32_len, lens[6]))
    } else if lens[7] != plan.output_base_f32_len {
        Some(("output_base_distances", plan.output_base_f32_len, lens[7]))
    } else if lens[8] != plan.output_flag_u32_len {
        Some(("output_flags", plan.output_flag_u32_len, lens[8]))
    } else {
        None
    }
}

/// What building route-agents arguments gives: a plan for more than one
/// candidate is refused, then the first misplanned buffer, then a count
/// that does not fit in 32 bits; otherwise the agent, request and
/// dimension counts the kernel is launched over.
pub open spec fn kernel_args_outcome(plan: CudaBufferPlan, lens: Seq<usize>) -> Result<
    (u32, u32, u32),
    CudaRuntimeError,
> {
    if plan.k != 1 {
        Err(CudaRuntimeError::InvalidLaunchConfig(ROUTE_AGENTS_K1_ONLY))
    } else {
        match first_misplanned_buffer(plan, lens) {
            Some((buffer, expected, actual)) => Err(
                CudaRuntimeError::BufferLengthMismatch { buffer, expected, actual },
            ),
            None => if plan.agent_count > u32::MAX || plan.request_count > u32::MAX || plan.dimensions
                > u32::MAX {
                Err(CudaRuntimeError::ResourceSizeOverflow(CUDA_ROUTE_AGENTS_LAUNCH_CONTEXT))
            } else {
                Ok((plan.agent_count as u32, plan.request_count as u32, plan.dimensions as u32))
            },
        }
    }
}

/// The arguments of a route-agents launch: the device buffers it reads and
/// writes, checked against a one-candidate buffer plan, and the counts it
/// is launched over. `F` is the element of the vector and distance buffers.
#[derive(Debug)]
pub struct RouteAgentsKernelArgs<'buffers, 'runtime, F: CudaDeviceElement> {
    agent_vectors: &'buffers CudaDeviceBuffer<'runtime, F>,
    agent_ids: &'buffers CudaDeviceBuffer<'runtime, u32>,
    request_vectors: &'buffers CudaDeviceBuffer<'runtime, F>,
    agent_score_weights: &'buffers CudaDeviceBuffer<'runtime, F>,
    availability: &'buffers CudaDeviceBuffer<'runtime, u32>,
    output_agent_ids: &'buffers mut CudaDeviceBuffer<'runtime, u32>,
    output_effective_distances: &'buffers mut CudaDeviceBuffer<'runtime, F>,
    output_base_distances: &'buffers mut CudaDeviceBuffer<'runtime, F>,
    output_flags: &'buffers mut CudaDeviceBuffer<'runtime, u32>,
    agent_count: u32,
    request_count: u32,
    dimensions: u32,
}

impl<'buffers, 'runtime, F: CudaDeviceElement> RouteAgentsKernelArgs<'buffers, 'runtime, F> {
    /// The number of agents the kernel scans.
    pub closed spec fn spec_agent_count(&self) -> u32 {
        self.agent_count
    }

    /// The number of requests the kernel routes.
    pub closed spec fn spec_request_count(&self) -> u32 {
        self.request_count
    }

    /// The vector width.
    pub closed spec fn spec_dimensions(&self) -> u32 {
        self.dimensions
    }

    /// Checks the buffers against `plan` and takes the counts the kernel
    /// is launched over.
    pub fn new(
        plan: CudaBufferPlan,
        agent_vectors: &'buffers CudaDeviceBuffer<'runtime, F>,
        agent_ids: &'buffers CudaDeviceBuffer<'runtime, u32>,
        request_vectors: &'buffers CudaDeviceBuffer<'runtime, F>,
        agent_score_weights: &'buffers CudaDeviceBuffer<'runtime, F>,
        availability: &'buffers CudaDeviceBuffer<'runtime, u32>,
        output_agent_ids: &'buffers mut CudaDeviceBuffer<'runtime, u32>,
        output_effective_distances: &'buffers mut CudaDeviceBuffer<'runtime, F>,
        output_base_distances: &'buffers mut CudaDeviceBuffer<'runtime, F>,
        output_flags: &'buffers mut CudaDeviceBuffer<'runtime, u32>,
    ) -> (r: Result<Self, CudaRuntimeError>)
        ensures
            match kernel_args_outcome(
                plan,
                seq![
                    agent_vectors.elements(),
                    agent_ids.elements(),
                    request_vectors.elements(),
                    agent_score_weights.elements(),
                    availability.elements(),
                    old(output_agent_ids).elements(),
                    old(output_effective_distances).elements(),
                    old(output_base_distances).elements(),
                    old(output_flags).elements(),
                ],
            ) {
                Err(e) => r matches Err(x) && x == e,
                Ok(counts) => r matches Ok(a) && a.spec_agent_count() == counts.0
                    && a.spec_request_count() == counts.1 && a.spec_dimensions() == counts.2,
            },
    {
        let ghost lens = seq![
            agent_vectors.elements(),
            agent_ids.elements(),
            request_vectors.elements(),
            agent_score_weights.elements(),
            availability.elements(),
            output_agent_ids.elements(),
            output_effective_distances.elements(),
            output_base_distances.elements(),
            output_flags.elements(),
        ];
        if plan.k != 1 {
            return Err(CudaRuntimeError::InvalidLaunchConfig(ROUTE_AGENTS_K1_ONLY));
        }
        validate_buffer_len("agent_vectors", agent_vectors.len(), plan.agent_vector_f32_len)?;
        validate_buffer_len("agent_ids", agent_ids.len(), plan.agent_id_u32_len)?;
        validate_buffer_len("request_vectors", request_vectors.len(), plan.request_vector_f32_len)?;
        validate_buffer_len(
            "agent_score_weights",
            agent_score_weights.len(),
            plan.agent_score_weight_f32_len,
        )?;
        validate_buffer_len("availability", availability.len(), plan.availability_u32_len)?;
        validate_buffer_len("output_agent_ids", output_agent_ids.len(), plan.output_candidate_u32_len)?;
        validate_buffer_len(
            "output_effective_distances",
            output_effective_distances.len(),
            plan.output_effective_f32_len,
        )?;
        validate_buffer_len(
            "output_base_distances",
            output_base_distances.len(),
            plan.output_base_f32_len,
        )?;
        validate_buffer_len("output_flags", output_flags.len(), plan.output_flag_u32_len)?;
        let agent_count = checked_u32(plan.agent_count, CUDA_ROUTE_AGENTS_LAUNCH_CONTEXT)?;
        let request_count = checked_u32(plan.request_count, CUDA_ROUTE_AGENTS_LAUNCH_CONTEXT)?;
        let dimensions = checked_u32(plan.dimensions, CUDA_ROUTE_AGENTS_LAUNCH_CONTEXT)?;
        Ok(
            RouteAgentsKernelArgs {
                agent_vectors,
                agent_ids,
                request_vectors,
                agent_score_weights,
                availability,
                output_agent_ids,
                output_effective_distances,
                output_base_distances,
                output_flags,
                agent_count,
                request_count,
                dimensions,
            },
        )
    }

    /// The number of agents the kernel scans.
    #[verifier::when_used_as_spec(spec_agent_count)]
    pub fn agent_count(&self) -> (r: u32)
        ensures
            r == self.spec_agent_count(),
    {
        self.agent_count
    }

    /// The number of requests the kernel routes.
    #[verifier::when_used_as_spec(spec_request_count)]
    pub fn request_count(&self) -> (r: u32)
        ensures
            r == self.spec_request_count(),
    {
        self.request_count
    }

    /// The vector width.
    #[verifier::when_used_as_spec(spec_dimensions)]
    pub fn dimensions(&self) -> (r: u32)
        ensures
            r == self.spec_dimensions(),
    {
        self.dimensions
    }

    /// One thread per request, in blocks of the kernel's block width.
    pub fn launch_config(&self) -> (r: Result<CudaKernelLaunchConfig, CudaRuntimeError>)
        ensures
            r matches Ok(c) && c.grid_dim_x() == grid_width(
                self.spec_request_count() as int,
                ROUTE_AGENTS_K1_BLOCK_DIM_X as int,
            ) && c.grid_dim_y() == 1 && c.grid_dim_z() == 1 && c.block_dim_x()
                == ROUTE_AGENTS_K1_BLOCK_DIM_X && c.block_dim_y() == 1 && c.block_dim_z() == 1
                && c.shared_mem_bytes() == 0,
    {
        CudaKernelLaunchConfig::for_1d_thread_count(self.request_count, ROUTE_AGENTS_K1_BLOCK_DIM_X)
    }
}

/// A runtime error always stands for an unusable runtime: unavailable, with
/// no devices and a non-empty reason; and the runtime this build detects is
/// such a status.
pub proof fn law_runtime_status_is_consistent(e: CudaRuntimeError)
    ensures
        !runtime_error_status(e).available,
        runtime_error_status(e).device_count == 0,
        runtime_error_status(e).reason@.len() > 0,
        !detected_runtime_status().available,
        detected_runtime_status().device_count == 0,
        detected_runtime_status().reason@.len() > 0,
{
        reveal_strlit("CUDA runtime feature is disabled");
        reveal_strlit("CUDA runtime detection is unsupported on this platform");
        reveal_strlit("CUDA driver library was not found");
        reveal_strlit("CUDA driver library is missing a required symbol");
        reveal_strlit("CUDA driver initialization failed");
        reveal_strlit("CUDA device count query failed");
        reveal_strlit("CUDA driver reported no devices");
        reveal_strlit("CUDA device query failed");
        reveal_strlit("CUDA primary context retain failed");
        reveal_strlit("CUDA context activation failed");
        reveal_strlit("CUDA device allocation failed");
        reveal_strlit("CUDA device free failed");
        reveal_strlit("CUDA host-to-device copy failed");
        reveal_strlit("CUDA device-to-host copy failed");
        reveal_strlit("CUDA stream create failed");
        reveal_strlit("CUDA stream destroy failed");
        reveal_strlit("CUDA stream synchronize failed");
        reveal_strlit("CUDA event create failed");
        reveal_strlit("CUDA event destroy failed");
        reveal_strlit("CUDA event record failed");
        reveal_strlit("CUDA event synchronize failed");
        reveal_strlit("CUDA event elapsed time query failed");
        reveal_strlit("CUDA module image contains an interior nul");
        reveal_strlit("CUDA module load failed");
        reveal_strlit("CUDA module unload failed");
        reveal_strlit("CUDA function name contains an interior nul");
        reveal_strlit("CUDA function lookup failed");
        reveal_strlit("CUDA kernel launch config is invalid");
        reveal_strlit("CUDA kernel launch failed");
        reveal_strlit("CUDA buffer length mismatch");
        reveal_strlit("CUDA resource size overflow");
}

/// A one-dimensional launch covers every thread with the fewest blocks: its
/// grid has at least one block, its blocks hold all the threads, and one
/// block fewer would not.
pub proof fn law_launch_grid_covers_threads(threads: u32, block: u32)
    requires
        block > 0,
    ensures
        grid_width(threads as int, block as int) >= 1,
        grid_width(threads as int, block as int) * block >= threads,
        threads > 0 ==> (grid_width(threads as int, block as int) - 1) * block < threads,
{
    let t = threads as int;
    let b = block as int;
    let g = blocks_covering(t, b);
    assert(g * b >= t && (t > 0 ==> (g - 1) * b < t) && (t > 0 ==> g >= 1) && g >= 0) by (nonlinear_arith)
        requires
            b > 0,
            t >= 0,
            g == (t + b - 1) / b,
    ;
}

/// A plan that construction accepts has totals that fit: both totals of
/// `plan_of` stay within `usize` whenever the batch fits, so the totals of
/// every plan `try_new` returns can be taken.
pub proof fn law_planned_totals_fit(agents: usize, requests: usize, dimensions: usize, k: usize)
    requires
        plan_fits(agents as int, requests as int, dimensions as int, k as int),
    ensures
        plan_f32_total(plan_of(agents, requests, dimensions, k)) <= usize::MAX,
        plan_u32_total(plan_of(agents, requests, dimensions, k)) <= usize::MAX,
{
}

} // verus!

