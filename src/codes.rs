//! Raw ABI codes: structure tags, result codes and layer function kinds.

use vstd::prelude::*;

verus! {

/// Raw tag of the loader's instance-creation node for layers.
pub const LOADER_INSTANCE_CREATE_INFO: i32 = 47;
/// Raw tag of the loader's device-creation node for layers.
pub const LOADER_DEVICE_CREATE_INFO: i32 = 48;
/// Raw success result.
pub const SUCCESS: i32 = 0;
/// Raw result of a failed initialization.
pub const ERROR_INITIALIZATION_FAILED: i32 = -3;
/// Layer node function: the link to the next layer.
pub const LAYER_LINK_INFO: i32 = 0;
/// Layer node function: the loader-data callback.
pub const LOADER_DATA_CALLBACK: i32 = 1;

/// The tag at the start of every extensible structure.
#[derive(Copy, Clone, Debug, PartialEq, Eq, Structural, Hash)]
pub struct StructureType(pub i32);

impl StructureType {
    /// Wraps a raw tag.
    pub fn from_raw(value: i32) -> (r: Self)
        ensures
            r.0 == value,
    {
        StructureType(value)
    }

    /// The raw tag.
    pub fn as_raw(self) -> (r: i32)
        ensures
            r == self.0,
    {
        self.0
    }
}

/// The raw result of a native call: zero or more is success, less is failure.
#[derive(Copy, Clone, Debug, PartialEq, Eq, Structural, Hash)]
pub struct RawResult(pub i32);

impl RawResult {

    pub fn from_raw(value: i32) -> (r: Self)
        ensures
            r.0 == value,
    {
        RawResult(value)
    }

    /// The raw result.
    pub fn as_raw(self) -> (r: i32)
        ensures
            r == self.0,
    {
        self.0
    }

    /// Splits this result into a success code or an error code, keeping
    /// the raw value either way.
    pub fn classify(self) -> (r: Result<SuccessCode, ErrorCode>)
        ensures
            self.0 >= 0 <==> r is Ok,
            r matches Ok(c) ==> c.raw() == self.0,
            r matches Err(e) ==> e.raw() == self.0,
    {
        if self.0 >= 0 {
            Ok(SuccessCode(self.0))
        } else {
            Err(ErrorCode(self.0))
        }
    }
}

/// The symbolic name of a success code, for the codes the ABI defines.
pub open spec fn success_name(raw: i32) -> Option<Seq<char>> {
    match raw {
        0 => Some("SUCCESS"@),
        1 => Some("NOT_READY"@),
        2 => Some("TIMEOUT"@),
        3 => Some("EVENT_SET"@),
        4 => Some("EVENT_RESET"@),
        5 => Some("INCOMPLETE"@),
        1000297000 => Some("PIPELINE_COMPILE_REQUIRED"@),
        1000001003 => Some("SUBOPTIMAL_KHR"@),
        1000268000 => Some("THREAD_IDLE_KHR"@),
        1000268001 => Some("THREAD_DONE_KHR"@),
        1000268002 => Some("OPERATION_DEFERRED_KHR"@),
        1000268003 => Some("OPERATION_NOT_DEFERRED_KHR"@),
        1000482000 => Some("INCOMPATIBLE_SHADER_BINARY_EXT"@),
        _ => None,
    }
}

/// Result codes that indicate success.
#[derive(Copy, Clone, Debug, PartialEq, Eq, Structural, Hash)]
pub struct SuccessCode(i32);

impl SuccessCode {

    pub closed spec fn raw(self) -> i32 {
        self.0
    }

    /// Wraps a raw success code.
    pub fn from_raw(value: i32) -> (r: Self)
        ensures
            r.raw() == value,
    {
        SuccessCode(value)
    }

    /// The raw value of this code.
    pub fn as_raw(self) -> (r: i32)
        ensures
            r == self.raw(),
    {
        self.0
    }

    /// The raw result that carries this code.
    pub fn to_result(self) -> (r: RawResult)
        ensures
            r.0 == self.raw(),
    {
        RawResult(self.0)
    }

    /// The symbolic name of this code, if the ABI defines one.
    pub fn name(self) -> (r: Option<&'static str>)
        ensures
            r is Some <==> success_name(self.raw()) is Some,
            r matches Some(n) ==> success_name(self.raw()) == Some(n@),
    {
        match self.0 {
            0 => Some("SUCCESS"),
            1 => Some("NOT_READY"),
            2 => Some("TIMEOUT"),
            3 => Some("EVENT_SET"),
            4 => Some("EVENT_RESET"),
            5 => Some("INCOMPLETE"),
            1000297000 => Some("PIPELINE_COMPILE_REQUIRED"),
            1000001003 => Some("SUBOPTIMAL_KHR"),
            1000268000 => Some("THREAD_IDLE_KHR"),
            1000268001 => Some("THREAD_DONE_KHR"),
            1000268002 => Some("OPERATION_DEFERRED_KHR"),
            1000268003 => Some("OPERATION_NOT_DEFERRED_KHR"),
            1000482000 => Some("INCOMPATIBLE_SHADER_BINARY_EXT"),
            _ => None,
        }
    }
}

/// The symbolic name of an error code, for the codes the ABI defines.
pub open spec fn error_name(raw: i32) -> Option<Seq<char>> {
    match raw {
        -1 => Some("OUT_OF_HOST_MEMORY"@),
        -2 => Some("OUT_OF_DEVICE_MEMORY"@),
        -3 => Some("INITIALIZATION_FAILED"@),
        -4 => Some("DEVICE_LOST"@),
        -5 => Some("MEMORY_MAP_FAILED"@),
        -6 => Some("LAYER_NOT_PRESENT"@),
        -7 => Some("EXTENSION_NOT_PRESENT"@),
        -8 => Some("FEATURE_NOT_PRESENT"@),
        -9 => Some("INCOMPATIBLE_DRIVER"@),
        -10 => Some("TOO_MANY_OBJECTS"@),
        -11 => Some("FORMAT_NOT_SUPPORTED"@),
        -12 => Some("FRAGMENTED_POOL"@),
        -13 => Some("UNKNOWN"@),
        -1000069000 => Some("OUT_OF_POOL_MEMORY"@),
        -1000072003 => Some("INVALID_EXTERNAL_HANDLE"@),
        -1000161000 => Some("FRAGMENTATION"@),
        -1000257000 => Some("INVALID_OPAQUE_CAPTURE_ADDRESS"@),
        -1000000000 => Some("SURFACE_LOST_KHR"@),
        -1000000001 => Some("NATIVE_WINDOW_IN_USE_KHR"@),
        -1000001004 => Some("OUT_OF_DATE_KHR"@),
        -1000003001 => Some("INCOMPATIBLE_DISPLAY_KHR"@),
        -1000011001 => Some("VALIDATION_FAILED_EXT"@),
        -1000012000 => Some("INVALID_SHADER_NV"@),
        -1000158000 => Some("INVALID_DRM_FORMAT_MODIFIER_PLANE_LAYOUT_EXT"@),
        -1000174001 => Some("NOT_PERMITTED_KHR"@),
        -1000255000 => Some("FULL_SCREEN_EXCLUSIVE_MODE_LOST_EXT"@),
        -1000338000 => Some("COMPRESSION_EXHAUSTED_EXT"@),
        _ => None,
    }
}

/// Result codes that indicate failure; handed on verbatim.
#[derive(Copy, Clone, Debug, PartialEq, Eq, Structural, Hash)]
pub struct ErrorCode(i32);

impl ErrorCode {

    pub closed spec fn raw(self) -> i32 {
        self.0
    }

    /// Wraps a raw error code.
    pub fn from_raw(value: i32) -> (r: Self)
        ensures
            r.raw() == value,
    {
        ErrorCode(value)
    }

    /// The raw value of this code.
    pub fn as_raw(self) -> (r: i32)
        ensures
            r == self.raw(),
    {
        self.0
    }

    /// The raw result that carries this code.
    pub fn to_result(self) -> (r: RawResult)
        ensures
            r.0 == self.raw(),
    {
        RawResult(self.0)
    }

    /// The symbolic name of this code, if the ABI defines one.
    pub fn name(self) -> (r: Option<&'static str>)
        ensures
            r is Some <==> error_name(self.raw()) is Some,
            r matches Some(n) ==> error_name(self.raw()) == Some(n@),
    {
        match self.0 {
            -1 => Some("OUT_OF_HOST_MEMORY"),
            -2 => Some("OUT_OF_DEVICE_MEMORY"),
            -3 => Some("INITIALIZATION_FAILED"),
            -4 => Some("DEVICE_LOST"),
            -5 => Some("MEMORY_MAP_FAILED"),
            -6 => Some("LAYER_NOT_PRESENT"),
            -7 => Some("EXTENSION_NOT_PRESENT"),
            -8 => Some("FEATURE_NOT_PRESENT"),
            -9 => Some("INCOMPATIBLE_DRIVER"),
            -10 => Some("TOO_MANY_OBJECTS"),
            -11 => Some("FORMAT_NOT_SUPPORTED"),
            -12 => Some("FRAGMENTED_POOL"),
            -13 => Some("UNKNOWN"),
            -1000069000 => Some("OUT_OF_POOL_MEMORY"),
            -1000072003 => Some("INVALID_EXTERNAL_HANDLE"),
            -1000161000 => Some("FRAGMENTATION"),
            -1000257000 => Some("INVALID_OPAQUE_CAPTURE_ADDRESS"),
            -1000000000 => Some("SURFACE_LOST_KHR"),
            -1000000001 => Some("NATIVE_WINDOW_IN_USE_KHR"),
            -1000001004 => Some("OUT_OF_DATE_KHR"),
            -1000003001 => Some("INCOMPATIBLE_DISPLAY_KHR"),
            -1000011001 => Some("VALIDATION_FAILED_EXT"),
            -1000012000 => Some("INVALID_SHADER_NV"),
            -1000158000 => Some("INVALID_DRM_FORMAT_MODIFIER_PLANE_LAYOUT_EXT"),
            -1000174001 => Some("NOT_PERMITTED_KHR"),
            -1000255000 => Some("FULL_SCREEN_EXCLUSIVE_MODE_LOST_EXT"),
            -1000338000 => Some("COMPRESSION_EXHAUSTED_EXT"),
            _ => None,
        }
    }
}

/// What a loader node for layers carries.
#[derive(Copy, Clone, Debug, PartialEq, Eq, Structural, Hash)]
pub struct LayerFunction(i32);

impl LayerFunction {

    pub closed spec fn raw(self) -> i32 {
        self.0
    }

    /// Wraps a raw value.
    pub fn from_raw(value: i32) -> (r: Self)
        ensures
            r.raw() == value,
    {
        LayerFunction(value)
    }

    /// The raw value.
    pub fn as_raw(self) -> (r: i32)
        ensures
            r == self.raw(),
    {
        self.0
    }
}

} // verus!
