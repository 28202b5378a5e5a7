//! Data model for inference requests and responses.
//!
//! Parameters and tensor payloads are carried opaquely by the engine.
//! Floating-point payloads are held as raw IEEE-754 bit patterns, so the
//! engine never computes with them; callers convert at the boundary.

use vstd::prelude::*;

verus! {

/// A tagged parameter value attached to a request or an output tensor.
/// `DoubleBits` carries the bit pattern of a 64-bit float.
pub enum InferParameter {
    Bool(bool),
    Int64(i64),
    DoubleBits(u64),
    Text(String),
}

/// Element type of a tensor payload.  The float variants describe
/// payloads whose elements are carried as raw bit patterns.
pub enum DataType {
    Float32,
    Float64,
    Int32,
    Int64,
    Bool,
    Vfloat,
}

/// A tensor payload, tagged by element type.  `Float32` elements are
/// 32-bit patterns, `Float64` and `Vfloat` elements 64-bit patterns.
pub enum Data {
    Int32(Vec<i32>),
    Int64(Vec<i64>),
    Float32(Vec<u32>),
    Float64(Vec<u64>),
    Bool(Vec<bool>),
    Vfloat(Vec<u64>),
}

/// A named tensor: shape, element type, opaque parameters and payload.
pub struct InferenceOutput {
    pub name: String,
    pub shape: Vec<usize>,
    pub datatype: DataType,
    pub parameters: Option<Vec<(String, InferParameter)>>,
    pub data: Data,
}

/// Error descriptor carried inside a failure response.
pub struct InferenceError {
    pub message: String,
}

/// A single inference request.  The engine reads only `model_name` and
/// `id`; parameters and declared outputs pass through untouched.
pub struct InferenceRequest {
    pub model_name: String,
    pub model_version: Option<String>,
    pub id: String,
    pub parameters: Option<Vec<(String, InferParameter)>>,
    pub outputs: Option<Vec<InferenceOutput>>,
}

/// Outcome of running one request: either an output tensor or an error
/// descriptor.  A runtime reports per-request failures through the
/// `Failure` variant rather than by raising an error to the dispatcher.
pub enum InferenceResponse {
    Success(InferenceOutput),
    Failure(InferenceError),
}

impl DataType {
    /// Wire name of the element type, as used by the front-end schemas.
    pub fn wire_name(&self) -> (r: &'static str)
        ensures
            r@ == match *self {
                DataType::Float32 => "FP32"@,
                DataType::Float64 => "FP64"@,
                DataType::Int32 => "INT32"@,
                DataType::Int64 => "INT64"@,
                DataType::Bool => "BOOL"@,
                DataType::Vfloat => "FP64"@,
            },
    {
        match *self {
            DataType::Float32 => "FP32",
            DataType::Float64 => "FP64",
            DataType::Int32 => "INT32",
            DataType::Int64 => "INT64",
            DataType::Bool => "BOOL",
            DataType::Vfloat => "FP64",
        }
    }
}

/// Element type denoted by a wire name; names that no schema defines
/// fall back to 32-bit floats, as the front-end conversion has always
/// done.
pub open spec fn spec_datatype_from_wire(name: Seq<char>) -> DataType {
    if name == "FP32"@ || name == "FLOAT32"@ {
        DataType::Float32
    } else if name == "FP64"@ || name == "FLOAT64"@ {
        DataType::Float64
    } else if name == "INT32"@ {
        DataType::Int32
    } else if name == "INT64"@ {
        DataType::Int64
    } else if name == "BOOL"@ {
        DataType::Bool
    } else {
        DataType::Float32
    }
}

/// Element type for a wire name, as `spec_datatype_from_wire` defines it.
pub fn datatype_from_wire(name: &str) -> (r: DataType)
    ensures
        r == spec_datatype_from_wire(name@),
{
    proof {
        reveal_strlit("FP32");
        reveal_strlit("FLOAT32");
        reveal_strlit("FP64");
        reveal_strlit("FLOAT64");
        reveal_strlit("INT32");
        reveal_strlit("INT64");
        reveal_strlit("BOOL");
    }
    let s = name;
    if str_eq(s, "FP32") || str_eq(s, "FLOAT32") {
        DataType::Float32
    } else if str_eq(s, "FP64") || str_eq(s, "FLOAT64") {
        DataType::Float64
    } else if str_eq(s, "INT32") {
        DataType::Int32
    } else if str_eq(s, "INT64") {
        DataType::Int64
    } else if str_eq(s, "BOOL") {
        DataType::Bool
    } else {
        DataType::Float32
    }
}

/// Relies on `<str as PartialEq>::eq`: string slices compare equal
/// exactly when they hold the same characters.
#[verifier::external_body]
pub fn str_eq(a: &str, b: &str) -> (r: bool)
    ensures
        r == (a@ == b@),
{
    a == b
}

} // verus!
