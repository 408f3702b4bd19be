//! Element types.

use vstd::prelude::*;

verus! {

/// The type of an array's elements.
#[derive(Clone, Copy, PartialEq, Eq, Structural, Debug)]
pub enum Dtype {
    Bool,
    Uint8,
    Uint16,
    Uint32,
    Uint64,
    Int8,
    Int16,
    Int32,
    Int64,
    Float16,
    Float32,
    Float64,
    Bfloat16,
    Complex64,
}

impl Dtype {
    /// The code by which MLX's C interface knows the element type.
    pub open spec fn code(self) -> u32 {
        match self {
            Dtype::Bool => 0,
            Dtype::Uint8 => 1,
            Dtype::Uint16 => 2,
            Dtype::Uint32 => 3,
            Dtype::Uint64 => 4,
            Dtype::Int8 => 5,
            Dtype::Int16 => 6,
            Dtype::Int32 => 7,
            Dtype::Int64 => 8,
            Dtype::Float16 => 9,
            Dtype::Float32 => 10,
            Dtype::Float64 => 11,
            Dtype::Bfloat16 => 12,
            Dtype::Complex64 => 13,
        }
    }

    /// The name by which MLX prints the element type.
    pub open spec fn text(self) -> Seq<char> {
        match self {
            Dtype::Bool => "bool"@,
            Dtype::Uint8 => "uint8"@,
            Dtype::Uint16 => "uint16"@,
            Dtype::Uint32 => "uint32"@,
            Dtype::Uint64 => "uint64"@,
            Dtype::Int8 => "int8"@,
            Dtype::Int16 => "int16"@,
            Dtype::Int32 => "int32"@,
            Dtype::Int64 => "int64"@,
            Dtype::Float16 => "float16"@,
            Dtype::Float32 => "float32"@,
            Dtype::Float64 => "float64"@,
            Dtype::Bfloat16 => "bfloat16"@,
            Dtype::Complex64 => "complex64"@,
        }
    }

    /// The code by which MLX's C interface knows the element type.
    pub fn as_raw(self) -> (code: u32)
        ensures
            code == self.code(),
    {
        match self {
            Dtype::Bool => 0,
            Dtype::Uint8 => 1,
            Dtype::Uint16 => 2,
            Dtype::Uint32 => 3,
            Dtype::Uint64 => 4,
            Dtype::Int8 => 5,
            Dtype::Int16 => 6,
            Dtype::Int32 => 7,
            Dtype::Int64 => 8,
            Dtype::Float16 => 9,
            Dtype::Float32 => 10,
            Dtype::Float64 => 11,
            Dtype::Bfloat16 => 12,
            Dtype::Complex64 => 13,
        }
    }

    /// The element type that has this code.
    pub fn from_raw(code: u32) -> (dtype: Dtype)
        requires
            code <= Dtype::Complex64.code(),
        ensures
            dtype.code() == code,
    {
        if code == 0 {
            Dtype::Bool
        } else if code == 1 {
            Dtype::Uint8
        } else if code == 2 {
            Dtype::Uint16
        } else if code == 3 {
            Dtype::Uint32
        } else if code == 4 {
            Dtype::Uint64
        } else if code == 5 {
            Dtype::Int8
        } else if code == 6 {
            Dtype::Int16
        } else if code == 7 {
            Dtype::Int32
        } else if code == 8 {
            Dtype::Int64
        } else if code == 9 {
            Dtype::Float16
        } else if code == 10 {
            Dtype::Float32
        } else if code == 11 {
            Dtype::Float64
        } else if code == 12 {
            Dtype::Bfloat16
        } else {
            Dtype::Complex64
        }
    }

    /// The name by which MLX prints the element type.
    pub fn name(self) -> (name: &'static str)
        ensures
            name@ == self.text(),
    {
        match self {
            Dtype::Bool => "bool",
            Dtype::Uint8 => "uint8",
            Dtype::Uint16 => "uint16",
            Dtype::Uint32 => "uint32",
            Dtype::Uint64 => "uint64",
            Dtype::Int8 => "int8",
            Dtype::Int16 => "int16",
            Dtype::Int32 => "int32",
            Dtype::Int64 => "int64",
            Dtype::Float16 => "float16",
            Dtype::Float32 => "float32",
            Dtype::Float64 => "float64",
            Dtype::Bfloat16 => "bfloat16",
            Dtype::Complex64 => "complex64",
        }
    }
}

/// Different element types have different codes, so a code stands for at most one of them.
pub proof fn codes_are_distinct(a: Dtype, b: Dtype)
    requires
        a.code() == b.code(),
    ensures
        a == b,
{
}

} // verus!
