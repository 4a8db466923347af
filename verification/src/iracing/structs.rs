//! iRacing SDK shared-memory layout, as plain values.
//!
//! The sim writes these records at fixed offsets of its shared-memory region;
//! the reader copies them out field by field and hands them to the decoding
//! logic in [`crate::iracing::reader`].
use vstd::prelude::*;

verus! {

pub const IRSDK_MAX_BUFS: usize = 4;

pub const IRSDK_MAX_STRING: usize = 32;

pub const IRSDK_MAX_DESC: usize = 64;

/// One of up to `IRSDK_MAX_BUFS` rotating telemetry data slots. The sim writes
/// to alternating buffers so readers can always access a consistent frame.
#[allow(non_camel_case_types)]
#[derive(Debug, Clone, Copy)]
pub struct irsdk_varBuf {
    pub tick_count: i32,
    pub buf_offset: i32,
    pub pad: [i32; 2],
}

/// Top-level header at offset 0 of the iRacing shared-memory region:
/// version, session-info location, variable table offset, and the data
/// buffer slots.
#[allow(non_camel_case_types)]
#[derive(Debug, Clone, Copy)]
pub struct irsdk_header {
    pub ver: i32,
    pub status: i32,
    pub tick_rate: i32,
    pub session_info_update: i32,
    pub session_info_len: i32,
    pub session_info_offset: i32,
    pub num_vars: i32,
    pub var_header_offset: i32,
    pub num_buf: i32,
    pub buf_len: i32,
    pub pad: [i32; 2],
    pub var_buf: [irsdk_varBuf; IRSDK_MAX_BUFS],
}

/// Describes a single telemetry variable: its type, byte offset within a data
/// buffer, element count (>1 for arrays), and NUL-padded name, description
/// and unit.
#[allow(non_camel_case_types)]
#[derive(Debug, Clone, Copy)]
pub struct irsdk_varHeader {
    pub type_: i32,
    pub offset: i32,
    pub count: i32,
    pub count_as_char: u8,
    pub pad: [u8; 3],
    pub name: [u8; IRSDK_MAX_STRING],
    pub desc: [u8; IRSDK_MAX_DESC],
    pub unit: [u8; IRSDK_MAX_STRING],
}

/// Variable data types matching the iRacing C SDK `irsdk_VarType` enum.
#[derive(Debug, Clone, Copy, PartialEq, Eq, Structural)]
pub enum VarType {
    Char,
    Bool,
    Int,
    BitField,
    Float,
    Double,
}

/// The variable type an SDK code stands for.
pub open spec fn var_type_of(val: i32) -> Option<VarType> {
    if val == 0 {
        Some(VarType::Char)
    } else if val == 1 {
        Some(VarType::Bool)
    } else if val == 2 {
        Some(VarType::Int)
    } else if val == 3 {
        Some(VarType::BitField)
    } else if val == 4 {
        Some(VarType::Float)
    } else if val == 5 {
        Some(VarType::Double)
    } else {
        None
    }
}

impl VarType {
    /// The SDK's numeric code for this type.
    pub open spec fn spec_code(self) -> i32 {
        match self {
            VarType::Char => 0,
            VarType::Bool => 1,
            VarType::Int => 2,
            VarType::BitField => 3,
            VarType::Float => 4,
            VarType::Double => 5,
        }
    }

    /// The SDK's numeric code for this type.
    #[verifier::when_used_as_spec(spec_code)]
    pub fn code(self) -> (c: i32)
        ensures
            c == self.spec_code(),
    {
        match self {
            VarType::Char => 0,
            VarType::Bool => 1,
            VarType::Int => 2,
            VarType::BitField => 3,
            VarType::Float => 4,
            VarType::Double => 5,
        }
    }

    /// Convert a raw `i32` code from shared memory into a `VarType`.
    pub fn from_i32(val: i32) -> (r: Option<VarType>)
        ensures
            r == var_type_of(val),
    {
        match val {
            0 => Some(VarType::Char),
            1 => Some(VarType::Bool),
            2 => Some(VarType::Int),
            3 => Some(VarType::BitField),
            4 => Some(VarType::Float),
            5 => Some(VarType::Double),
            _ => None,
        }
    }

    /// The size in bytes of one element of this type.
    pub open spec fn spec_size(self) -> int {
        match self {
            VarType::Char => 1,
            VarType::Bool => 1,
            VarType::Int => 4,
            VarType::BitField => 4,
            VarType::Float => 4,
            VarType::Double => 8,
        }
    }
}

} // verus!
