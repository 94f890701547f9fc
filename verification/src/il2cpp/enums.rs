//! The element types, attribute bits and metadata versions of the format.
use vstd::prelude::*;

verus! {

/// The element types of the common language infrastructure.
#[derive(Debug, Clone, Copy, PartialEq, Eq, Structural)]
pub enum Il2CppTypeEnum {
    End,
    Void,
    Boolean,
    Char,
    I1,
    U1,
    I2,
    U2,
    I4,
    U4,
    I8,
    U8,
    R4,
    R8,
    String,
    Ptr,
    ByRef,
    ValueType,
    Class,
    Var,
    Array,
    GenericInst,
    TypedByRef,
    I,
    U,
    FnPtr,
    Object,
    SzArray,
    MVar,
    CModReqd,
    CModOpt,
    Internal,
    Modifier,
    Sentinel,
    Pinned,
    Enum,
    Il2CppTypeIndex,
}

/// The element type with the number `v`, if there is one.
pub open spec fn element_type(v: u8) -> Option<Il2CppTypeEnum> {
    match v {
        0x00 => Some(Il2CppTypeEnum::End),
        0x01 => Some(Il2CppTypeEnum::Void),
        0x02 => Some(Il2CppTypeEnum::Boolean),
        0x03 => Some(Il2CppTypeEnum::Char),
        0x04 => Some(Il2CppTypeEnum::I1),
        0x05 => Some(Il2CppTypeEnum::U1),
        0x06 => Some(Il2CppTypeEnum::I2),
        0x07 => Some(Il2CppTypeEnum::U2),
        0x08 => Some(Il2CppTypeEnum::I4),
        0x09 => Some(Il2CppTypeEnum::U4),
        0x0a => Some(Il2CppTypeEnum::I8),
        0x0b => Some(Il2CppTypeEnum::U8),
        0x0c => Some(Il2CppTypeEnum::R4),
        0x0d => Some(Il2CppTypeEnum::R8),
        0x0e => Some(Il2CppTypeEnum::String),
        0x0f => Some(Il2CppTypeEnum::Ptr),
        0x10 => Some(Il2CppTypeEnum::ByRef),
        0x11 => Some(Il2CppTypeEnum::ValueType),
        0x12 => Some(Il2CppTypeEnum::Class),
        0x13 => Some(Il2CppTypeEnum::Var),
        0x14 => Some(Il2CppTypeEnum::Array),
        0x15 => Some(Il2CppTypeEnum::GenericInst),
        0x16 => Some(Il2CppTypeEnum::TypedByRef),
        0x18 => Some(Il2CppTypeEnum::I),
        0x19 => Some(Il2CppTypeEnum::U),
        0x1b => Some(Il2CppTypeEnum::FnPtr),
        0x1c => Some(Il2CppTypeEnum::Object),
        0x1d => Some(Il2CppTypeEnum::SzArray),
        0x1e => Some(Il2CppTypeEnum::MVar),
        0x1f => Some(Il2CppTypeEnum::CModReqd),
        0x20 => Some(Il2CppTypeEnum::CModOpt),
        0x21 => Some(Il2CppTypeEnum::Internal),
        0x40 => Some(Il2CppTypeEnum::Modifier),
        0x41 => Some(Il2CppTypeEnum::Sentinel),
        0x45 => Some(Il2CppTypeEnum::Pinned),
        0x55 => Some(Il2CppTypeEnum::Enum),
        0xff => Some(Il2CppTypeEnum::Il2CppTypeIndex),
        _ => None,
    }
}

impl Il2CppTypeEnum {
    /// The element type with the number `v`, if there is one.
    pub fn from_u8(v: u8) -> (r: Option<Self>)
        ensures
            r == element_type(v),
    {
        match v {
            0x00 => Some(Il2CppTypeEnum::End),
            0x01 => Some(Il2CppTypeEnum::Void),
            0x02 => Some(Il2CppTypeEnum::Boolean),
            0x03 => Some(Il2CppTypeEnum::Char),
            0x04 => Some(Il2CppTypeEnum::I1),
            0x05 => Some(Il2CppTypeEnum::U1),
            0x06 => Some(Il2CppTypeEnum::I2),
            0x07 => Some(Il2CppTypeEnum::U2),
            0x08 => Some(Il2CppTypeEnum::I4),
            0x09 => Some(Il2CppTypeEnum::U4),
            0x0a => Some(Il2CppTypeEnum::I8),
            0x0b => Some(Il2CppTypeEnum::U8),
            0x0c => Some(Il2CppTypeEnum::R4),
            0x0d => Some(Il2CppTypeEnum::R8),
            0x0e => Some(Il2CppTypeEnum::String),
            0x0f => Some(Il2CppTypeEnum::Ptr),
            0x10 => Some(Il2CppTypeEnum::ByRef),
            0x11 => Some(Il2CppTypeEnum::ValueType),
            0x12 => Some(Il2CppTypeEnum::Class),
            0x13 => Some(Il2CppTypeEnum::Var),
            0x14 => Some(Il2CppTypeEnum::Array),
            0x15 => Some(Il2CppTypeEnum::GenericInst),
            0x16 => Some(Il2CppTypeEnum::TypedByRef),
            0x18 => Some(Il2CppTypeEnum::I),
            0x19 => Some(Il2CppTypeEnum::U),
            0x1b => Some(Il2CppTypeEnum::FnPtr),
            0x1c => Some(Il2CppTypeEnum::Object),
            0x1d => Some(Il2CppTypeEnum::SzArray),
            0x1e => Some(Il2CppTypeEnum::MVar),
            0x1f => Some(Il2CppTypeEnum::CModReqd),
            0x20 => Some(Il2CppTypeEnum::CModOpt),
            0x21 => Some(Il2CppTypeEnum::Internal),
            0x40 => Some(Il2CppTypeEnum::Modifier),
            0x41 => Some(Il2CppTypeEnum::Sentinel),
            0x45 => Some(Il2CppTypeEnum::Pinned),
            0x55 => Some(Il2CppTypeEnum::Enum),
            0xff => Some(Il2CppTypeEnum::Il2CppTypeIndex),
            _ => None,
        }
    }
}

/// The field belongs to the type, not to its objects.
pub const FIELD_STATIC: u32 = 0x0010;

/// The field is a compile-time constant.
pub const FIELD_LITERAL: u32 = 0x0040;

/// The field has initial data at an address of its own.
pub const FIELD_HAS_RVA: u32 = 0x0100;

/// The method belongs to the type, not to its objects.
pub const METHOD_STATIC: u32 = 0x0010;

// Metadata versions are counted in hundredths: 2420 is version 24.2.

pub const V16: u32 = 1600;

pub const V21: u32 = 2100;

pub const V22: u32 = 2200;

pub const V24: u32 = 2400;

pub const V24_2: u32 = 2420;

pub const V24_3: u32 = 2430;

pub const V24_4: u32 = 2440;

pub const V24_5: u32 = 2450;

pub const V27: u32 = 2700;

pub const V27_1: u32 = 2710;

pub const V29: u32 = 2900;

pub const V29_1: u32 = 2910;

pub const V31: u32 = 3100;

} // verus!
