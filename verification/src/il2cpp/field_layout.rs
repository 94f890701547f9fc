//! Where the fields of types stand: the decoding of offset words, and the layout of static fields.
use crate::il2cpp::base::Il2Cpp;
use crate::il2cpp::code;
use crate::il2cpp::enums::{Il2CppTypeEnum, FIELD_HAS_RVA, FIELD_LITERAL, FIELD_STATIC};
use crate::il2cpp::metadata::Metadata;
use crate::il2cpp::structures::{
    Il2CppFieldDefinition, Il2CppType, Il2CppTypeDefinition, Il2CppTypeDefinitionSizes,
};
use crate::io;
use vstd::prelude::*;

verus! {

/// The bit of an offset word that marks a thread-static field.
pub const THREAD_STATIC_OFFSET_FLAG: u32 = 0x8000_0000;

/// An offset word taken apart.
#[derive(Debug, Clone, Copy, PartialEq, Eq, Structural)]
pub struct DecodedFieldOffset {
    pub raw: i32,
    pub effective: i32,
    pub is_thread_static: bool,
}

/// The offset in an offset word: its lower 31 bits.
pub open spec fn effective_offset(raw: i32) -> int {
    if raw < 0 {
        raw + 0x8000_0000
    } else {
        raw as int
    }
}

/// Takes an offset word apart: its top bit marks a thread-static field, the others are the offset.
pub fn decode_field_offset(raw: i32) -> (r: DecodedFieldOffset)
    ensures
        r.raw == raw,
        r.effective == effective_offset(raw),
        r.is_thread_static == (raw < 0),
{
    assert(((raw as u32) & 0x8000_0000u32 != 0) == (raw < 0)) by (bit_vector);
    if raw < 0 || (raw as u32) & THREAD_STATIC_OFFSET_FLAG != 0 {
        let effective: u32 = (raw as u32) & !THREAD_STATIC_OFFSET_FLAG;
        assert(raw < 0 ==> ((raw as u32) & !0x8000_0000u32) == raw + 0x8000_0000) by (bit_vector);
        DecodedFieldOffset { raw, effective: effective as i32, is_thread_static: true }
    } else {
        DecodedFieldOffset { raw, effective: raw, is_thread_static: false }
    }
}

/// The offset in an offset word and the mark give the word back.
pub proof fn law_offset_word(raw: i32)
    ensures
        0 <= effective_offset(raw) <= i32::MAX,
        raw == effective_offset(raw) - if raw < 0 {
            0x8000_0000int
        } else {
            0
        },
{
}

/// How a field is stored.
#[derive(Debug, Clone, Copy, PartialEq, Eq, Structural)]
pub enum StaticFieldKind {
    /// In each object.
    Instance,
    /// Once for the type.
    NormalStatic,
    /// Once for the type in each thread.
    ThreadStatic,
    /// At an address of its own.
    FieldRva,
    /// Not at all: the compiler puts its value wherever it is used.
    Literal,
}

/// Where and how a field is stored.
#[derive(Debug)]
pub struct FieldLayoutInfo {
    pub kind: StaticFieldKind,
    pub raw_offset: i32,
    pub effective_offset: i32,
    pub is_thread_static: bool,
    pub has_field_rva: bool,
    pub thread_static_fields_size: Option<u32>,
    pub static_fields_size: Option<u32>,
    pub default_value_metadata_offset: Option<u64>,
    pub rva_data_size: usize,
    pub metadata_bytes: Option<Vec<u8>>,
    pub binary_va: Option<u64>,
    pub binary_rva: Option<u64>,
    pub binary_bytes: Option<Vec<u8>>,
}

/// Where and how a field is stored, as a value.
pub struct FieldLayoutModel {
    pub kind: StaticFieldKind,
    pub raw_offset: i32,
    pub effective_offset: i32,
    pub is_thread_static: bool,
    pub has_field_rva: bool,
    pub thread_static_fields_size: Option<u32>,
    pub static_fields_size: Option<u32>,
    pub default_value_metadata_offset: Option<u64>,
    pub rva_data_size: usize,
    pub metadata_bytes: Option<Seq<u8>>,
    pub binary_va: Option<u64>,
    pub binary_rva: Option<u64>,
    pub binary_bytes: Option<Seq<u8>>,
}

/// Bytes that may be missing, as a value.
pub open spec fn optional_bytes(v: Option<Vec<u8>>) -> Option<Seq<u8>> {
    match v {
        Some(v) => Some(v@),
        None => None,
    }
}

impl View for FieldLayoutInfo {
    type V = FieldLayoutModel;

    open spec fn view(&self) -> FieldLayoutModel {
        FieldLayoutModel {
            kind: self.kind,
            raw_offset: self.raw_offset,
            effective_offset: self.effective_offset,
            is_thread_static: self.is_thread_static,
            has_field_rva: self.has_field_rva,
            thread_static_fields_size: self.thread_static_fields_size,
            static_fields_size: self.static_fields_size,
            default_value_metadata_offset: self.default_value_metadata_offset,
            rva_data_size: self.rva_data_size,
            metadata_bytes: optional_bytes(self.metadata_bytes),
            binary_va: self.binary_va,
            binary_rva: self.binary_rva,
            binary_bytes: optional_bytes(self.binary_bytes),
        }
    }
}

/// The kind is one of those with one place for all objects.
pub open spec fn has_static_storage(kind: StaticFieldKind) -> bool {
    kind is NormalStatic || kind is ThreadStatic || kind is FieldRva
}

impl FieldLayoutInfo {
    /// Whether the field has one place for all objects.
    pub fn is_static_storage(&self) -> (r: bool)
        ensures
            r == has_static_storage(self.kind),
    {
        match self.kind {
            StaticFieldKind::NormalStatic => true,
            StaticFieldKind::ThreadStatic => true,
            StaticFieldKind::FieldRva => true,
            StaticFieldKind::Instance => false,
            StaticFieldKind::Literal => false,
        }
    }
}

/// The sizes of a type definition, if they are known.
pub open spec fn sizes_at(il2cpp: Il2Cpp, td: int) -> Option<Il2CppTypeDefinitionSizes> {
    if 0 <= td < il2cpp.type_definition_sizes@.len() {
        Some(il2cpp.type_definition_sizes@[td])
    } else {
        None
    }
}

/// The size of a field by its element type; 64 where it has no fixed size.
pub open spec fn element_size(t: Il2CppType, is_32bit: bool) -> usize {
    match t.element() {
        Some(Il2CppTypeEnum::Boolean) => 1,
        Some(Il2CppTypeEnum::Char) | Some(Il2CppTypeEnum::I2) | Some(Il2CppTypeEnum::U2) => 2,
        Some(Il2CppTypeEnum::I4) | Some(Il2CppTypeEnum::U4) | Some(Il2CppTypeEnum::R4) => 4,
        Some(Il2CppTypeEnum::I8) | Some(Il2CppTypeEnum::U8) | Some(Il2CppTypeEnum::R8) => 8,
        Some(Il2CppTypeEnum::I) | Some(Il2CppTypeEnum::U) => if is_32bit {
            4
        } else {
            8
        },
        _ => 64,
    }
}

/// The guessed size of the data of a field: the first size of the type definition that is not 0,
/// or the size by its element type.
pub open spec fn data_size(t: Il2CppType, td: int, il2cpp: Il2Cpp) -> usize {
    match sizes_at(il2cpp, td) {
        Some(sizes) => if sizes.instance_size > 0 {
            sizes.instance_size as usize
        } else if sizes.native_size > 0 {
            sizes.native_size as usize
        } else if sizes.static_fields_size > 0 {
            sizes.static_fields_size as usize
        } else {
            element_size(t, il2cpp.is_32bit)
        },
        None => element_size(t, il2cpp.is_32bit),
    }
}

/// The sizes of a type definition, if they are known.
pub fn type_sizes(il2cpp: &Il2Cpp, type_def_index: usize) -> (r: Option<Il2CppTypeDefinitionSizes>)
    ensures
        r == sizes_at(*il2cpp, type_def_index as int),
{
    if type_def_index < il2cpp.type_definition_sizes.len() {
        Some(il2cpp.type_definition_sizes[type_def_index])
    } else {
        None
    }
}

/// Guesses the size of the data of a field.
pub fn estimate_field_rva_size(field_type: &Il2CppType, type_def_index: usize, il2cpp: &Il2Cpp) -> (r:
    usize)
    ensures
        r == data_size(*field_type, type_def_index as int, *il2cpp),
{
    if let Some(sizes) = type_sizes(il2cpp, type_def_index) {
        if sizes.instance_size > 0 {
            return sizes.instance_size as usize;
        }
        if sizes.native_size > 0 {
            return sizes.native_size as usize;
        }
        if sizes.static_fields_size > 0 {
            return sizes.static_fields_size as usize;
        }
    }
    match Il2CppTypeEnum::from_u8(field_type.type_enum) {
        Some(Il2CppTypeEnum::Boolean) => 1,
        Some(Il2CppTypeEnum::Char) | Some(Il2CppTypeEnum::I2) | Some(Il2CppTypeEnum::U2) => 2,
        Some(Il2CppTypeEnum::I4) | Some(Il2CppTypeEnum::U4) | Some(Il2CppTypeEnum::R4) => 4,
        Some(Il2CppTypeEnum::I8) | Some(Il2CppTypeEnum::U8) | Some(Il2CppTypeEnum::R8) => 8,
        Some(Il2CppTypeEnum::I) | Some(Il2CppTypeEnum::U) => if il2cpp.is_32bit {
            4
        } else {
            8
        },
        _ => 64,
    }
}

/// The bytes of the metadata from an offset on: all of them in the block of default values, as far
/// as the file goes.
pub open spec fn metadata_bytes_at(m: Metadata, offset: int, size: int) -> Option<Seq<u8>> {
    let start = m.default_value_data_offset as int;
    let end = m.default_value_data_offset + m.default_value_data_size;
    if size == 0 {
        Some(Seq::empty())
    } else if offset < start || offset + size > end || offset >= m.data@.len() {
        None
    } else if offset + size <= m.data@.len() {
        Some(m.data@.subrange(offset, offset + size))
    } else {
        Some(m.data@.subrange(offset, m.data@.len() as int))
    }
}

/// The bytes of the metadata from an offset on.
pub fn read_metadata_bytes(metadata: &Metadata, offset: u64, size: usize) -> (r: Option<Vec<u8>>)
    ensures
        optional_bytes(r) == metadata_bytes_at(*metadata, offset as int, size as int),
{
    if size == 0 {
        let r: Vec<u8> = Vec::new();
        assert(r@ =~= Seq::<u8>::empty());
        return Some(r);
    }
    let data_base: u64 = metadata.default_value_data_offset as u64;
    let data_end: u64 = data_base + metadata.default_value_data_size as u64;
    let end: u64 = offset.saturating_add(size as u64);
    if offset < data_base || end > data_end {
        return None;
    }
    let len: usize = metadata.data.len();
    if offset >= len as u64 {
        return None;
    }
    let start: usize = offset as usize;
    let end: usize = if size <= len - start {
        start + size
    } else {
        len
    };
    Some(code::bytes_between(&metadata.data, start, end))
}

/// The bytes of the image at an address; none where there is nothing to read.
pub open spec fn binary_bytes_at(il2cpp: Il2Cpp, va: u64, size: nat) -> Option<Seq<u8>> {
    if size == 0 || va == 0 {
        None
    } else {
        il2cpp.bytes_at_rva(il2cpp.rva(va), size)
    }
}

/// The bytes of the image at an address.
pub fn read_binary_bytes(il2cpp: &Il2Cpp, va: u64, size: usize) -> (r: Option<Vec<u8>>)
    requires
        il2cpp.wf(),
    ensures
        optional_bytes(r) == binary_bytes_at(*il2cpp, va, size as nat),
{
    if size == 0 || va == 0 {
        return None;
    }
    il2cpp.read_bytes_at_rva(il2cpp.get_rva(va), size)
}

/// The attribute bit is set.
pub open spec fn has_attr(attrs: u32, bit: u32) -> bool {
    attrs & bit != 0
}

/// Where the default value of a field stands in the metadata, if it has one.
pub open spec fn default_offset(m: Metadata, field_index: usize) -> Option<u64> {
    let values = m.field_default_values@;
    if values.contains_key(field_index) && values[field_index].data_index >= 0 {
        Some(values[field_index].offset)
    } else {
        None
    }
}

/// Where the default value of a field stands in the metadata, if it has one.
pub fn default_value_offset(metadata: &Metadata, field_index: usize) -> (r: Option<u64>)
    ensures
        r == default_offset(*metadata, field_index),
{
    match metadata.field_default_values.get(&field_index) {
        Some(value) => if value.data_index >= 0 {
            Some(value.offset)
        } else {
            None
        },
        None => None,
    }
}

/// The bytes that hold the address of the data of a field, if the field has such data.
pub open spec fn address_blob(m: Metadata, il2cpp: Il2Cpp, field_index: usize, attrs: u32) -> Option<
    Seq<u8>,
> {
    match default_offset(m, field_index) {
        Some(offset) => if has_attr(attrs, FIELD_HAS_RVA) {
            metadata_bytes_at(
                m,
                offset as int,
                io::pointer_len(il2cpp.stream.is_32bit) as int,
            )
        } else {
            None
        },
        None => None,
    }
}

/// In an image with 32-bit pointers the bytes that hold the address of the data of the field are
/// not cut off by the end of the file.
pub open spec fn blob_whole(m: Metadata, il2cpp: Il2Cpp, field_index: usize, attrs: u32) -> bool {
    il2cpp.is_32bit ==> (address_blob(m, il2cpp, field_index, attrs) matches Some(blob)
        ==> blob.len() >= 4)
}

/// The address that the bytes hold.
pub open spec fn address_in(blob: Seq<u8>, is_32bit: bool) -> u64 {
    if is_32bit {
        io::little_endian(blob, 0, 4) as u64
    } else if blob.len() >= 8 {
        io::little_endian(blob, 0, 8) as u64
    } else {
        0
    }
}

/// The kind of a field by its attributes and its offset word.
pub open spec fn kind_by_attrs(attrs: u32, raw: i32) -> StaticFieldKind {
    if has_attr(attrs, FIELD_LITERAL) {
        StaticFieldKind::Literal
    } else if raw < 0 {
        StaticFieldKind::ThreadStatic
    } else if has_attr(attrs, FIELD_HAS_RVA) {
        StaticFieldKind::FieldRva
    } else if has_attr(attrs, FIELD_STATIC) {
        StaticFieldKind::NormalStatic
    } else {
        StaticFieldKind::Instance
    }
}

/// The offset lies in the block of thread-static fields, which follows that of static fields.
pub open spec fn in_thread_block(offset: int, sizes: Il2CppTypeDefinitionSizes) -> bool {
    let end = if sizes.static_fields_size + sizes.thread_static_fields_size <= u32::MAX {
        sizes.static_fields_size + sizes.thread_static_fields_size
    } else {
        u32::MAX as int
    };
    sizes.thread_static_fields_size > 0 && sizes.static_fields_size <= offset < end
}

/// The kind of a field: a static field whose offset lies in the block of thread-static fields is
/// thread-static too.
pub open spec fn kind_of(attrs: u32, raw: i32, sizes: Option<Il2CppTypeDefinitionSizes>) -> StaticFieldKind {
    let kind = kind_by_attrs(attrs, raw);
    match sizes {
        Some(sizes) => if kind is NormalStatic && in_thread_block(effective_offset(raw), sizes) {
            StaticFieldKind::ThreadStatic
        } else {
            kind
        },
        None => kind,
    }
}

/// Where and how a field is stored.
pub open spec fn layout_of(
    m: Metadata,
    il2cpp: Il2Cpp,
    td: int,
    index_in_type: int,
    field_index: usize,
    t: Il2CppType,
    max_bytes: usize,
) -> FieldLayoutModel {
    let raw = il2cpp.raw_field_offset(td, index_in_type, field_index as int);
    let sizes = sizes_at(il2cpp, td);
    let kind = kind_of(t.attrs, raw, sizes);
    let size = if data_size(t, td, il2cpp) <= max_bytes {
        data_size(t, td, il2cpp)
    } else {
        max_bytes
    };
    let offset = default_offset(m, field_index);
    let va = match address_blob(m, il2cpp, field_index, t.attrs) {
        Some(blob) => address_in(blob, il2cpp.is_32bit),
        None => 0,
    };
    FieldLayoutModel {
        kind,
        raw_offset: raw,
        effective_offset: effective_offset(raw) as i32,
        is_thread_static: kind is ThreadStatic,
        has_field_rva: has_attr(t.attrs, FIELD_HAS_RVA),
        thread_static_fields_size: match sizes {
            Some(sizes) => Some(sizes.thread_static_fields_size),
            None => None,
        },
        static_fields_size: match sizes {
            Some(sizes) => Some(sizes.static_fields_size),
            None => None,
        },
        default_value_metadata_offset: offset,
        rva_data_size: size,
        metadata_bytes: match offset {
            Some(offset) => if has_attr(t.attrs, FIELD_HAS_RVA) || has_attr(
                t.attrs,
                FIELD_LITERAL,
            ) {
                metadata_bytes_at(m, offset as int, size as int)
            } else {
                None
            },
            None => None,
        },
        binary_va: if va > 0x1000 {
            Some(va)
        } else {
            None
        },
        binary_rva: if va > 0x1000 {
            Some(il2cpp.rva(va))
        } else {
            None
        },
        binary_bytes: if va > 0x1000 {
            binary_bytes_at(il2cpp, va, size as nat)
        } else {
            None
        },
    }
}

/// The address that the bytes hold.
fn read_address(blob: &Vec<u8>, is_32bit: bool) -> (r: u64)
    requires
        is_32bit ==> blob@.len() >= 4,
    ensures
        r == address_in(blob@, is_32bit),
{
    proof {
        reveal_with_fuel(io::little_endian, 9);
    }
    if is_32bit {
        blob[0] as u64 + 256 * (blob[1] as u64 + 256 * (blob[2] as u64 + 256 * (blob[3] as u64)))
    } else if blob.len() >= 8 {
        let low: u64 = blob[0] as u64 + 256 * (blob[1] as u64 + 256 * (blob[2] as u64 + 256 * (
        blob[3] as u64)));
        let high: u64 = blob[4] as u64 + 256 * (blob[5] as u64 + 256 * (blob[6] as u64 + 256 * (
        blob[7] as u64)));
        low + 0x1_0000_0000 * high
    } else {
        0
    }
}

/// Finds out where and how a field is stored.
pub fn analyze_field_layout(
    metadata: &Metadata,
    il2cpp: &Il2Cpp,
    _type_def: &Il2CppTypeDefinition,
    type_def_index: usize,
    field_index_in_type: usize,
    field_index: usize,
    _field_def: &Il2CppFieldDefinition,
    field_type: &Il2CppType,
    max_rva_bytes: usize,
) -> (r: FieldLayoutInfo)
    requires
        il2cpp.wf(),
        blob_whole(*metadata, *il2cpp, field_index, field_type.attrs),
    ensures
        r@ == layout_of(
            *metadata,
            *il2cpp,
            type_def_index as int,
            field_index_in_type as int,
            field_index,
            *field_type,
            max_rva_bytes,
        ),
{
    let is_literal = (field_type.attrs & FIELD_LITERAL) != 0;
    let is_static = (field_type.attrs & FIELD_STATIC) != 0;
    let has_field_rva = (field_type.attrs & FIELD_HAS_RVA) != 0;
    let raw_offset: i32 = il2cpp.get_raw_field_offset(
        type_def_index,
        field_index_in_type,
        field_index,
    );
    let decoded = decode_field_offset(raw_offset);
    let sizes = type_sizes(il2cpp, type_def_index);
    let (thread_static_fields_size, static_fields_size) = match sizes {
        Some(s) => (Some(s.thread_static_fields_size), Some(s.static_fields_size)),
        None => (None, None),
    };
    let mut kind = if is_literal {
        StaticFieldKind::Literal
    } else if decoded.is_thread_static {
        StaticFieldKind::ThreadStatic
    } else if has_field_rva {
        StaticFieldKind::FieldRva
    } else if is_static {
        StaticFieldKind::NormalStatic
    } else {
        StaticFieldKind::Instance
    };
    let estimate: usize = estimate_field_rva_size(field_type, type_def_index, il2cpp);
    let rva_data_size: usize = if estimate <= max_rva_bytes {
        estimate
    } else {
        max_rva_bytes
    };
    let default_value_metadata_offset = default_value_offset(metadata, field_index);
    let mut metadata_bytes: Option<Vec<u8>> = None;
    if let Some(meta_off) = default_value_metadata_offset {
        if has_field_rva || is_literal {
            metadata_bytes = read_metadata_bytes(metadata, meta_off, rva_data_size);
        }
    }
    if !decoded.is_thread_static && is_static && !is_literal && !has_field_rva {
        if let Some(s) = sizes {
            let ts_size: u32 = s.thread_static_fields_size;
            let ss_size: u32 = s.static_fields_size;
            if ts_size > 0 {
                let eff: u32 = decoded.effective as u32;
                if eff >= ss_size && eff < ss_size.saturating_add(ts_size) {
                    kind = StaticFieldKind::ThreadStatic;
                }
            }
        }
    }
    let mut binary_va: Option<u64> = None;
    let mut binary_rva: Option<u64> = None;
    let mut binary_bytes: Option<Vec<u8>> = None;
    if has_field_rva {
        if let Some(meta_off) = default_value_metadata_offset {
            if let Some(blob) = read_metadata_bytes(
                metadata,
                meta_off,
                il2cpp.stream.pointer_size(),
            ) {
                let va: u64 = read_address(&blob, il2cpp.is_32bit);
                if va > 0x1000 {
                    binary_va = Some(va);
                    binary_rva = Some(il2cpp.get_rva(va));
                    binary_bytes = read_binary_bytes(il2cpp, va, rva_data_size);
                }
            }
        }
    }
    let is_thread_static = match kind {
        StaticFieldKind::ThreadStatic => true,
        _ => false,
    };
    FieldLayoutInfo {
        kind,
        raw_offset,
        effective_offset: decoded.effective,
        is_thread_static,
        has_field_rva,
        thread_static_fields_size,
        static_fields_size,
        default_value_metadata_offset,
        rva_data_size,
        metadata_bytes,
        binary_va,
        binary_rva,
        binary_bytes,
    }
}

/// A field is said to be thread-static just where its kind is, and a field that is neither static
/// nor literal and has no data address of its own is an instance field unless its offset word
/// carries the thread-static mark.
pub proof fn law_layout_kinds(
    m: Metadata,
    il2cpp: Il2Cpp,
    td: int,
    index_in_type: int,
    field_index: usize,
    t: Il2CppType,
    max_bytes: usize,
)
    ensures
        ({
            let l = layout_of(m, il2cpp, td, index_in_type, field_index, t, max_bytes);
            &&& l.is_thread_static <==> l.kind is ThreadStatic
            &&& l.kind is Literal <==> has_attr(t.attrs, FIELD_LITERAL)
            &&& l.kind is Instance <==> !has_attr(t.attrs, FIELD_LITERAL) && !has_attr(
                t.attrs,
                FIELD_HAS_RVA,
            ) && !has_attr(t.attrs, FIELD_STATIC) && l.raw_offset >= 0
            &&& l.effective_offset >= 0
            &&& l.rva_data_size <= max_bytes
        }),
{
}

} // verus!
