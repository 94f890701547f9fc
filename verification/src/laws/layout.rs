//! How fields are stored, and what their initial data is.
use crate::il2cpp::base::Il2Cpp;
use crate::il2cpp::field_layout;
use crate::il2cpp::field_layout::StaticFieldKind;
use crate::il2cpp::metadata::Metadata;
use crate::il2cpp::structures::{Il2CppType, Il2CppTypeDefinitionSizes};
use crate::laws::values;
use crate::laws::words;
use vstd::prelude::*;

verus! {

/// The field belongs to the type: the fifth bit of its attributes is set.
pub open spec fn is_static(attrs: u32) -> bool {
    (attrs / 0x10) % 2 == 1
}

/// The field is a constant: the seventh bit of its attributes is set.
pub open spec fn is_literal(attrs: u32) -> bool {
    (attrs / 0x40) % 2 == 1
}

/// The field has initial data at an address of its own: the ninth bit of its attributes is set.
pub open spec fn has_data(attrs: u32) -> bool {
    (attrs / 0x100) % 2 == 1
}

proof fn lemma_attrs(attrs: u32)
    ensures
        field_layout::has_attr(attrs, crate::il2cpp::enums::FIELD_STATIC) == is_static(attrs),
        field_layout::has_attr(attrs, crate::il2cpp::enums::FIELD_LITERAL) == is_literal(attrs),
        field_layout::has_attr(attrs, crate::il2cpp::enums::FIELD_HAS_RVA) == has_data(attrs),
{
    assert((attrs & 0x10 != 0) == ((attrs / 0x10) % 2 == 1)) by (bit_vector);
    assert((attrs & 0x40 != 0) == ((attrs / 0x40) % 2 == 1)) by (bit_vector);
    assert((attrs & 0x100 != 0) == ((attrs / 0x100) % 2 == 1)) by (bit_vector);
}

/// The offset is one of the part for threads, which stands behind the part of the type and ends at
/// the latest where offsets end.
pub open spec fn in_thread_part(offset: int, sizes: Il2CppTypeDefinitionSizes) -> bool {
    sizes.static_fields_size <= offset < sizes.static_fields_size + sizes.thread_static_fields_size
        && offset < 0xFFFF_FFFF
}

/// A constant is stored nowhere. Of other fields, one is stored once for each thread if the top bit
/// of its offset word is set, or if it belongs to the type without data of its own and its offset
/// lies in the part for threads; else at an address of its own if it has data; else once for the
/// type if it belongs to it; else in each object.
pub proof fn law_field_kind(
    m: Metadata,
    il2cpp: Il2Cpp,
    td: int,
    k: int,
    field: usize,
    t: Il2CppType,
    max_bytes: usize,
)
    ensures
        ({
            let l = field_layout::layout_of(m, il2cpp, td, k, field, t, max_bytes);
            let raw = il2cpp.raw_field_offset(td, k, field as int) as int;
            let known = 0 <= td < il2cpp.type_definition_sizes@.len();
            let in_part = known && in_thread_part(raw, il2cpp.type_definition_sizes@[td]);
            let plain = !has_data(t.attrs) && is_static(t.attrs);
            &&& l.raw_offset == raw
            &&& l.effective_offset == raw % 0x8000_0000
            &&& l.has_field_rva == has_data(t.attrs)
            &&& is_literal(t.attrs) ==> l.kind is Literal
            &&& !is_literal(t.attrs) && (raw < 0 || (plain && in_part)) ==> l.kind is ThreadStatic
            &&& !is_literal(t.attrs) && raw >= 0 && has_data(t.attrs) ==> l.kind is FieldRva
            &&& !is_literal(t.attrs) && raw >= 0 && plain && !in_part ==> l.kind is NormalStatic
            &&& !is_literal(t.attrs) && raw >= 0 && !has_data(t.attrs) && !is_static(t.attrs)
                ==> l.kind is Instance
            &&& l.is_thread_static == (l.kind is ThreadStatic)
            &&& l.static_fields_size == if known {
                Some(il2cpp.type_definition_sizes@[td].static_fields_size)
            } else {
                None
            }
            &&& l.thread_static_fields_size == if known {
                Some(il2cpp.type_definition_sizes@[td].thread_static_fields_size)
            } else {
                None
            }
        }),
{
    lemma_attrs(t.attrs);
}

/// The number of bytes of a value of the language, if it is known: booleans, characters, and all
/// numbers of more than one byte.
pub open spec fn value_bytes(t: Il2CppType, is_32bit: bool) -> Option<int> {
    match values::shape_of(t.type_enum) {
        Some(shape) => match shape.bits {
            Some(bits) => if bits > 8 || t.type_enum == 2 {
                Some(bits as int / 8)
            } else {
                None
            },
            None => Some(words::pointer_bytes(is_32bit)),
        },
        None => None,
    }
}

/// The size of the data of a field is the first of the sizes of its type definition that is not 0:
/// that of its objects, that of its native form, that of its static fields. Where none is known it
/// is the width of the value, or 64 where that is not known either.
pub proof fn law_data_size(t: Il2CppType, td: int, il2cpp: Il2Cpp)
    ensures
        ({
            let n = field_layout::data_size(t, td, il2cpp);
            let known = 0 <= td < il2cpp.type_definition_sizes@.len();
            let sizes = il2cpp.type_definition_sizes@[td];
            let none = !known || (sizes.instance_size == 0 && sizes.native_size <= 0
                && sizes.static_fields_size == 0);
            &&& known && sizes.instance_size > 0 ==> n == sizes.instance_size
            &&& known && sizes.instance_size == 0 && sizes.native_size > 0 ==> n
                == sizes.native_size
            &&& known && sizes.instance_size == 0 && sizes.native_size <= 0
                && sizes.static_fields_size > 0 ==> n == sizes.static_fields_size
            &&& none ==> n == match value_bytes(t, il2cpp.is_32bit) {
                Some(bytes) => bytes,
                None => 64,
            }
        }),
{
}

/// The bytes of the metadata at an offset can be read where they all lie in the block of default
/// values and begin before the end of the data; what lies behind that end is missing. No bytes can
/// always be read.
pub proof fn law_metadata_bytes(m: Metadata, offset: int, size: int)
    requires
        0 <= offset,
        0 <= size,
    ensures
        ({
            let r = field_layout::metadata_bytes_at(m, offset, size);
            let start = m.default_value_data_offset as int;
            let end = start + m.default_value_data_size;
            &&& r is Some <==> size == 0 || (start <= offset && offset + size <= end && offset
                < m.data@.len())
            &&& r matches Some(v) ==> {
                &&& v.len() <= size
                &&& v.len() < size ==> offset + v.len() == m.data@.len()
                &&& forall|i: int| 0 <= i < v.len() ==> #[trigger] v[i] == m.data@[offset + i]
            }
        }),
{
}

/// A field has a default value where one is listed for it with an index that is not negative.
pub proof fn law_default_offset(m: Metadata, field: usize)
    ensures
        ({
            let values = m.field_default_values@;
            let r = field_layout::default_offset(m, field);
            &&& r is Some <==> values.contains_key(field) && values[field].data_index >= 0
            &&& r matches Some(at) ==> at == values[field].offset
        }),
{
}

/// The address that the data of a field begins with: a pointer of the image. Where the field has no
/// data of its own, or the data cannot be read, there is none.
pub open spec fn data_address(m: Metadata, il2cpp: Il2Cpp, field: usize, t: Il2CppType) -> int {
    let offset = field_layout::default_offset(m, field);
    let bytes = field_layout::metadata_bytes_at(
        m,
        offset->0 as int,
        words::pointer_bytes(il2cpp.stream.is_32bit),
    );
    if !has_data(t.attrs) || offset is None || bytes is None {
        0
    } else if il2cpp.is_32bit {
        words::word32(bytes->0, 0)
    } else if bytes->0.len() >= 8 {
        words::word64(bytes->0, 0)
    } else {
        0
    }
}

/// The data of a field stands in the metadata where it has a default value and is a constant or has
/// data of its own: as many bytes as its size, within the limit. Where its data begins with an
/// address above 4096, it stands in the image at that address too.
pub proof fn law_field_data(
    m: Metadata,
    il2cpp: Il2Cpp,
    td: int,
    k: int,
    field: usize,
    t: Il2CppType,
    max_bytes: usize,
)
    ensures
        ({
            let l = field_layout::layout_of(m, il2cpp, td, k, field, t, max_bytes);
            let size = field_layout::data_size(t, td, il2cpp);
            let offset = field_layout::default_offset(m, field);
            let va = data_address(m, il2cpp, field, t);
            &&& l.rva_data_size == if size < max_bytes {
                size
            } else {
                max_bytes
            }
            &&& l.default_value_metadata_offset == offset
            &&& offset is Some && (has_data(t.attrs) || is_literal(t.attrs)) ==> l.metadata_bytes
                == field_layout::metadata_bytes_at(m, offset->0 as int, l.rva_data_size as int)
            &&& offset is None || !(has_data(t.attrs) || is_literal(t.attrs))
                ==> l.metadata_bytes is None
            &&& va > 4096 ==> {
                &&& l.binary_va == Some(va as u64)
                &&& l.binary_rva == Some(
                    ((va - il2cpp.image_base) % 0x1_0000_0000_0000_0000) as u64,
                )
                &&& l.rva_data_size > 0 ==> l.binary_bytes == il2cpp.bytes_at_rva(
                    l.binary_rva->0,
                    l.rva_data_size as nat,
                )
                &&& l.rva_data_size == 0 ==> l.binary_bytes is None
            }
            &&& va <= 4096 ==> l.binary_va is None && l.binary_rva is None && l.binary_bytes is None
        }),
{
    lemma_attrs(t.attrs);
    let offset = field_layout::default_offset(m, field);
    if let Some(at) = offset {
        if let Some(blob) = field_layout::metadata_bytes_at(
            m,
            at as int,
            words::pointer_bytes(il2cpp.stream.is_32bit),
        ) {
            words::law_words(blob, 0);
        }
    }
    let va = data_address(m, il2cpp, field, t);
    if va > 4096 {
        crate::laws::addresses::law_rva(il2cpp, va as u64);
        assert(il2cpp.rva(va as u64) == ((va - il2cpp.image_base) % 0x1_0000_0000_0000_0000)
            as u64);
    }
}

/// Fields of the type, of its threads, or with data of their own have storage outside of objects.
pub proof fn law_static_storage(kind: StaticFieldKind)
    ensures
        field_layout::has_static_storage(kind) <==> !(kind is Instance) && !(kind is Literal),
{
}

} // verus!
