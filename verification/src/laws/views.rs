//! What the values that are handed out mean.
use crate::error::{Error, ErrorModel};
use crate::il2cpp::base::Il2Cpp;
use crate::il2cpp::field_layout::FieldLayoutInfo;
use crate::output::cpp_scaffolding::ProjectFile;
use crate::output::func_entries::FuncEntry;
use crate::output::script_json;
use crate::output::script_json::{
    ScriptFieldInfo, ScriptJson, ScriptMetadata, ScriptMetadataMethod, ScriptMethod, ScriptString,
    ScriptTypeInfo, StringLiteralEntry,
};
use crate::output::static_field_exporter::{StaticFieldEntry, StaticFieldSummary};
use crate::output::struct_generator::OutputFile;
use crate::output::struct_info::{StructFieldInfo, StructInfo, StructRGCTXInfo};
use vstd::prelude::*;
use vstd::string::*;

verus! {

/// A text that may be missing is there if and only if its meaning is, and then is the same.
pub open spec fn same_text(a: Option<String>, b: Option<Seq<char>>) -> bool {
    match (a, b) {
        (Some(s), Some(t)) => s@ == t,
        (None, None) => true,
        _ => false,
    }
}

/// Bytes that may be missing are there if and only if their meaning is, and then are the same.
pub open spec fn same_bytes(a: Option<Vec<u8>>, b: Option<Seq<u8>>) -> bool {
    match (a, b) {
        (Some(s), Some(t)) => s@ == t,
        (None, None) => true,
        _ => false,
    }
}

/// An entry of a method means its address and its texts.
pub proof fn law_method_view(x: ScriptMethod)
    ensures
        x@.address == x.address,
        x@.name == x.name@,
        x@.signature == x.signature@,
        x@.type_signature == x.type_signature@,
        same_text(x.dotnet_signature, x@.dotnet_signature),
        same_text(x.group, x@.group),
{
}

/// An entry of a string means its address and its texts.
pub proof fn law_string_view(x: ScriptString)
    ensures
        x@.address == x.address,
        x@.value == x.value@,
        same_text(x.name, x@.name),
{
}

/// An entry of a type or a field means its address and its texts.
pub proof fn law_metadata_view(x: ScriptMetadata)
    ensures
        x@.address == x.address,
        x@.name == x.name@,
        same_text(x.signature, x@.signature),
{
}

/// An entry of a reference to a method means its addresses and its name.
pub proof fn law_metadata_method_view(x: ScriptMetadataMethod)
    ensures
        x@.address == x.address,
        x@.name == x.name@,
        x@.method_address == x.method_address,
{
}

/// An entry of type information means its address and its texts.
pub proof fn law_type_info_view(x: ScriptTypeInfo)
    ensures
        x@.address == x.address,
        x@.name == x.name@,
        x@.type_str == x.type_str@,
        same_text(x.dotnet_type, x@.dotnet_type),
{
}

/// An entry of a field means its address and its texts.
pub proof fn law_field_info_view(x: ScriptFieldInfo)
    ensures
        x@.address == x.address,
        x@.name == x.name@,
        x@.value == x.value@,
{
}

/// An entry of a literal means its number and its text.
pub proof fn law_literal_view(x: StringLiteralEntry)
    ensures
        x@.index == x.index,
        x@.value == x.value@,
{
}

/// A function means its addresses and its texts.
pub proof fn law_function_view(x: FuncEntry)
    ensures
        x@.rva == x.rva,
        x@.return_type == x.return_type@,
        x@.func_name == x.func_name@,
        x@.params == x.params@,
        x@.method_info_rva == x.method_info_rva,
{
}

/// A file of a project means its path, its text, and whether it is written anew.
pub proof fn law_project_file_view(x: ProjectFile)
    ensures
        x@.path == x.path@,
        x@.text == x.text@,
        x@.replace == x.replace,
{
}

/// A file means its name and its text.
pub proof fn law_output_file_view(x: OutputFile)
    ensures
        x@.name == x.name@,
        x@.text == x.text@,
{
}

/// A field of a structure means its type, its name, and what its type is.
pub proof fn law_structure_field_view(x: StructFieldInfo)
    ensures
        x@.field_type_name == x.field_type_name@,
        x@.field_name == x.field_name@,
        x@.is_value_type == x.is_value_type,
        x@.is_custom_type == x.is_custom_type,
{
}

/// An entry of a context means its kind and its labels.
pub proof fn law_context_view(x: StructRGCTXInfo)
    ensures
        x@.rgctx_type == x.rgctx_type,
        same_text(x.type_label, x@.type_label),
        same_text(x.class_label, x@.class_label),
        same_text(x.method_label, x@.method_label),
{
}

/// A structure means its name, its parent, its fields, its virtual methods and its context, each
/// list in order.
pub proof fn law_structure_view(x: StructInfo)
    ensures
        x@.name == x.name@,
        x@.is_value_type == x.is_value_type,
        same_text(x.parent, x@.parent),
        x@.fields == script_json::views(x.fields@),
        x@.static_fields == script_json::views(x.static_fields@),
        x@.rgctxs == script_json::views(x.rgctxs@),
        x@.vtable_methods.len() == x.vtable_methods@.len(),
        forall|i: int|
            0 <= i < x.vtable_methods@.len() ==> same_text(
                x.vtable_methods@[i],
                #[trigger] x@.vtable_methods[i],
            ),
{
}

/// A script means its lists, each in order.
pub proof fn law_script_view(x: ScriptJson)
    ensures
        x@.script_methods == script_json::views(x.script_methods@),
        x@.script_strings == script_json::views(x.script_strings@),
        x@.script_metadata == script_json::views(x.script_metadata@),
        x@.script_metadata_methods == script_json::views(x.script_metadata_methods@),
        x@.type_info_pointers == script_json::views(x.type_info_pointers@),
        x@.type_ref_pointers == script_json::views(x.type_ref_pointers@),
        x@.field_infos == script_json::views(x.field_infos@),
        x@.field_rvas == script_json::views(x.field_rvas@),
        x@.addresses == x.addresses@,
{
}

/// A list means the meanings of its items in order.
pub proof fn law_views<T: View>(v: Seq<T>)
    ensures
        script_json::views(v).len() == v.len(),
        forall|i: int| 0 <= i < v.len() ==> #[trigger] script_json::views(v)[i] == v[i]@,
{
}

/// A layout means its numbers and its bytes.
pub proof fn law_layout_view(x: FieldLayoutInfo)
    ensures
        x@.kind == x.kind,
        x@.raw_offset == x.raw_offset,
        x@.effective_offset == x.effective_offset,
        x@.is_thread_static == x.is_thread_static,
        x@.has_field_rva == x.has_field_rva,
        x@.thread_static_fields_size == x.thread_static_fields_size,
        x@.static_fields_size == x.static_fields_size,
        x@.default_value_metadata_offset == x.default_value_metadata_offset,
        x@.rva_data_size == x.rva_data_size,
        same_bytes(x.metadata_bytes, x@.metadata_bytes),
        x@.binary_va == x.binary_va,
        x@.binary_rva == x.binary_rva,
        same_bytes(x.binary_bytes, x@.binary_bytes),
{
}

/// An entry of a report means its numbers and its texts.
pub proof fn law_entry_view(x: StaticFieldEntry)
    ensures
        x@.declaring_type == x.declaring_type@,
        x@.field_name == x.field_name@,
        x@.field_path == x.field_path@,
        x@.kind == x.kind@,
        x@.token == x.token,
        x@.raw_offset == x.raw_offset,
        x@.effective_offset == x.effective_offset,
        x@.is_thread_static == x.is_thread_static,
        x@.has_field_rva == x.has_field_rva,
        x@.thread_static_block_size == x.thread_static_block_size,
        x@.static_block_size == x.static_block_size,
        x@.metadata_offset == x.metadata_offset,
        x@.metadata_rva == x.metadata_rva,
        x@.binary_va == x.binary_va,
        x@.binary_rva == x.binary_rva,
        x@.data_size == x.data_size,
        x@.hex == x.hex@,
        same_text(x.base64, x@.base64),
        same_text(x.ascii_preview, x@.ascii_preview),
        same_text(x.hex_dump, x@.hex_dump),
{
}

/// A summary means its counts and its names in order.
pub proof fn law_summary_view(x: StaticFieldSummary)
    ensures
        x@.total_fields_scanned == x.total_fields_scanned,
        x@.thread_static_count == x.thread_static_count,
        x@.field_rva_count == x.field_rva_count,
        x@.normal_static_count == x.normal_static_count,
        x@.types_with_thread_static_block == x.types_with_thread_static_block,
        x@.private_implementation_details_types.len()
            == x.private_implementation_details_types@.len(),
        forall|i: int|
            0 <= i < x.private_implementation_details_types@.len()
                ==> #[trigger] x@.private_implementation_details_types[i]
                == x.private_implementation_details_types@[i]@,
{
}

/// An error means its sort with its message, place or number.
pub proof fn law_error_view(x: Error)
    ensures
        x matches Error::InvalidMetadata(s) ==> x@ == ErrorModel::InvalidMetadata(s@),
        x matches Error::UnsupportedVersion(v) ==> x@ == ErrorModel::UnsupportedVersion(v as int),
        x matches Error::AddressNotMapped(a) ==> x@ == ErrorModel::AddressNotMapped(a as nat),
        x matches Error::InvalidFormat(s) ==> x@ == ErrorModel::InvalidFormat(s@),
        x matches Error::OutOfBounds { offset, size } ==> x@ == (ErrorModel::OutOfBounds {
            offset: offset as nat,
            size: size as nat,
        }),
        x matches Error::InvalidArraySize { count, elem_size, context } ==> x@ == (
        ErrorModel::InvalidArraySize {
            count: count as nat,
            elem_size: elem_size as nat,
            context: context@,
        }),
        x matches Error::Io(e) ==> x@ == (ErrorModel::Io {
            unexpected_eof: e.unexpected_eof,
            message: e.message@,
        }),
        x matches Error::CyclicDependency(s) ==> x@ == ErrorModel::CyclicDependency(s@),
        x matches Error::Other(s) ==> x@ == ErrorModel::Other(s@),
{
}

/// An image means its file, its format, its tables, its lookups and its places in memory.
pub proof fn law_image_view(x: Il2Cpp)
    ensures
        x@.bytes == x.stream.bytes@,
        x@.stream_version == x.stream.version,
        x@.stream_is_32bit == x.stream.is_32bit,
        x@.stream_image_base == x.stream.image_base,
        x@.max_array_elems == x.stream.max_array_elems,
        x@.version == x.version,
        x@.is_32bit == x.is_32bit,
        x@.types == x.types@,
        x@.type_dic == x.type_dic@,
        x@.method_pointers == x.method_pointers@,
        x@.generic_method_pointers == x.generic_method_pointers@,
        x@.invoker_pointers == x.invoker_pointers@,
        x@.metadata_usages == x.metadata_usages@,
        x@.custom_attribute_generators == x.custom_attribute_generators@,
        x@.generic_insts == x.generic_insts@,
        x@.generic_inst_pointers == x.generic_inst_pointers@,
        x@.method_specs == x.method_specs@,
        x@.generic_method_table == x.generic_method_table@,
        x@.code_gen_modules == x.code_gen_modules@,
        x@.method_spec_generic_method_pointers == x.method_spec_generic_method_pointers@,
        x@.code_registration == x.code_registration,
        x@.metadata_registration == x.metadata_registration,
        x@.is_dumped == x.is_dumped,
        x@.image_base == x.image_base,
        x@.field_offset_pointers == x.field_offset_pointers@,
        x@.field_offsets_are_pointers == x.field_offsets_are_pointers,
        x@.va_segments == x.va_segments@,
        x@.data_sections == x.data_sections@,
        x@.is_pe == x.is_pe,
        x@.codm == x.codm,
        x@.type_definition_sizes == x.type_definition_sizes@,
        x@.field_offsets.len() == x.field_offsets@.len(),
        forall|i: int|
            0 <= i < x.field_offsets@.len() ==> #[trigger] x@.field_offsets[i]
                == x.field_offsets@[i]@,
        forall|k: usize| #[trigger]
            x@.method_definition_method_specs.contains_key(k)
                <==> x.method_definition_method_specs@.contains_key(k),
        forall|k: usize| #[trigger]
            x@.method_definition_method_specs.contains_key(k)
                ==> x@.method_definition_method_specs[k] == x.method_definition_method_specs@[k]@,
        forall|k: Seq<char>| #[trigger]
            x@.code_gen_module_method_pointers.contains_key(k)
                <==> x.code_gen_module_method_pointers@.contains_key(k),
        forall|k: Seq<char>| #[trigger]
            x@.code_gen_module_method_pointers.contains_key(k)
                ==> x@.code_gen_module_method_pointers[k]
                == x.code_gen_module_method_pointers@[k]@,
{
}

} // verus!
