//! The records of an image and of its metadata, as the values that the dumper reads of them.
use crate::error::Error;
use crate::il2cpp::enums::Il2CppTypeEnum;
use vstd::prelude::*;
use vstd::string::*;

verus! {

/// A type reference.
#[derive(Debug, Clone, Copy, PartialEq, Eq, Structural)]
pub struct Il2CppType {
    /// The data word; an index into the types for pointers and arrays.
    pub datapoint: u64,
    /// The type definition that the data word stands for.
    pub klass_index: usize,
    /// The address of the generic class that the data word stands for.
    pub generic_class: u64,
    /// The position of the generic parameter that the data word stands for, if it can be found.
    pub generic_param_num: Option<u32>,
    pub attrs: u32,
    pub type_enum: u8,
    pub byref: u8,
}

impl Il2CppType {
    /// The type that stands for a reference that could not be read.
    pub open spec fn blank() -> Il2CppType {
        Il2CppType {
            datapoint: 0,
            klass_index: 0,
            generic_class: 0,
            generic_param_num: None,
            attrs: 0,
            type_enum: 0,
            byref: 0,
        }
    }

    /// The element type of the reference.
    pub open spec fn element(self) -> Option<Il2CppTypeEnum> {
        crate::il2cpp::enums::element_type(self.type_enum)
    }

    /// The element type of the reference.
    pub fn element_type(&self) -> (r: Option<Il2CppTypeEnum>)
        ensures
            r == self.element(),
    {
        Il2CppTypeEnum::from_u8(self.type_enum)
    }
}

impl Default for Il2CppType {
    fn default() -> (r: Self)
        ensures
            r == Il2CppType::blank(),
    {
        Il2CppType {
            datapoint: 0,
            klass_index: 0,
            generic_class: 0,
            generic_param_num: None,
            attrs: 0,
            type_enum: 0,
            byref: 0,
        }
    }
}

/// The arguments of a generic instance: how many, and where their addresses stand.
#[derive(Debug, Clone, Copy, PartialEq, Eq, Structural)]
pub struct Il2CppGenericInst {
    pub type_argc: u64,
    pub type_argv: u64,
}

/// The instances that give the class and the method of a generic method their arguments.
#[derive(Debug, Clone, Copy, PartialEq, Eq, Structural)]
pub struct Il2CppGenericContext {
    pub class_inst: u64,
    pub method_inst: u64,
}

/// A generic class with its arguments.
#[derive(Debug, Clone, Copy, PartialEq, Eq, Structural)]
pub struct Il2CppGenericClass {
    pub type_definition_index: u64,
    pub type_ptr: u64,
    pub context: Il2CppGenericContext,
    pub cached_class: u64,
}

/// A method of a generic instance.
#[derive(Debug, Clone, Copy, PartialEq, Eq, Structural)]
pub struct Il2CppMethodSpec {
    pub method_definition_index: usize,
}

/// An entry of the table of generic methods: its method of an instance, and its pointer.
#[derive(Debug, Clone, Copy, PartialEq, Eq, Structural)]
pub struct Il2CppGenericMethodFunctionsDefinitions {
    pub generic_method_index: usize,
    pub method_index: usize,
}

/// The sizes of a type definition.
#[derive(Debug, Clone, Copy, PartialEq, Eq, Structural)]
pub struct Il2CppTypeDefinitionSizes {
    pub instance_size: u32,
    pub native_size: i32,
    pub static_fields_size: u32,
    pub thread_static_fields_size: u32,
}

/// The number of bytes that the sizes of a type definition take.
pub const TYPE_DEFINITION_SIZES_LEN: usize = 16;

/// A code module: the address of its name, and its method pointers.
#[derive(Debug, Clone, Copy, PartialEq, Eq, Structural)]
pub struct Il2CppCodeGenModule {
    pub module_name: u64,
    pub method_pointer_count: u64,
    pub method_pointers: u64,
}

/// The code registration: the tables of code pointers.
#[derive(Debug, Clone, Copy, PartialEq, Eq, Structural)]
pub struct Il2CppCodeRegistration {
    pub method_pointers_count: u64,
    pub method_pointers: u64,
    pub generic_method_pointers_count: u64,
    pub generic_method_pointers: u64,
    pub invoker_pointers_count: u64,
    pub invoker_pointers: u64,
    pub custom_attribute_count: u64,
    pub custom_attribute_generators: u64,
    pub reverse_pinvoke_wrapper_count: u64,
    pub interop_data_count: u64,
    pub code_gen_modules_count: u64,
    pub code_gen_modules: u64,
}

/// The metadata registration: the tables that metadata indices refer to.
#[derive(Debug, Clone, Copy, PartialEq, Eq, Structural)]
pub struct Il2CppMetadataRegistration {
    pub generic_insts_count: u64,
    pub generic_insts: u64,
    pub generic_method_table_count: u64,
    pub generic_method_table: u64,
    pub types_count: u64,
    pub types: u64,
    pub method_specs_count: u64,
    pub method_specs: u64,
    pub field_offsets_count: u64,
    pub field_offsets: u64,
    pub type_definitions_sizes_count: u64,
    pub type_definitions_sizes: u64,
    pub metadata_usages_count: u64,
    pub metadata_usages: u64,
}

/// An entry of a runtime generic context.
#[derive(Debug, Clone, Copy, PartialEq, Eq, Structural)]
pub struct Il2CppRGCTXDefinition {
    pub rgctx_type: i64,
    /// The index that the entry holds in its data record.
    pub def_data: Option<i32>,
    /// The index that the entry holds as a constrained type.
    pub constrained_data: Option<i32>,
    /// The address of the index.
    pub data_va: u64,
    /// The index of the entry, or -1.
    pub type_index: i32,
}

/// A name, or why it could not be read.
pub type NameResult = Result<String, Error>;

/// The text of a name, or `fallback` where it could not be read.
pub open spec fn name_or(name: NameResult, fallback: Seq<char>) -> Seq<char> {
    match name {
        Ok(s) => s@,
        Err(_) => fallback,
    }
}

/// The text of a name, or `fallback` where it could not be read.
pub fn name_text(name: &NameResult, fallback: &str) -> (r: String)
    ensures
        r@ == name_or(*name, fallback@),
{
    match name {
        Ok(s) => s.clone(),
        Err(_) => fallback.to_owned(),
    }
}

/// An image of the metadata: its name and the type definitions that it holds.
#[derive(Debug)]
pub struct Il2CppImageDefinition {
    pub name: NameResult,
    pub type_start: usize,
    pub type_count: usize,
}

/// A type definition.
#[derive(Debug)]
pub struct Il2CppTypeDefinition {
    pub name_index: i32,
    pub namespace_index: i32,
    pub name: NameResult,
    pub namespace: NameResult,
    pub is_value_type: bool,
    pub is_enum: bool,
    pub byval_type_index: usize,
    pub element_type_index: usize,
    pub declaring_type_index: i32,
    pub parent_index: i32,
    pub field_start: usize,
    pub field_count: usize,
    pub method_start: usize,
    pub method_count: usize,
    pub vtable_start: usize,
    pub vtable_count: usize,
}

/// A method definition.
#[derive(Debug)]
pub struct Il2CppMethodDefinition {
    pub name: NameResult,
    pub declaring_type: usize,
    pub return_type: usize,
    pub parameter_start: usize,
    pub parameter_count: usize,
    pub generic_container_index: i32,
    pub method_index: usize,
    pub token: u32,
    pub flags: u32,
    pub slot: u16,
}

/// A parameter of a method definition.
#[derive(Debug)]
pub struct Il2CppParameterDefinition {
    pub name: NameResult,
    pub type_index: usize,
}

/// A field definition.
#[derive(Debug)]
pub struct Il2CppFieldDefinition {
    pub name: NameResult,
    pub type_index: usize,
    pub token: u32,
}

/// A reference to a field of a type.
#[derive(Debug, Clone, Copy, PartialEq, Eq, Structural)]
pub struct Il2CppFieldRef {
    pub type_index: usize,
    pub field_index: usize,
}

/// The default value of a field: its data index, and where its data stands in the metadata.
#[derive(Debug, Clone, Copy, PartialEq, Eq, Structural)]
pub struct Il2CppFieldDefaultValue {
    pub data_index: i32,
    pub offset: u64,
}

} // verus!
