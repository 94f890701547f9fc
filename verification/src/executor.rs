//! The names of types and methods, and what generic types stand for.
use crate::il2cpp::structures::{Il2CppGenericContext, Il2CppRGCTXDefinition};
use std::collections::HashMap;
use vstd::prelude::*;

verus! {

/// The names of types and methods, and what generic types stand for.
pub struct Il2CppExecutor {
    /// The full name of each type definition.
    pub type_def_names: Vec<String>,
    /// The name of each type with its namespace.
    pub type_names: Vec<String>,
    /// The name of each type without its namespace.
    pub short_type_names: Vec<String>,
    /// The names of the type and the method of each method of an instance.
    pub method_spec_names: Vec<(String, String)>,
    /// The generic context of each method of an instance.
    pub method_spec_contexts: Vec<Il2CppGenericContext>,
    /// The type definition behind each generic class, by the address of the class.
    pub generic_class_defs: HashMap<u64, usize>,
    pub custom_attribute_generators: Vec<u64>,
    /// The runtime generic context of each type definition that has one.
    pub type_rgctxs: HashMap<usize, Vec<Il2CppRGCTXDefinition>>,
    /// The runtime generic context of each method definition that has one.
    pub method_rgctxs: HashMap<usize, Vec<Il2CppRGCTXDefinition>>,
}

} // verus!
