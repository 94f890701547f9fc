pub mod bytes;
pub mod c_types;
pub mod cpp_scaffolding;
pub mod func_entries;
pub mod header;
pub mod method_info;
pub mod name_mangler;
pub mod script;
pub mod script_json;
pub mod signature;
pub mod static_field_exporter;
pub mod struct_generator;
pub mod struct_info;
pub mod struct_names;
pub mod struct_text;
pub mod templates;
pub mod type_checks;
pub mod type_groups;
pub mod usages;
