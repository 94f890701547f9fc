//! What is dumped, and how.
use vstd::prelude::*;

verus! {

/// What is dumped, and how.
#[derive(Debug)]
pub struct Config {
    pub mangle_names: bool,
    pub enhanced_ida_metadata: bool,
    pub dump_field_rva_data: bool,
    pub dump_static_field_metadata: bool,
    pub max_field_rva_dump_bytes: usize,
    pub use_topological_sort: bool,
    pub compiler_layout: String,
    pub generate_cpp_scaffold: bool,
    pub generate_unity_headers: bool,
}

} // verus!
