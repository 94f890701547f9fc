//! What holds of the library as a whole.
pub mod addresses;
pub mod checks;
pub mod functions;
pub mod header;
pub mod image;
pub mod layout;
pub mod mangling;
pub mod project;
pub mod report;
pub mod script;
pub mod signatures;
pub mod structure_text;
pub mod structures;
pub mod texts;
pub mod usages;
pub mod values;
pub mod views;
pub mod words;
