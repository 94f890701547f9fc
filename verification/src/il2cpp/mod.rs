pub mod base;
pub mod code;
pub mod enums;
pub mod field_layout;
pub mod init;
pub mod metadata;
pub mod records;
pub mod structures;
