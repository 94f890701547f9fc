pub mod config;
pub mod error;
pub mod executor;
pub mod il2cpp;
pub mod io;
pub mod laws;
pub mod names;
pub mod numeral;
pub mod output;
pub mod sorted;
pub mod text;
