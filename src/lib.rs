//! Live authoring of dataflow-processing projects: an entity registry with
//! validation rules, three source generators, and a command dispatcher that
//! drives them and reports the file-system work to perform.

pub mod text;
pub mod naming;
pub mod strmap;
pub mod processor_coder;
pub mod lib_coder;
pub mod main_coder;
pub mod registry;
pub mod parser;
pub mod tmpfile;
pub mod laws;
pub mod cargo_interface;
pub mod server;
