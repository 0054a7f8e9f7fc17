pub mod binary64;
pub mod call_laws;
pub mod cli;
pub mod collect;
pub mod config;
pub mod hooks;
pub mod limits;
pub mod model;
pub mod number_laws;
pub mod program;
pub mod program_laws;
pub mod render;
pub mod settings_laws;
pub mod strings;
pub mod strings_laws;
