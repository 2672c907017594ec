//! A bridge to the inspector protocol of a script engine: frames are classified
//! and correlated with the commands that asked for them, the run state of the
//! debuggee is tracked, and positions in generated code are mapped back to the
//! sources they came from.

pub mod cdt;
pub mod code_preview;
pub mod http_client;
pub mod json;
pub mod repl;
pub mod source_code;
pub mod source_map;
pub mod text;
