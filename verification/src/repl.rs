//! The interactive session: its state, the commands a user can give, and what
//! each of them sends, waits for and shows.

pub mod code_preview;
pub mod continue_to_command;
pub mod evaluate_command;
pub mod handle_pause_or_destroy_message;
pub mod plan;
pub mod repl_state;
pub mod show_source_code_command;
pub mod start_repl;
