//! Command-language front end for an interactive habit tracker.
//!
//! Two independent, pure components: a command parser that turns one line of
//! user input into a structured command value or a descriptive error, and a
//! completion engine that suggests at most one replacement string for a
//! partially typed line, given ordered candidate lists.

pub mod command;
pub mod complete;
pub mod numbers;
pub mod text;

pub use command::parse_add;
pub use command::Command;
pub use command::CommandLineError;
pub use complete::command_list;
pub use complete::complete;
pub use complete::get_command_completion;
pub use complete::get_habit_completion;
pub use numbers::dec_str;
pub use numbers::parse_u32_str;
pub use text::split_str;
pub use text::trim_str;
