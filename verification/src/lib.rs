//! A bidirectional shell-command syntax translator.
//!
//! Given a single command line written for a POSIX-style shell, the
//! [`shell::powershell`] module produces a syntactically equivalent command
//! line for a PowerShell-style shell, and a separate pass translates in the
//! other direction.  The [`shell::bash`] module holds the tokenizer and the
//! variable-reference extractor, and [`shell::command_map`] the static
//! command and operator tables.  [`style`] offers small helpers that wrap a
//! string in terminal colour codes.
//!
//! Every function is total over valid UTF-8 input: malformed quoting
//! degrades gracefully, and no function here panics or returns an error.

pub mod shell;
pub mod style;
