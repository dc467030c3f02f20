//! Detection of the interactive shell that launched the current process.
//!
//! The detector walks the process-parent chain through per-process status
//! text, matches each ancestor's command name against a fixed catalog of
//! known shells, and, on a match, extracts a version number from the shell's
//! self-reported output.  All reading and spawning is injected through
//! callbacks, so the traversal and matching logic is pure and fully
//! specified.

pub mod caps;
pub mod catalog;
pub mod detect;
pub mod errors;
pub mod laws;
pub mod parse;
pub mod probe;
pub mod strutil;

pub use caps::ReadMap;
pub use caps::RunMap;
pub use catalog::Descriptor;
pub use catalog::classify;
pub use catalog::shell_from_pid_with;
pub use catalog::supported_shells;
pub use detect::HOP_CEILING;
pub use detect::Shell;
pub use errors::ErrKind;
pub use errors::Failure;
pub use errors::FailureModel;
pub use parse::ppid_from_path_with;
pub use parse::ppid_from_text;
pub use probe::shell_version_with;
