//! Build-log capture, rotation, and sanitization for a React Native
//! build/run command-line tool.
//!
//! The crate's core is the log subsystem: a store that allocates
//! timestamped log files and enforces a bounded retention policy, a
//! session that frames what one build run writes to its log file, and a
//! sanitizer that strips terminal control sequences and collapses
//! repeated progress-spinner lines from captured output. Around that
//! core sit the pure parts of the tool's command construction,
//! environment diagnostics, and version handling. All filesystem,
//! console, and process work stays outside this crate; every function
//! here computes from plain values and carries a proved contract.

pub mod args;
pub mod checks;
pub mod commands;
pub mod devices;
pub mod output;
pub mod package;
pub mod retention;
pub mod sanitize;
pub mod session;
pub mod store;
pub mod text;
pub mod time;
pub mod version;
