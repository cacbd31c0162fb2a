//! Verified core of a small shell-command generation client.
//!
//! The library holds the logic that is worth proving: selecting the system
//! instruction by override precedence, classifying the runtime environment,
//! recognising the "cannot answer" sentinel, normalising the reasoning
//! payload, serialising requests and history records as JSON, and the
//! decisions of the interactive loop. All I/O (HTTP, terminal, files) lives
//! in the surrounding application, which exchanges plain values with this
//! crate.

pub mod chars;
pub mod convo;
pub mod history;
pub mod instruction;
pub mod json;
pub mod reasoning;
pub mod sentinel;
