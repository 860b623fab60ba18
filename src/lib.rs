//! Supervision of a companion ("sidecar") process: line framing of its output,
//! an ordered event stream ending in exactly one termination event, the
//! decisions of a graceful-then-forced shutdown, and the desktop commands
//! that sit around it.

pub mod lines;
pub mod events;
pub mod terminate;
pub mod launch;
pub mod commands;
pub mod forward;
