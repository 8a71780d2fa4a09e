//! A text-based group chat relay core: the participant directory, the
//! fan-out broadcast bus with bounded per-subscriber backlogs, and the
//! per-connection session state machine. Transport I/O lives outside.

pub mod bus;
pub mod directory;
pub mod message;
pub mod server;
pub mod session;
pub mod text;
