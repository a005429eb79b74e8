//! The parsing and bookkeeping of the collectors; the system calls, child processes
//! and threads that feed them belong to the event loop.
pub mod macos;
pub mod processes;
pub mod runtime;
pub mod system;
pub mod traffic;
