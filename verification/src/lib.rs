//! A small C runtime for Linux: the parts of it that decide and compute,
//! each with a contract that Verus proves.
//!
//! The system calls themselves, and everything that touches raw memory or
//! process state, are performed by the caller; the functions here take what
//! the kernel answered and decide what follows.
pub mod auxv;
pub mod common;
pub mod env;
pub mod errno;
pub mod fd;
pub mod ffi;
pub mod file;
pub mod io;
pub mod linux;
pub mod memory;
pub mod panicking;
pub mod signal;
pub mod stdio;
pub mod thread;
