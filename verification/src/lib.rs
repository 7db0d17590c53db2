//! External process controller for AArch64 Linux.
//!
//! The crate manipulates running processes from the outside: it attaches to a
//! target through the kernel debugging interface, drives its program counter
//! through injected system calls, rewrites its memory map, and composes those
//! primitives into higher-level operations (redirecting stdio, replacing the
//! image, re-executing, checkpointing and restoring a process image, and
//! transmitting an image to a peer).
//!
//! Everything that computes — map-record parsing, register-bank arithmetic,
//! the syscall-injection protocol, snapshot invariants — is verified.  The
//! kernel itself is reached through a small set of trusted wrappers over the
//! `nix` crate, and through a driver protocol for the two register-set
//! transfers that need a processor-specific buffer handoff.

pub mod bank;
pub mod controller;
pub mod errors;
pub mod exchange;
pub mod httpapi;
pub mod maps;
pub mod msgs;
pub mod ops;
pub mod plans;
pub mod procinfo;
pub mod snapshot;
pub mod teleserver;
pub mod terminals;
