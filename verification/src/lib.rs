//! Building blocks for running a command on a remote host through `ssh`.
//!
//! [`Address`] is a `host[:port]` endpoint that can be read from text and
//! written back in its canonical form. [`SshParams`] holds an address
//! together with the identity, the user and the host-key policy of a
//! connection, and [`SshParams::command`] lays out the argument vector of
//! the `ssh` client for them, token by token.
//!
//! Nothing here spawns a process or touches the file system: every
//! function computes a value from its arguments, and its contract says
//! which one.

pub mod address;
pub mod decimal;
pub mod ssh;

pub use address::{Address, AddressError, AddressVisitor, Endpoint, DEFAULT_SSH_PORT};
pub use ssh::{SshParams, SshParamsView, SshTarget};
