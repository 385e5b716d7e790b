//! Deployment of plugins to a console on the local network, and live
//! retrieval of its diagnostic output.
//!
//! The library decides and never acts. Each command is a machine: it says what
//! is to be done next (store an address, open a connection, send a line, copy a
//! file), is told how that went, and says what follows, until it finishes with
//! the lines to show or with a failure. Whoever drives it owns the sockets and
//! the files.
//!
//! - `address`: what a well-formed address is, and the store of the last one.
//! - `identity`: the application's identity, and the paths on the device.
//! - `reply`, `bytes`, `text`: what the file service says, read from bytes.
//! - `transfer`: one session with the file service.
//! - `installer`: the steps of an installation or a listing.
//! - `listener`: the diagnostic output, followed live.
//! - `deploy`: the commands, from the resolution of the target to the end.
//! - `error`: the failures, and the line that reports each.
//! - `update`: the upgrade of the tool itself.

pub mod address;
pub mod bytes;
pub mod deploy;
pub mod error;
pub mod identity;
pub mod installer;
pub mod listener;
pub mod reply;
pub mod text;
pub mod transfer;
pub mod update;
