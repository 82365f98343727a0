//! A WebDAV view of an NFS-style file tree.
//!
//! The library decides and performs no input or output itself. An operation on a path is a run:
//! it asks the file tree one thing at a time and is resumed with the reply, until it is done.
//! Whoever drives it carries the requests to the file tree and the replies back.

pub mod args;
pub mod attr;
pub mod buffer;
pub mod change;
pub mod contents;
pub mod copy;
pub mod error;
pub mod file;
pub mod fs;
pub mod inspect;
pub mod listing;
pub mod open;
pub mod path;
pub mod rename;
pub mod resolve;
pub mod run;
pub mod text;
