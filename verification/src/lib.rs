//! The "create file" command of a gateway to a network-backed virtual file
//! system: who may run it, how its path is read, how the directory of the
//! file is found, and in which order the steps are taken and may fail.
//!
//! - [`gate`]: authorization for the shared directory tree.
//! - [`path`]: splitting a logical path into directory segments and a file
//!   name.
//! - [`resolver`]: the walk from a root along the directory segments.
//! - [`metadata`]: decoding of the file's metadata.
//! - [`action`]: the command and its execution, step by step.
//! - [`error`]: the failures of a command.

pub mod action;
pub mod error;
pub mod gate;
pub mod metadata;
pub mod path;
pub mod resolver;
