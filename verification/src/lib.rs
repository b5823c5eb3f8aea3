//! Archive handling, background-task planning and file utilities for a small
//! file manager, written so that every decision is made by verified code.
//!
//! The library never touches the file system, spawns a process or starts a
//! thread itself. Each long operation is a small state machine: it hands its
//! host an [`host::Action`] to perform and is told the outcome as an
//! [`host::Event`].

pub mod archive;
pub mod batch;
pub mod builtin;
pub mod chunks;
pub mod digest;
pub mod duplicates;
pub mod errors;
pub mod format;
pub mod host;
pub mod listing;
pub mod orchestrator;
pub mod packing;
pub mod paths;
pub mod runner;
pub mod secure;
pub mod tar_codec;
pub mod task;
pub mod text;
pub mod tool;
pub mod zip_codec;
