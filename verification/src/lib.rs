//! The decision core of a Windows Event Log reader.
//!
//! The crate holds what a reader of the Windows Event Log decides and
//! computes: how a failing channel is retried and where it resumes, what an
//! error code means at each call site, which events are delivered, what is
//! written to the checkpoint and status files, how display names are cached,
//! and how the hosting service is started and stopped. System calls are left
//! to the caller, which hands in plain values and carries out the actions that
//! come back.

pub mod atomic_file;
pub mod cache;
pub mod channel;
pub mod checkpoint;
pub mod config;
pub mod delivery;
pub mod error;
pub mod format_cache;
pub mod laws;
pub mod metadata;
pub mod query;
pub mod recovery;
pub mod rendering_info;
pub mod schema;
pub mod service;
pub mod shared_cache;
pub mod sid_resolver;
pub mod source;
pub mod status;
pub mod subscription;
pub mod table;
pub mod text;
pub mod time;
pub mod win32_errors;
