//! Client-side core of a segment-based distributed filesystem.
//!
//! File data is staged in append-only segments on local disk; the handle
//! table maps each open inode to the segments that hold its blocks, and the
//! metadata service keeps the segment lists between a close and the next
//! open.
//!
//! - [`errno`], [`types`], [`file_handle`]: the data model.
//! - [`handle_mgr`], [`handle_msg`]: the table of open handles, and the
//!   messages that reach it through a channel.
//! - [`io_pool`], [`disk_io`]: which worker serves a segment, and what a
//!   worker answers to a write or a read.
//! - [`segment_mgr`], [`ids`], [`text`]: new segments, their names and
//!   their place on disk.
//! - [`http_client`], [`mgr`], [`mgr_impl`], [`meta_types`], [`s3_client`]:
//!   what the clients of the metadata service and of the object store ask
//!   for, and what they take an answer to mean.
//! - [`leader`], [`leader_local`], [`read_plan`]: the leader, which
//!   composes the above into open, read, write and close.
//! - [`filesystem_mgr`]: what a mount needs.
//! - [`model`]: the leader together with the disk and the metadata
//!   service, and the laws that hold of whole operations.

pub mod disk_io;
pub mod errno;
pub mod file_handle;
pub mod filesystem_mgr;
pub mod handle_mgr;
pub mod handle_msg;
pub mod http_client;
pub mod ids;
pub mod io_pool;
pub mod leader;
pub mod leader_local;
pub mod meta_types;
pub mod mgr;
pub mod mgr_impl;
pub mod model;
pub mod read_plan;
pub mod s3_client;
pub mod segment_mgr;
pub mod text;
pub mod types;
