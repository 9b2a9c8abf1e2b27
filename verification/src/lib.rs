//! A virtual storage adapter that lets an embedded, page-oriented SQL engine
//! persist its database through a host-provided, page-indexed store instead of
//! a local filesystem.
//!
//! The library is organised around three verified pieces:
//! - a page store and the translation of byte offsets onto whole-page
//!   operations ([`pages`]),
//! - an advisory locking state machine shared by all handles open against the
//!   same logical database ([`lock`]),
//! - the per-connection handle and the entry points the engine calls
//!   ([`vfs`]), and the boundary bridge that carries queries and results
//!   across the host/guest call boundary ([`bridge`]).

pub mod bridge;
pub mod lock;
pub mod pages;
pub mod vfs;
