//! Unwrapping archives and encoded blobs: telling how content is wrapped, taking one layer
//! off, looking at what came out, and giving each input a directory of its own.
//!
//! - [`format`] tells the wrapping format of content from its first bytes.
//! - [`codec`] takes one layer off in memory: gzip, bzip2 and xz streams, and Base64 text.
//! - [`extract`] turns a zip archive into the directories and files to create, none of them
//!   outside the destination.
//! - [`allocator`] finds a directory name that is not taken, counting up at the end of the
//!   name: `photos`, `photos_(1)`, `photos_(2)`.
//! - [`driver`] decides, action by action, what is done with one item. It reads and writes
//!   nothing itself; the caller carries the actions out and reports back.
//!
//! The modules [`candidate`], [`decimal`], [`offsets`], [`path`], [`text`] and [`token`] hold
//! what those are built from.

pub mod allocator;
pub mod candidate;
pub mod codec;
pub mod decimal;
pub mod driver;
pub mod error;
pub mod extract;
pub mod format;
pub mod offsets;
pub mod path;
pub mod text;
pub mod token;
