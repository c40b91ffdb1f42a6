//! A read-only access layer over a CASC-style content archive: a sparse,
//! indexed collection of named entries whose bytes are reached by logical
//! name rather than physical offset.
//!
//! The archive format's own read path (index decoding, decompression) is the
//! business of an opaque native engine that exposes only open/close/find/read
//! primitives. This crate models that engine as explicit state
//! ([`native::NativeEngine`]) and verifies the resource-handle and iteration
//! layer on top of it: storage lifecycle, pattern enumeration, file handles,
//! and the read/seek/extract operations, together with the discipline that
//! every native handle is released exactly once and never used after its
//! owner is gone.

pub mod error;
pub mod file;
pub mod find;
pub mod names;
pub mod native;
pub mod storage;

pub use error::CascError;
pub use error::IoDetail;
pub use file::File;
pub use file::FileEntry;
pub use file::BoundedSink;
pub use file::SeekFrom;
pub use file::Sink;
pub use file::VecSink;
pub use find::Find;
pub use find::FindIterator;
pub use find::FindState;
pub use native::NativeEngine;
pub use storage::open;
pub use storage::CollectingVisitor;
pub use storage::Storage;
pub use storage::Visitor;
