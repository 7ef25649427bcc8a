//! Manifest-driven incremental content synchronizer.
//!
//! Given a declared remote set of files (name, size, content hash) for a
//! versioned package, this library reconciles a local installation directory
//! to match: it diffs manifests, plans deletions of obsolete and stray
//! content, verifies downloaded payloads against their declared digests, and
//! keeps a persistable local manifest in step with what is on disk.
//!
//! All file, network and clock access is left to the embedding program; the
//! library works on plain values (byte buffers, name lists, timestamps) and
//! states in its contracts exactly how each decision is made.

pub mod manifest;
pub mod reconcile;
pub mod strutil;
pub mod control;
pub mod hashing;
pub mod platform;
pub mod archive;
pub mod pipeline;
pub mod codec;
