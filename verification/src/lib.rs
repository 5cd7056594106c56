//! Mirrors a remote APT/Cydia-style package repository to local storage.
//!
//! The library holds the verified core of the mirroring engine: the
//! checksum-gated skip logic, the multi-format decompression dispatcher
//! for the metadata index, the metadata candidate selection, the package
//! record parser, the bounded-concurrency permit pool, the outcome
//! aggregation with its failure-threshold abort policy, and the archive
//! planning walk. Network and file I/O live outside the library and hand
//! it plain values.
pub mod archive;
pub mod config;
pub mod coordinator;
pub mod decompress;
pub mod hash;
pub mod metadata;
pub mod permits;
pub mod records;
pub mod text;
