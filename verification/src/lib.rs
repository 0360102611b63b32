//! Obfuscation of a directory of fixed-format block files.
//!
//! Each data file is XOR-ed byte-wise with a repeating 8-byte key, the same
//! scheme the host application uses for its at-rest obfuscation. The library
//! holds the verified core: the key model and its validity rules, the
//! classification of files as raw or already obfuscated, the keystream
//! transform, and the per-run bookkeeping. File and console I/O live outside.

pub mod classify;
pub mod key;
pub mod transform;
pub mod walker;

