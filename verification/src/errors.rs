//! Error kinds shared by the archive reader and the decoders.

use vstd::prelude::*;

verus! {

/// Everything that can go wrong while reading an archive or decoding a
/// model or texture. Names are carried as the byte strings the formats use.
#[derive(Debug, Clone, PartialEq, Eq)]
pub enum Error {
    /// The leading magic value is not the one the format requires.
    InvalidMagic(u32),
    /// The format version is outside the supported range.
    UnsupportedVersion(u32),
    /// No entry with this name exists.
    NotFound(Vec<u8>),
    /// The buffer ends too early: how many bytes were needed, and how many
    /// were there.
    Truncated(usize, usize),
    /// A compressed sector carries an algorithm code that is not supported.
    UnsupportedCompression(u8),
    /// The texture's content, compression or alpha kind is not supported.
    UnsupportedTextureFormat,
    /// The entry's payload is encrypted; per-file decryption is out of scope.
    Encrypted,
    /// A decoded structure contradicts itself or its container.
    CorruptData,
    /// A name field does not hold valid UTF-8.
    InvalidUtf8,
    /// An input/output failure, surfaced by callers that read archive files
    /// from disk before handing their bytes to this crate.
    Io(String),
}

} // verus!
