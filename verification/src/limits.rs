//! Hard safety limits.
//!
//! A shell extension runs inside the file manager, where running out of
//! memory, hanging or panicking takes the user's desktop down with it.
//! These constants cap what a single thumbnail request may cost, however
//! malformed the archive is.

use vstd::prelude::*;

verus! {

/// Largest ZIP or 7z archive (and the formats built on ZIP) that is
/// read: 1 TiB. Their parsers read an index and one entry, so the file
/// size says little about the cost of a request.
pub const MAX_ARCHIVE_SIZE_INDEXED: u64 = 1024 * 1024 * 1024 * 1024;

/// Largest sequential archive (TAR, RAR) or single-file ebook (FB2,
/// MOBI) that is read: 2 GiB. These are read or buffered as a whole.
pub const MAX_ARCHIVE_SIZE_SEQUENTIAL: u64 = 2 * 1024 * 1024 * 1024;

/// Most entries that are enumerated in any archive.
pub const MAX_ARCHIVE_ENTRIES: usize = 100_000;

/// Largest entry that is considered as a thumbnail candidate: 500 MiB.
pub const MAX_ENTRY_SIZE: u64 = 500 * 1024 * 1024;

/// Largest clip of a Live Photo that is read into memory: 256 MiB.
pub const MAX_VIDEO_SIZE: u64 = 256 * 1024 * 1024;

/// Largest decoded image width or height, in pixels.
pub const MAX_IMAGE_DIMENSION: u32 = 32_768;

/// Most bytes that an image decoder may allocate: 512 MiB.
pub const MAX_IMAGE_ALLOC: u64 = 512 * 1024 * 1024;

/// Age in seconds after which an orphaned temporary file is deleted.
pub const TEMP_FILE_MAX_AGE_SECS: u64 = 3600;

/// Smallest thumbnail side that is produced.
pub const MIN_THUMBNAIL_SIZE: u32 = 16;

/// Largest thumbnail side that is produced.
pub const MAX_THUMBNAIL_SIZE: u32 = 2560;

/// Size beyond which the debug log is truncated: 1 MiB.
pub const MAX_LOG_FILE_SIZE: u64 = 1024 * 1024;

/// The limits fit together: indexed archives may be larger than
/// sequential ones, an ordinary archive stays far below the entry count,
/// whatever may be read from an archive may also be decoded, a clip is
/// an entry like others, and the range of thumbnail sizes is not empty.
pub proof fn limits_are_consistent()
    ensures
        MAX_ARCHIVE_SIZE_INDEXED > MAX_ARCHIVE_SIZE_SEQUENTIAL,
        MAX_ARCHIVE_ENTRIES >= 10_000,
        MAX_IMAGE_ALLOC >= MAX_ENTRY_SIZE,
        MAX_ENTRY_SIZE >= MAX_VIDEO_SIZE,
        MIN_THUMBNAIL_SIZE <= MAX_THUMBNAIL_SIZE,
{
}

} // verus!
