//! Reading the first image of an archive: which archives are read, by
//! which reader, and what kind of content they turn out to have.

use vstd::prelude::*;

use crate::limits::{MAX_ARCHIVE_SIZE_INDEXED, MAX_ARCHIVE_SIZE_SEQUENTIAL, MAX_VIDEO_SIZE};
use crate::settings::Settings;
use crate::text::decimal_text;

verus! {

/// Number of bytes at the start of a file by which its format is told.
pub const MAGIC_LEN: usize = 512;

/// Archive format, as told by the first bytes of a file.
#[derive(Debug, Clone, Copy, PartialEq, Eq, Structural)]
pub enum Format {
    Zip,
    SevenZ,
    Rar,
    Tar,
    Fb2,
    Mobi,
    Unknown,
}

/// What kind of archive a cover was taken from. A plain ZIP, an EPUB and
/// a zipped FB2 start with the same bytes and are told apart by what is
/// in them.
#[derive(Debug, Clone, Copy, PartialEq, Eq, Structural)]
pub enum ContentKind {
    Zip,
    SevenZ,
    Rar,
    Tar,
    Epub,
    Fb2,
    Mobi,
}

/// The first image of an archive, and the kind of archive.
pub struct Extracted {
    pub name: String,
    pub bytes: Vec<u8>,
    pub kind: ContentKind,
}

/// The reader for an archive.
#[derive(Debug, Clone, Copy, PartialEq, Eq, Structural)]
pub enum Backend {
    /// Looks into the archive to tell the kind of its content.
    Zip,
    /// Gives a name and bytes; the kind is known in advance.
    Plain(ContentKind),
    /// Finds the cover by the ebook's own metadata.
    Ebook(ContentKind),
}

/// Why an archive is not read.
#[derive(Debug, Clone, Copy, PartialEq, Eq, Structural)]
pub enum ArchiveError {
    TooLarge { total: u64, limit: u64 },
    UnknownFormat,
}

impl ArchiveError {
    /// The error as a text.
    pub open spec fn text(self) -> Seq<char> {
        match self {
            ArchiveError::TooLarge { total, limit } => "archive too large ("@
                + crate::text::decimal_digits(total as nat) + " bytes > "@
                + crate::text::decimal_digits(limit as nat) + " limit)"@,
            ArchiveError::UnknownFormat => "unrecognised archive format"@,
        }
    }

    /// The error as a text.
    pub fn message(&self) -> (message: String)
        ensures
            message@ == self.text(),
    {
        match self {
            ArchiveError::TooLarge { total, limit } => {
                let mut message = "archive too large (".to_owned();
                message.append(decimal_text(*total).as_str());
                message.append(" bytes > ");
                message.append(decimal_text(*limit).as_str());
                message.append(" limit)");
                message
            },
            ArchiveError::UnknownFormat => "unrecognised archive format".to_owned(),
        }
    }
}

/// Largest archive of a format that is read. Formats with an index are
/// not read as a whole and may be larger.
pub open spec fn size_limit(format: Format) -> u64 {
    match format {
        Format::Zip | Format::SevenZ => MAX_ARCHIVE_SIZE_INDEXED,
        _ => MAX_ARCHIVE_SIZE_SEQUENTIAL,
    }
}

/// The reader for a format, if it has one.
pub open spec fn backend_for(format: Format) -> Option<Backend> {
    match format {
        Format::Zip => Some(Backend::Zip),
        Format::SevenZ => Some(Backend::Plain(ContentKind::SevenZ)),
        Format::Rar => Some(Backend::Plain(ContentKind::Rar)),
        Format::Tar => Some(Backend::Plain(ContentKind::Tar)),
        Format::Fb2 => Some(Backend::Ebook(ContentKind::Fb2)),
        Format::Mobi => Some(Backend::Ebook(ContentKind::Mobi)),
        Format::Unknown => None,
    }
}

/// Largest archive of a format that is read.
pub fn max_archive_size_for(format: Format) -> (limit: u64)
    ensures
        limit == size_limit(format),
{
    match format {
        Format::Zip | Format::SevenZ => MAX_ARCHIVE_SIZE_INDEXED,
        _ => MAX_ARCHIVE_SIZE_SEQUENTIAL,
    }
}

/// Decides how an archive of this format and size is read. The size is
/// checked first, also for unknown formats.
pub fn plan_read(format: Format, total: u64) -> (plan: Result<Backend, ArchiveError>)
    ensures
        match plan {
            Ok(backend) => total <= size_limit(format) && backend_for(format) == Some(backend),
            Err(ArchiveError::TooLarge { total: t, limit }) => {
                &&& total > size_limit(format)
                &&& t == total
                &&& limit == size_limit(format)
            },
            Err(ArchiveError::UnknownFormat) => total <= size_limit(format) && format is Unknown,
        },
        plan is Ok <==> !(format is Unknown) && total <= (if format is Zip || format is SevenZ {
            1_099_511_627_776u64
        } else {
            2_147_483_648u64
        }),
{
    let limit: u64 = max_archive_size_for(format);
    if total > limit {
        return Err(ArchiveError::TooLarge { total, limit });
    }
    match format {
        Format::Zip => Ok(Backend::Zip),
        Format::SevenZ => Ok(Backend::Plain(ContentKind::SevenZ)),
        Format::Rar => Ok(Backend::Plain(ContentKind::Rar)),
        Format::Tar => Ok(Backend::Plain(ContentKind::Tar)),
        Format::Fb2 => Ok(Backend::Ebook(ContentKind::Fb2)),
        Format::Mobi => Ok(Backend::Ebook(ContentKind::Mobi)),
        Format::Unknown => Err(ArchiveError::UnknownFormat),
    }
}

/// Is a cover of this kind of archive picked by the settings? Ebooks say
/// themselves what their cover is.
pub open spec fn kind_uses_settings(kind: ContentKind) -> bool {
    !(kind is Epub || kind is Fb2 || kind is Mobi)
}

/// Tells whether a cover of this kind of archive is picked by the
/// settings: by the enabled image formats, the sort order and the
/// preference for covers.
pub fn uses_settings(kind: ContentKind) -> (uses: bool)
    ensures
        uses == kind_uses_settings(kind),
{
    match kind {
        ContentKind::Epub | ContentKind::Fb2 | ContentKind::Mobi => false,
        _ => true,
    }
}

/// The settings that a reader gets. The reader for ZIP archives gets
/// them before it knows whether the archive is an ebook.
pub open spec fn reader_settings(backend: Backend, settings: Settings) -> Option<Settings> {
    match backend {
        Backend::Zip => Some(settings),
        Backend::Plain(kind) => if kind_uses_settings(kind) {
            Some(settings)
        } else {
            None
        },
        Backend::Ebook(_) => None,
    }
}

/// The settings that a reader gets, if it gets any.
pub fn settings_for(backend: Backend, settings: &Settings) -> (handed: Option<&Settings>)
    ensures
        match handed {
            Some(handed) => reader_settings(backend, *settings) == Some(*handed),
            None => reader_settings(backend, *settings) is None,
        },
{
    match backend {
        Backend::Zip => Some(settings),
        Backend::Plain(kind) => if uses_settings(kind) {
            Some(settings)
        } else {
            None
        },
        Backend::Ebook(_) => None,
    }
}

/// Everything that the reading of a file depends on besides its bytes:
/// the reader and the settings that it gets, or the error.
pub open spec fn read_request(format: Format, total: u64, settings: Settings) -> Result<
    (Backend, Option<Settings>),
    ArchiveError,
> {
    if total > size_limit(format) {
        Err(ArchiveError::TooLarge { total, limit: size_limit(format) })
    } else {
        match backend_for(format) {
            Some(backend) => Ok((backend, reader_settings(backend, settings))),
            None => Err(ArchiveError::UnknownFormat),
        }
    }
}

/// Settings do not affect ebooks: the same file is read by the same
/// reader with the same input, whatever they are. Readers of other
/// archives get the settings as they are.
pub proof fn settings_do_not_affect_ebooks(
    format: Format,
    total: u64,
    first: Settings,
    second: Settings,
)
    ensures
        format is Fb2 || format is Mobi ==> read_request(format, total, first) == read_request(
            format,
            total,
            second,
        ),
        read_request(format, total, first) matches Ok((backend, handed)) ==> {
            &&& backend matches Backend::Ebook(kind) ==> !kind_uses_settings(kind)
            &&& backend matches Backend::Plain(kind) ==> kind_uses_settings(kind)
            &&& !(backend is Ebook) ==> handed == Some(first)
        },
{
}

/// Tells whether a clip of this size is read into memory.
pub fn accepts_video_size(size: u64) -> (accepted: bool)
    ensures
        accepted == (size <= MAX_VIDEO_SIZE),
{
    size <= MAX_VIDEO_SIZE
}

/// Adds the kind to what a reader gave.
pub fn with_kind(pair: (String, Vec<u8>), kind: ContentKind) -> (triple: (
    String,
    Vec<u8>,
    ContentKind,
))
    ensures
        triple == (pair.0, pair.1, kind),
{
    (pair.0, pair.1, kind)
}

impl Extracted {
    /// The image of an archive and its kind.
    pub fn from_parts(parts: (String, Vec<u8>, ContentKind)) -> (extracted: Extracted)
        ensures
            extracted == (Extracted { name: parts.0, bytes: parts.1, kind: parts.2 }),
    {
        Extracted { name: parts.0, bytes: parts.1, kind: parts.2 }
    }

    /// The image without the kind of its archive.
    pub fn into_pair(self) -> (pair: (String, Vec<u8>))
        ensures
            pair == (self.name, self.bytes),
    {
        (self.name, self.bytes)
    }
}

/// Only formats with an index may exceed the limit for sequential ones,
/// and nothing may exceed the limit for those.
pub proof fn size_limits_by_format(format: Format)
    ensures
        size_limit(format) <= MAX_ARCHIVE_SIZE_INDEXED,
        size_limit(format) > MAX_ARCHIVE_SIZE_SEQUENTIAL <==> format is Zip || format is SevenZ,
{
}

/// Formats with an index are read up to one terabyte, all others, the
/// unknown one too, up to two gigabytes. Every known format has its own
/// reader, which gives the kind of content that belongs to the format.
pub proof fn formats_and_their_readers(format: Format)
    ensures
        size_limit(Format::Zip) == 1_099_511_627_776,
        size_limit(Format::SevenZ) == 1_099_511_627_776,
        !(format is Zip || format is SevenZ) ==> size_limit(format) == 2_147_483_648,
        backend_for(Format::Zip) == Some(Backend::Zip),
        backend_for(Format::SevenZ) == Some(Backend::Plain(ContentKind::SevenZ)),
        backend_for(Format::Rar) == Some(Backend::Plain(ContentKind::Rar)),
        backend_for(Format::Tar) == Some(Backend::Plain(ContentKind::Tar)),
        backend_for(Format::Fb2) == Some(Backend::Ebook(ContentKind::Fb2)),
        backend_for(Format::Mobi) == Some(Backend::Ebook(ContentKind::Mobi)),
        backend_for(format) is None <==> format is Unknown,
{
}

/// The settings count for archives of images and for no ebook.
pub proof fn settings_count_for_images(kind: ContentKind)
    ensures
        kind_uses_settings(kind) <==> kind is Zip || kind is SevenZ || kind is Rar || kind is Tar,
{
}

/// A reader gets the settings unless it reads an ebook.
pub proof fn readers_get_the_settings(kind: ContentKind, settings: Settings)
    ensures
        reader_settings(Backend::Zip, settings) == Some(settings),
        reader_settings(Backend::Ebook(kind), settings) is None,
        kind is Zip || kind is SevenZ || kind is Rar || kind is Tar ==> reader_settings(
            Backend::Plain(kind),
            settings,
        ) == Some(settings),
        kind is Epub || kind is Fb2 || kind is Mobi ==> reader_settings(
            Backend::Plain(kind),
            settings,
        ) is None,
{
}

/// The error for an archive that is too large names both numbers, first
/// the size and then the limit.
pub proof fn error_names_both_sizes(total: u64, limit: u64)
    ensures
        exists|first: Seq<char>, second: Seq<char>|
            #![trigger crate::text::decimal_value(first), crate::text::decimal_value(second)]
            crate::text::decimal_value(first) == total && crate::text::decimal_value(second)
                == limit && (ArchiveError::TooLarge { total, limit }).text()
                == "archive too large ("@ + first + " bytes > "@ + second + " limit)"@,
        ArchiveError::UnknownFormat.text() == "unrecognised archive format"@,
{
    crate::text::decimal_reads_back(total as nat);
    crate::text::decimal_reads_back(limit as nat);
    let first = crate::text::decimal_digits(total as nat);
    let second = crate::text::decimal_digits(limit as nat);
    assert((ArchiveError::TooLarge { total, limit }).text() == "archive too large ("@ + first
        + " bytes > "@ + second + " limit)"@);
    assert(crate::text::decimal_value(first) == total);
    assert(crate::text::decimal_value(second) == limit);
}

} // verus!
