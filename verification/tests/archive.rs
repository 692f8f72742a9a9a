use arcthumb::archive::{
    accepts_video_size, max_archive_size_for, plan_read, settings_for, uses_settings, with_kind, ArchiveError, Backend, ContentKind, Extracted, Format,
};
use arcthumb::limits;
use arcthumb::settings::Settings;

#[test]
fn indexed_formats_get_the_loose_cap() {
    assert_eq!(
        max_archive_size_for(Format::Zip),
        limits::MAX_ARCHIVE_SIZE_INDEXED
    );
    assert_eq!(
        max_archive_size_for(Format::SevenZ),
        limits::MAX_ARCHIVE_SIZE_INDEXED
    );
}

#[test]
fn sequential_formats_get_the_tight_cap() {
    for f in [
        Format::Tar,
        Format::Rar,
        Format::Fb2,
        Format::Mobi,
        Format::Unknown,
    ] {
        assert_eq!(
            max_archive_size_for(f),
            limits::MAX_ARCHIVE_SIZE_SEQUENTIAL,
            "format {f:?} should use the sequential cap"
        );
    }
}

#[test]
fn limits_have_their_documented_values() {
    assert_eq!(limits::MAX_ARCHIVE_SIZE_INDEXED, 1u64 << 40);
    assert_eq!(limits::MAX_ARCHIVE_SIZE_SEQUENTIAL, 1u64 << 31);
    assert_eq!(limits::MAX_ARCHIVE_ENTRIES, 100_000);
    assert_eq!(limits::MAX_ENTRY_SIZE, 524_288_000);
    assert_eq!(limits::MAX_VIDEO_SIZE, 268_435_456);
    assert_eq!(limits::MAX_IMAGE_DIMENSION, 32_768);
    assert_eq!(limits::MAX_IMAGE_ALLOC, 536_870_912);
    assert_eq!(limits::TEMP_FILE_MAX_AGE_SECS, 3600);
    assert_eq!(limits::MIN_THUMBNAIL_SIZE, 16);
    assert_eq!(limits::MAX_THUMBNAIL_SIZE, 2560);
    assert_eq!(limits::MAX_LOG_FILE_SIZE, 1_048_576);
    assert!(limits::MAX_IMAGE_ALLOC >= limits::MAX_ENTRY_SIZE);
}

#[test]
fn each_format_has_its_reader() {
    assert_eq!(plan_read(Format::Zip, 10), Ok(Backend::Zip));
    for (format, kind) in [
        (Format::SevenZ, ContentKind::SevenZ),
        (Format::Rar, ContentKind::Rar),
        (Format::Tar, ContentKind::Tar),
    ] {
        assert_eq!(plan_read(format, 10), Ok(Backend::Plain(kind)));
    }
    for (format, kind) in [(Format::Fb2, ContentKind::Fb2), (Format::Mobi, ContentKind::Mobi)] {
        assert_eq!(plan_read(format, 10), Ok(Backend::Ebook(kind)));
    }
}

#[test]
fn unknown_formats_are_not_read() {
    let error = plan_read(Format::Unknown, 45).unwrap_err();
    assert_eq!(error, ArchiveError::UnknownFormat);
    assert_eq!(error.message(), "unrecognised archive format");
}

#[test]
fn archives_over_the_cap_are_not_read() {
    let limit = limits::MAX_ARCHIVE_SIZE_SEQUENTIAL;
    assert!(plan_read(Format::Rar, limit).is_ok());
    let error = plan_read(Format::Rar, limit + 1).unwrap_err();
    assert_eq!(
        error.message(),
        "archive too large (2147483649 bytes > 2147483648 limit)"
    );
    // The size is looked at before the format.
    assert!(matches!(
        plan_read(Format::Unknown, limit + 1),
        Err(ArchiveError::TooLarge { .. })
    ));
    assert!(plan_read(Format::Zip, limit + 1).is_ok());
    assert!(plan_read(Format::Zip, limits::MAX_ARCHIVE_SIZE_INDEXED + 1).is_err());
}

#[test]
fn kinds_are_attached_to_what_was_read() {
    let parts = with_kind(("a.png".to_string(), vec![1, 2, 3]), ContentKind::Rar);
    assert_eq!(parts, ("a.png".to_string(), vec![1, 2, 3], ContentKind::Rar));
    let extracted = Extracted::from_parts(parts);
    assert_eq!(extracted.kind, ContentKind::Rar);
    assert_eq!(extracted.into_pair(), ("a.png".to_string(), vec![1, 2, 3]));
}

#[test]
fn ebooks_are_read_without_settings() {
    let settings = Settings::default();
    for kind in [ContentKind::Epub, ContentKind::Fb2, ContentKind::Mobi] {
        assert!(!uses_settings(kind));
        assert!(settings_for(Backend::Ebook(kind), &settings).is_none());
    }
    for kind in [ContentKind::Zip, ContentKind::SevenZ, ContentKind::Rar, ContentKind::Tar] {
        assert!(uses_settings(kind));
        assert!(settings_for(Backend::Plain(kind), &settings).is_some());
    }
    assert!(settings_for(Backend::Zip, &settings).is_some());
}

#[test]
fn clips_are_capped() {
    assert!(accepts_video_size(0));
    assert!(accepts_video_size(limits::MAX_VIDEO_SIZE));
    assert!(!accepts_video_size(limits::MAX_VIDEO_SIZE + 1));
}
