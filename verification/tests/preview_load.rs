use std::sync::atomic::AtomicBool;

use arcthumb::preview::load::{
    after_cancel_check, after_decode, after_enter, after_inspect, after_read, after_start,
    after_unmarshal, check_cancelled, next_load_token, outcome_of, CancellableReader, Cover,
    LivpParts, LoadOutcome, LoadSlot, LoadStep, LoadedPreview, LoaderPool, MemoryReader,
    ReadErrorKind, SeekTarget,
};
use arcthumb::preview::video::VideoCodec;

fn reader(bytes: &[u8]) -> MemoryReader {
    MemoryReader::new(bytes.to_vec())
}

fn failure(step: LoadStep<u8>) -> String {
    match step {
        LoadStep::Finish(Err(text)) => text,
        _ => panic!("expected a failure"),
    }
}

fn cover(name: &str) -> Cover {
    Cover {
        name: name.to_string(),
        bytes: vec![1],
        video_bytes: None,
        video_codec: VideoCodec::Unknown,
    }
}

#[test]
fn cancellable_reader_reads_and_seeks_before_cancellation() {
    let cancelled = AtomicBool::new(false);
    let mut reader = CancellableReader::new(reader(b"abcdef"), &cancelled);
    let mut bytes = [0; 2];
    reader.read_exact(&mut bytes).unwrap();
    assert_eq!(&bytes, b"ab");
    assert_eq!(reader.seek(SeekTarget::Start(4)).unwrap(), 4);
    reader.read_exact(&mut bytes).unwrap();
    assert_eq!(&bytes, b"ef");
}

#[test]
fn cancellable_reader_interrupts_reads_and_seeks() {
    let cancelled = AtomicBool::new(true);
    let mut reader = CancellableReader::new(reader(b"abcdef"), &cancelled);
    let mut byte = [0; 1];
    assert_eq!(
        reader.read(&mut byte).unwrap_err().kind(),
        ReadErrorKind::ConnectionAborted
    );
    assert_eq!(
        reader.seek(SeekTarget::Start(0)).unwrap_err().kind(),
        ReadErrorKind::ConnectionAborted
    );
    assert_eq!(
        reader.read_exact(&mut byte).unwrap_err().kind(),
        ReadErrorKind::ConnectionAborted
    );
    assert_eq!(
        reader.read_to_end(&mut Vec::new()).unwrap_err().kind(),
        ReadErrorKind::ConnectionAborted
    );
    let error = reader.check().unwrap_err();
    assert_eq!(error.message, "preview load cancelled");
}

#[test]
fn cancellation_is_checked_by_the_flag() {
    assert!(check_cancelled(false).is_ok());
    assert_eq!(
        check_cancelled(true).unwrap_err().kind(),
        ReadErrorKind::ConnectionAborted
    );
}

#[test]
fn reads_stop_at_the_end() {
    let cancelled = AtomicBool::new(false);
    let mut reader = CancellableReader::new(reader(b"abc"), &cancelled);
    let mut bytes = [7; 5];
    assert_eq!(reader.read(&mut bytes).unwrap(), 3);
    assert_eq!(&bytes, b"abc\x07\x07");
    assert_eq!(reader.read(&mut bytes).unwrap(), 0);
    assert_eq!(
        reader.read_exact(&mut bytes).unwrap_err().kind(),
        ReadErrorKind::UnexpectedEof
    );
    assert_eq!(reader.seek(SeekTarget::End(-2)).unwrap(), 1);
    let mut rest = b"x".to_vec();
    assert_eq!(reader.read_to_end(&mut rest).unwrap(), 2);
    assert_eq!(&rest, b"xbc");
    assert_eq!(reader.seek(SeekTarget::Current(10)).unwrap(), 13);
    assert_eq!(reader.read_to_end(&mut rest).unwrap(), 0);
    assert_eq!(
        reader.seek(SeekTarget::End(-4)).unwrap_err().kind(),
        ReadErrorKind::InvalidInput
    );
    assert_eq!(reader.seek(SeekTarget::Current(0)).unwrap(), 13);
}

#[test]
fn tokens_skip_zero() {
    let mut counter = 1;
    assert_eq!(next_load_token(&mut counter), 1);
    assert_eq!(next_load_token(&mut counter), 2);
    counter = u32::MAX;
    assert_eq!(next_load_token(&mut counter), u32::MAX);
    assert_eq!(next_load_token(&mut counter), 1);
    assert_eq!(counter, 2);
}

#[test]
fn at_most_four_loaders_run() {
    let mut pool = LoaderPool::new();
    for _ in 0..4 {
        assert!(pool.acquire().is_ok());
    }
    assert_eq!(pool.acquire(), Err(0x80004005u32 as i32));
    pool.release();
    assert!(pool.acquire().is_ok());
    assert!(pool.acquire().is_err());
}

#[test]
fn failed_starts_give_their_permit_back() {
    let mut pool = LoaderPool::new();
    let permit = pool.acquire();
    assert_eq!(after_start(&mut pool, permit, Some(Err(-9)), None), Err(-9));
    assert_eq!(pool.active, 0);
    let permit = pool.acquire();
    assert_eq!(
        after_start(&mut pool, permit, Some(Ok(())), Some(false)),
        Err(0x80004005u32 as i32)
    );
    assert_eq!(pool.active, 0);
    let permit = pool.acquire();
    assert_eq!(after_start(&mut pool, permit, Some(Ok(())), Some(true)), Ok(()));
    assert_eq!(pool.active, 1);
    assert_eq!(after_start(&mut pool, Err(-3), None, None), Err(-3));
    assert_eq!(pool.active, 1);
}

#[test]
fn cancelled_jobs_leave_nothing_behind() {
    let mut slot: LoadSlot<u8> = LoadSlot::new(5);
    assert_eq!(slot.token(), 5);
    assert!(!slot.is_cancelled());
    assert_eq!(slot.publish(1), Some(5));
    assert_eq!(slot.take_outcome(), Some(1));
    assert_eq!(slot.take_outcome(), None);
    slot.cancel();
    assert!(slot.is_cancelled());
    assert_eq!(slot.publish(2), None);
    assert_eq!(slot.take_outcome(), None);
}

#[test]
fn panics_and_errors_are_failures() {
    let ready: LoadOutcome<u8, u8> = outcome_of(Some(Ok(LoadedPreview {
        image: 3,
        video_bytes: None,
        video_codec: VideoCodec::Unknown,
    })));
    assert!(matches!(ready, LoadOutcome::Ready(_)));
    let failed: LoadOutcome<u8, u8> = outcome_of(Some(Err("x".to_string())));
    assert!(matches!(failed, LoadOutcome::Failed));
    let panicked: LoadOutcome<u8, u8> = outcome_of(None);
    assert!(matches!(panicked, LoadOutcome::Failed));
}

#[test]
fn loading_steps_report_their_failures() {
    let e = "reason".to_string();
    assert_eq!(failure(after_enter(Err(e.clone()))), "CoInitializeEx failed: reason");
    assert_eq!(failure(after_unmarshal(Err(e.clone()))), "stream unmarshal failed: reason");
    assert_eq!(failure(after_inspect(Err(e.clone()))), "LIVP inspection failed: reason");
    assert_eq!(failure(after_read(Err(e.clone()))), "archive read failed: reason");
    assert_eq!(
        failure(after_cancel_check(cover("a.jpg"), true)),
        "cancelled before image decode"
    );
    assert_eq!(
        failure(after_decode(cover("a.jpg"), Err(e))),
        "decode failed for a.jpg: reason"
    );
}

#[test]
fn live_photos_load_with_their_clip() {
    assert!(matches!(after_enter::<u8>(Ok(())), LoadStep::Unmarshal));
    assert!(matches!(after_unmarshal::<u8>(Ok(())), LoadStep::Inspect));
    let parts = LivpParts {
        image_name: "photo.jpg".to_string(),
        image_bytes: vec![1, 2],
        video_bytes: b"....hvc1....motion....".to_vec(),
    };
    let cover = match after_inspect::<u8>(Ok(Some(parts))) {
        LoadStep::CheckCancelled(cover) => cover,
        _ => panic!("expected a cover"),
    };
    assert_eq!(cover.name, "photo.jpg");
    let cover = match after_cancel_check::<u8>(cover, false) {
        LoadStep::Decode(cover) => cover,
        _ => panic!("expected a decode step"),
    };
    assert_eq!(cover.bytes, vec![1, 2]);
    match after_decode(cover, Ok(9u8)) {
        LoadStep::Finish(Ok(loaded)) => {
            assert_eq!(loaded.image, 9);
            assert_eq!(loaded.video_codec, VideoCodec::Hevc);
            assert_eq!(loaded.video_bytes.unwrap(), b"....hvc1....motion....");
        }
        _ => panic!("expected a preview"),
    }
}

#[test]
fn plain_archives_load_without_a_clip() {
    assert!(matches!(after_inspect::<u8>(Ok(None)), LoadStep::ReadArchive));
    match after_read::<u8>(Ok(("1.png".to_string(), vec![4]))) {
        LoadStep::CheckCancelled(cover) => {
            assert_eq!(cover.name, "1.png");
            assert_eq!(cover.bytes, vec![4]);
            assert!(cover.video_bytes.is_none());
            assert_eq!(cover.video_codec, VideoCodec::Unknown);
        }
        _ => panic!("expected a cover"),
    }
}

#[test]
fn inner_reader_is_handed_out_unless_cancelled() {
    let cancelled = AtomicBool::new(false);
    let mut reader = CancellableReader::new(7u32, &cancelled);
    *reader.inner_unless(false).unwrap() = 8;
    assert_eq!(
        reader.inner_unless(true).unwrap_err().kind(),
        ReadErrorKind::ConnectionAborted
    );
    assert_eq!(*reader.checked_inner().unwrap(), 8);
    cancelled.store(true, std::sync::atomic::Ordering::Release);
    assert_eq!(
        reader.checked_inner().unwrap_err().kind(),
        ReadErrorKind::ConnectionAborted
    );
    assert_eq!(reader.inner, 8);
}

#[test]
fn cancelling_takes_effect_between_two_reads() {
    let cancelled = AtomicBool::new(false);
    let mut reader = CancellableReader::new(reader(b"abcdef"), &cancelled);
    let mut bytes = [0u8; 2];
    assert_eq!(reader.read(&mut bytes).unwrap(), 2);
    cancelled.store(true, std::sync::atomic::Ordering::Release);
    assert!(reader.read(&mut bytes).is_err());
    assert_eq!(&bytes, b"ab");
    let mut rest = vec![9];
    assert!(reader.read_to_end(&mut rest).is_err());
    assert_eq!(rest, vec![9]);
    cancelled.store(false, std::sync::atomic::Ordering::Release);
    assert_eq!(reader.read_to_end(&mut rest).unwrap(), 4);
    assert_eq!(rest, b"\x09cdef");
}

#[test]
fn empty_buffers_are_full_without_a_read() {
    let cancelled = AtomicBool::new(true);
    let mut reader = CancellableReader::new(reader(b"abc"), &cancelled);
    assert!(reader.read_exact(&mut []).is_ok());
    assert_eq!(reader.inner.position, 0);
}

#[test]
fn short_reads_take_what_is_left() {
    let cancelled = AtomicBool::new(false);
    let mut reader = CancellableReader::new(reader(b"abc"), &cancelled);
    let mut bytes = [7; 5];
    let error = reader.read_exact(&mut bytes).unwrap_err();
    assert_eq!(error.kind(), ReadErrorKind::UnexpectedEof);
    assert_eq!(error.message, "failed to fill whole buffer");
    assert_eq!(&bytes, b"abc\x07\x07");
    assert_eq!(reader.inner.position, 3);
}
