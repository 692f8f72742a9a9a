use arcthumb::hresult::E_FAIL;
use arcthumb::preview::geometry::Rect;
use arcthumb::preview::video::{Notice, PlayerCommand, Received};
use arcthumb::preview::vlc::{
    check_symbols, negotiate, plan_paint, publish_frame, runtime_path, FallbackAction, FallbackReply,
    FallbackSetup, FallbackStage, FallbackWorker, MemoryInput, PaintPlan, Publication, Request,
    CHROMA, ENGINE_OPTIONS, RUNTIME_SYMBOLS,
};

#[test]
fn video_buffer_is_bounded_and_aligned_for_native_conversion() {
    let layout = negotiate(2160, 3840).unwrap();
    assert_eq!((layout.width, layout.height), (720, 1280));
    assert_eq!(layout.pitch % 32, 0);
    assert_eq!(layout.lines % 32, 0);
    assert!(layout.blocks * 32 >= (layout.pitch * layout.lines) as usize);
    assert!(layout.blocks * 32 <= 1280 * 1280 * 4);
    assert_eq!(&CHROMA, b"RV32");
    assert_eq!(negotiate(0, 1280), None);
    assert_eq!(negotiate(32768, 1280), None);
}

#[test]
fn frame_sizes_match_double_precision() {
    for longest in (1..16384u32).step_by(401) {
        for other in (1..=longest).step_by(97) {
            let scale = (1280.0 / longest as f64).min(1.0);
            let expected = (
                ((longest as f64 * scale) as u32).max(1),
                ((other as f64 * scale) as u32).max(1),
            );
            let layout = negotiate(longest, other).unwrap();
            assert_eq!((layout.width, layout.height), expected, "{longest}x{other}");
            let turned = negotiate(other, longest).unwrap();
            assert_eq!((turned.height, turned.width), expected);
        }
    }
    let layout = negotiate(537, 1432).unwrap();
    assert_eq!((layout.width, layout.height), (479, 1280));
}

#[test]
fn small_frames_keep_their_size() {
    let layout = negotiate(100, 33).unwrap();
    assert_eq!((layout.width, layout.height), (100, 33));
    assert_eq!((layout.pitch, layout.lines), (416, 64));
    assert_eq!(layout.blocks, 13 * 64);
    let thin = negotiate(16384, 1).unwrap();
    assert_eq!((thin.width, thin.height), (1280, 1));
    assert_eq!(negotiate(16385, 1), None);
}

#[test]
fn memory_callbacks_reopen_seek_eof_and_cancel() {
    let input = MemoryInput { bytes: b"abcdef".to_vec() };
    let (mut data, size) = input.open(false).unwrap();
    assert_eq!(size, 6);
    assert_eq!(input.read(&mut data, 3, false), Some(&b"abc"[..]));
    assert!(input.seek(&mut data, 5, false));
    let chunk = input.read(&mut data, 8, false).unwrap();
    assert_eq!(chunk.len(), 1);
    assert_eq!(chunk[0], b'f');
    assert_eq!(input.read(&mut data, 8, false).unwrap().len(), 0);
    assert!(!input.seek(&mut data, u64::MAX, false));
    let (mut data, _) = input.open(false).unwrap();
    assert_eq!(input.read(&mut data, 6, false), Some(&b"abcdef"[..]));
    // Shut down.
    assert_eq!(input.read(&mut data, 8, true), None);
    assert!(!input.seek(&mut data, 0, true));
    assert_eq!(input.open(true), None);
}

#[test]
fn split_reads_are_contiguous() {
    let input = MemoryInput { bytes: (0..100u8).collect() };
    let (mut cursor, _) = input.open(false).unwrap();
    let mut all = Vec::new();
    for n in [1, 0, 7, 40, 3, 100, 5] {
        all.extend_from_slice(input.read(&mut cursor, n, false).unwrap());
    }
    assert_eq!(all, input.bytes);
}

fn rect(left: i32, top: i32, right: i32, bottom: i32) -> Rect {
    Rect { left, top, right, bottom }
}

#[test]
fn frames_are_letterboxed() {
    let frame = negotiate(720, 1280).unwrap();
    let blit = match plan_paint(true, rect(10, 20, 410, 320), Some(frame)) {
        PaintPlan::Compose(blit) => blit,
        other => panic!("{other:?}"),
    };
    assert_eq!((blit.width, blit.height), (400, 300));
    assert_eq!((blit.w, blit.h), (169, 300));
    assert_eq!((blit.x, blit.y), (115, 0));
    assert_eq!((blit.frame_width, blit.frame_height, blit.bitmap_width), (720, 1280, 720));
}

#[test]
fn letterboxing_matches_double_precision() {
    for (fw, fh) in [(1u32, 1u32), (720, 1280), (1280, 7), (333, 1279), (101, 103)] {
        let frame = negotiate(fw, fh).unwrap();
        for width in [1i32, 2, 3, 99, 400, 1921, 65536, i32::MAX] {
            for height in [1i32, 17, 300, 1080, 70000] {
                let scale = (width as f64 / fw as f64).min(height as f64 / fh as f64);
                let w = (fw as f64 * scale).round() as i32;
                let h = (fh as f64 * scale).round() as i32;
                match plan_paint(true, rect(0, 0, width, height), Some(frame)) {
                    PaintPlan::Compose(blit) => {
                        assert_eq!((blit.w, blit.h), (w, h), "{fw}x{fh} in {width}x{height}");
                        assert_eq!((blit.x, blit.y), ((width - w) / 2, (height - h) / 2));
                        assert!(blit.w <= width && blit.h <= height);
                    }
                    other => panic!("{other:?}"),
                }
            }
        }
    }
}

#[test]
fn painting_is_declined_or_repeated() {
    let frame = negotiate(10, 10);
    assert_eq!(plan_paint(false, rect(0, 0, 9, 9), frame), PaintPlan::Decline);
    assert_eq!(plan_paint(true, rect(0, 0, 0, 9), frame), PaintPlan::Nothing);
    assert_eq!(plan_paint(true, rect(5, 5, 4, 9), frame), PaintPlan::Nothing);
    assert_eq!(plan_paint(true, rect(0, 0, 9, 9), None), PaintPlan::Present);
}

#[test]
fn first_frame_announces_playback() {
    let mut shown = false;
    assert_eq!(
        publish_frame(false, &mut shown),
        Publication { publish: true, begins: true }
    );
    assert_eq!(
        publish_frame(false, &mut shown),
        Publication { publish: true, begins: false }
    );
    let mut shown = false;
    assert_eq!(
        publish_frame(true, &mut shown),
        Publication { publish: false, begins: false }
    );
    assert!(!shown);
}

fn step(worker: &mut FallbackWorker, reply: FallbackReply) -> (Option<Notice>, FallbackAction) {
    assert!(worker.accepts(reply), "{:?} does not await {reply:?}", worker.stage);
    let directive = worker.step(reply);
    (directive.notice, directive.action)
}

fn running() -> FallbackWorker {
    let mut worker = FallbackWorker::new();
    for expected in [
        FallbackSetup::GetEngine,
        FallbackSetup::OpenMedia,
        FallbackSetup::CreatePlayer,
        FallbackSetup::Activate,
    ] {
        assert_eq!(
            step(&mut worker, FallbackReply::Done),
            (None, FallbackAction::Setup(expected))
        );
    }
    assert_eq!(
        step(&mut worker, FallbackReply::Done),
        (None, FallbackAction::CheckShutdown)
    );
    worker
}

fn request(worker: &mut FallbackWorker, request: Request) -> FallbackAction {
    assert_eq!(
        step(worker, FallbackReply::Flag(false)),
        (None, FallbackAction::Receive)
    );
    assert_eq!(
        step(worker, FallbackReply::Received(Received::Timeout)),
        (None, FallbackAction::TakeRequest)
    );
    step(worker, FallbackReply::Request(request)).1
}

fn started() -> FallbackWorker {
    let mut worker = running();
    assert_eq!(request(&mut worker, Request::Play), FallbackAction::Play { stop: false });
    assert_eq!(
        step(&mut worker, FallbackReply::Code(0)),
        (None, FallbackAction::ReadState)
    );
    assert_eq!(
        step(&mut worker, FallbackReply::Code(3)),
        (None, FallbackAction::ReadShown)
    );
    assert_eq!(
        step(&mut worker, FallbackReply::Flag(true)),
        (None, FallbackAction::CheckShutdown)
    );
    worker
}

fn end(result: Result<(), i32>) -> FallbackAction {
    FallbackAction::Finish { result, release_player: true, release_media: true }
}

#[test]
fn missing_pieces_end_the_fallback() {
    for (done, release_player, release_media) in
        [(0, false, false), (1, false, false), (2, false, false), (3, false, true), (4, true, true)]
    {
        let mut worker = FallbackWorker::new();
        for _ in 0..done {
            step(&mut worker, FallbackReply::Done);
        }
        assert_eq!(
            step(&mut worker, FallbackReply::Missing).1,
            FallbackAction::Finish { result: Err(E_FAIL), release_player, release_media }
        );
    }
    let mut worker = FallbackWorker::new();
    assert_eq!(
        step(&mut worker, FallbackReply::Failed(-2)).1,
        FallbackAction::Finish { result: Err(-2), release_player: false, release_media: false }
    );
}

#[test]
fn replay_stops_the_player_first() {
    let mut worker = started();
    assert_eq!(request(&mut worker, Request::Play), FallbackAction::Play { stop: true });
    let mut worker = running();
    assert_eq!(request(&mut worker, Request::Play), FallbackAction::Play { stop: false });
    assert_eq!(step(&mut worker, FallbackReply::Code(-1)), (None, end(Err(E_FAIL))));
}

#[test]
fn pause_and_resume_are_reported() {
    let mut worker = running();
    assert_eq!(request(&mut worker, Request::Pause), FallbackAction::ReadState);
    let mut worker = started();
    assert_eq!(request(&mut worker, Request::Pause), FallbackAction::SetPause(true));
    step(&mut worker, FallbackReply::Done);
    assert_eq!(
        step(&mut worker, FallbackReply::Code(4)),
        (Some(Notice::Paused), FallbackAction::ReadShown)
    );
    step(&mut worker, FallbackReply::Flag(true));
    assert_eq!(request(&mut worker, Request::Resume), FallbackAction::SetPause(false));
    step(&mut worker, FallbackReply::Done);
    assert_eq!(
        step(&mut worker, FallbackReply::Code(3)),
        (Some(Notice::Playing), FallbackAction::ReadShown)
    );
    step(&mut worker, FallbackReply::Flag(true));
    assert_eq!(request(&mut worker, Request::Nothing), FallbackAction::ReadState);
    assert_eq!(
        step(&mut worker, FallbackReply::Code(3)),
        (None, FallbackAction::ReadShown)
    );
}

#[test]
fn ends_and_errors_of_the_decoder() {
    let mut worker = started();
    request(&mut worker, Request::Nothing);
    let mut other = worker;
    let mut broken = worker;
    assert_eq!(
        step(&mut worker, FallbackReply::Code(6)),
        (None, FallbackAction::ReadShown)
    );
    assert_eq!(worker.stage, FallbackStage::JudgingEnd);
    assert_eq!(
        step(&mut worker, FallbackReply::Flag(true)),
        (Some(Notice::Ended), FallbackAction::ReadShown)
    );
    step(&mut other, FallbackReply::Code(6));
    assert_eq!(step(&mut other, FallbackReply::Flag(false)), (None, end(Err(E_FAIL))));
    assert_eq!(step(&mut broken, FallbackReply::Code(7)), (None, end(Err(E_FAIL))));
}

#[test]
fn first_frame_has_a_time_limit() {
    let mut worker = running();
    request(&mut worker, Request::Play);
    step(&mut worker, FallbackReply::Code(0));
    step(&mut worker, FallbackReply::Code(1));
    assert_eq!(
        step(&mut worker, FallbackReply::Flag(false)),
        (None, FallbackAction::ReadClock)
    );
    let mut late = worker;
    assert_eq!(
        step(&mut worker, FallbackReply::Elapsed(15_000_000_000)),
        (None, FallbackAction::CheckShutdown)
    );
    assert_eq!(
        step(&mut late, FallbackReply::Elapsed(15_000_000_001)),
        (None, end(Err(E_FAIL)))
    );
}

#[test]
fn shutdown_of_the_fallback_is_no_error() {
    let mut worker = running();
    let mut other = worker;
    assert_eq!(step(&mut worker, FallbackReply::Flag(true)), (None, end(Ok(()))));
    step(&mut other, FallbackReply::Flag(false));
    assert_eq!(
        step(&mut other, FallbackReply::Received(Received::Disconnected)),
        (None, end(Ok(())))
    );
    let mut commanded = running();
    step(&mut commanded, FallbackReply::Flag(false));
    assert_eq!(
        step(
            &mut commanded,
            FallbackReply::Received(Received::Command(PlayerCommand::Repaint))
        ),
        (None, FallbackAction::TakeRequest)
    );
}

fn wide(text: &str) -> Vec<u16> {
    text.encode_utf16().collect()
}

#[test]
fn runtime_lies_next_to_the_module() {
    let mut buffer = wide("C:\\Apps\\ArcThumb\\arcthumb.dll");
    let len = buffer.len();
    buffer.resize(len + 5, 0);
    assert_eq!(
        runtime_path(&buffer, len).unwrap(),
        wide("C:\\Apps\\ArcThumb\\libvlc\\libvlc.dll\0")
    );
    let buffer = wide("arcthumb.dll\0");
    assert_eq!(
        runtime_path(&buffer, 12).unwrap(),
        wide("libvlc\\libvlc.dll\0")
    );
    assert_eq!(runtime_path(&buffer, 0), Err(E_FAIL));
    assert_eq!(runtime_path(&buffer, 13), Err(E_FAIL));
}

#[test]
fn engine_stays_away_from_the_users_configuration() {
    assert_eq!(ENGINE_OPTIONS.len(), 13);
    assert_eq!(ENGINE_OPTIONS[0], "--ignore-config");
    assert!(ENGINE_OPTIONS.contains(&"--avcodec-hw=none"));
}

#[test]
fn runtime_needs_all_of_its_functions() {
    assert_eq!(RUNTIME_SYMBOLS[0], "libvlc_new");
    let mut addresses = [7usize; 11];
    assert_eq!(check_symbols(addresses), Ok(()));
    addresses[10] = 0;
    assert_eq!(check_symbols(addresses), Err(E_FAIL));
}

#[test]
fn runtime_path_follows_the_rules_for_paths() {
    for (module, runtime) in [
        ("C:\\arcthumb.dll", "C:\\libvlc\\libvlc.dll"),
        ("C:arcthumb.dll", "C:libvlc\\libvlc.dll"),
        ("C:\\Apps\\\\arcthumb.dll", "C:\\Apps\\libvlc\\libvlc.dll"),
        ("C:/Apps/arcthumb.dll", "C:/Apps\\libvlc\\libvlc.dll"),
        ("\\arcthumb.dll", "\\libvlc\\libvlc.dll"),
        ("\\\\?\\C:\\Apps\\a/b.dll", "\\\\?\\C:\\Apps\\libvlc\\libvlc.dll"),
        ("\\\\server\\share\\a.dll", "\\\\server\\share\\libvlc\\libvlc.dll"),
        ("\\\\server\\share", "\\\\server\\share\\libvlc\\libvlc.dll"),
        ("\\\\server\\share\\", "\\\\server\\share\\libvlc\\libvlc.dll"),
        ("C:\\dir\\", "C:\\libvlc\\libvlc.dll"),
        ("C:\\dir\\.\\a.dll", "C:\\dir\\libvlc\\libvlc.dll"),
        ("C:\\dir\\a.dll\\.", "C:\\dir\\libvlc\\libvlc.dll"),
        ("C:\\", "C:\\libvlc\\libvlc.dll"),
        ("C:\\dir\\..", "C:\\dir\\libvlc\\libvlc.dll"),
        (".\\a.dll", ".\\libvlc\\libvlc.dll"),
        (".", "libvlc\\libvlc.dll"),
        ("dir/a.dll", "dir\\libvlc\\libvlc.dll"),
        ("\\\\?\\C:\\a.dll", "\\\\?\\C:\\libvlc\\libvlc.dll"),
        ("\\\\?\\C:\\x\\\\y\\a.dll", "\\\\?\\C:\\x\\y\\libvlc\\libvlc.dll"),
        (
            "\\\\?\\UNC\\server\\share\\a.dll",
            "\\\\?\\UNC\\server\\share\\libvlc\\libvlc.dll",
        ),
    ] {
        let mut buffer = wide(module);
        let len = buffer.len();
        buffer.push(0);
        let mut expected = wide(runtime);
        expected.push(0);
        assert_eq!(runtime_path(&buffer, len).unwrap(), expected, "{module}");
    }
}
