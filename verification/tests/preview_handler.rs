use arcthumb::hresult::{CLASS_E_NOAGGREGATION, E_FAIL, E_NOINTERFACE, E_POINTER, S_FALSE};
use arcthumb::preview::geometry::Rect;
use arcthumb::preview::handler::{
    request_for, ArcThumbPreviewClassFactory, ArcThumbPreviewHandler, PendingLoad, PlayerOrder, PlayerPlan,
    PreviewVideoState, RectChange, WindowMove, WindowPlan, VK_RETURN, VK_SPACE, WM_KEYDOWN,
};
use arcthumb::preview::load::{LoadOutcome, LoadedPreview};
use arcthumb::preview::surface::{
    judge_buffer, BufferSteps, Cleanup, Preparation, Surface,
};
use arcthumb::preview::video::{
    pack_notice_status, VideoCodec, NOTICE_ENDED, NOTICE_FAILED, NOTICE_PAUSED, NOTICE_PLAYING,
};

use arcthumb::preview::vlc::Request;

type Handler = ArcThumbPreviewHandler<&'static str, u8, u8, u8, u8, &'static str, &'static str>;

fn rect(left: i32, top: i32, right: i32, bottom: i32) -> Rect {
    Rect { left, top, right, bottom }
}

fn loaded(video_bytes: Option<u8>, video_codec: VideoCodec) -> Option<LoadOutcome<u8, u8>> {
    Some(LoadOutcome::Ready(LoadedPreview { image: 1, video_bytes, video_codec }))
}

fn with_window() -> Handler {
    let mut handler = Handler::new();
    handler.initialize(Some("stream"));
    handler.set_window(10, Some(rect(0, 0, 400, 300)));
    assert_eq!(handler.begin_preview(), Ok(("stream", true)));
    assert_eq!(handler.window_created(Ok(20)), Ok(20));
    handler
}

fn live_photo(codec: VideoCodec) -> Handler {
    let mut handler = with_window();
    handler.begin_load();
    handler.load_started(Ok(PendingLoad { token: 3, slot: "job" })).unwrap();
    assert_eq!(handler.claim_load(3), Some("job"));
    assert_eq!(handler.finish_load(loaded(Some(9), codec)), Some(20));
    handler
}

fn playing() -> Handler {
    let mut handler = live_photo(VideoCodec::H264);
    let mut counter = 5;
    handler.toggle_video(&mut counter);
    assert_eq!(handler.player_started(Ok("player")), None);
    assert_eq!(
        handler.handle_video_notice(NOTICE_PLAYING, pack_notice_status(5, 0)),
        None
    );
    handler
}

#[test]
fn preview_class_factory_creates_handler() {
    let factory = ArcThumbPreviewClassFactory;
    assert_eq!(factory.create_instance(false, false, false), Ok(()));
    assert_eq!(Handler::new().window(), 0);
}

#[test]
fn preview_factory_checks_its_arguments() {
    let factory = ArcThumbPreviewClassFactory;
    assert_eq!(
        factory.create_instance(true, false, true),
        Err(CLASS_E_NOAGGREGATION)
    );
    assert_eq!(factory.create_instance(false, true, true), Err(E_POINTER));
    assert_eq!(factory.lock_server(false), Ok(()));
}

#[test]
fn preview_handler_end_to_end() {
    let mut handler = Handler::new();
    handler.initialize(Some("stream"));
    assert_eq!(handler.set_window(77, Some(rect(0, 0, 400, 400))), None);
    assert_eq!(
        handler.set_rect(Some(rect(0, 0, 400, 400))),
        Ok(RectChange { player_size: None, moved: None })
    );
    assert_eq!(handler.begin_preview(), Ok(("stream", true)));
    assert_eq!(
        handler.plan_window(),
        Ok(WindowPlan { parent: 77, x: 0, y: 0, width: 400, height: 400 })
    );
    assert_eq!(handler.window_created(Ok(42)), Ok(42));
    let plan = handler.begin_load();
    assert_eq!(plan.target_px, 400);
    assert_eq!(plan.window, 42);
    assert!(plan.cancelled.is_none());
    assert_eq!(
        handler.load_started(Ok(PendingLoad { token: 1, slot: "job" })),
        Ok(42)
    );

    // The child window is known now, and Unload tears it down.
    assert_eq!(handler.window(), 42);
    let teardown = handler.unload();
    assert_eq!(teardown.window, Some(42));
    assert_eq!(teardown.load, Some("job"));
    assert_eq!(handler.window(), 0);
}

#[test]
fn preview_handler_unload_is_safe_without_dopreview() {
    let mut handler = Handler::new();
    let teardown = handler.unload();
    assert!(teardown.player.is_none());
    assert!(teardown.load.is_none());
    assert!(teardown.window.is_none());
    let again = handler.unload();
    assert!(again.window.is_none());
}

#[test]
fn preview_needs_a_stream_and_a_parent() {
    let mut handler = Handler::new();
    assert_eq!(handler.begin_preview(), Err(E_FAIL));
    assert_eq!(handler.plan_window(), Err(E_FAIL));
    handler.initialize(Some("s"));
    assert_eq!(handler.begin_preview(), Ok(("s", true)));
    assert_eq!(handler.begin_preview(), Err(E_FAIL));
    assert_eq!(handler.window_created(Err(-5)), Err(E_FAIL));
    assert_eq!(handler.window(), 0);
    assert_eq!(handler.load_started(Err(-5)), Err(E_FAIL));
}

#[test]
fn site_is_kept_for_the_host() {
    let mut handler = Handler::new();
    assert_eq!(handler.get_site(false, false), Err(E_NOINTERFACE));
    assert_eq!(handler.get_site(true, false), Err(E_POINTER));
    handler.set_site(Some(8));
    assert_eq!(handler.get_site(false, true), Err(E_POINTER));
    assert_eq!(handler.get_site(false, false), Ok(&8));
    handler.unload();
    assert_eq!(handler.get_site(false, false), Ok(&8));
}

#[test]
fn windows_follow_parents_and_rectangles() {
    let mut handler = with_window();
    let moved = |x, y, width, height| WindowMove { window: 20, x, y, width, height };
    assert_eq!(handler.set_window(11, None), Some(moved(0, 0, 400, 300)));
    assert_eq!(handler.set_window(0, Some(rect(1, 2, 11, 22))), None);
    assert_eq!(handler.set_rect(None), Err(E_POINTER));
    assert_eq!(
        handler.set_rect(Some(rect(5, 6, 15, 26))),
        Ok(RectChange { player_size: None, moved: Some(moved(5, 6, 10, 20)) })
    );
    let mut handler = playing();
    assert_eq!(
        handler.set_rect(Some(rect(0, 0, 30, 40))).unwrap().player_size,
        Some((30, 40))
    );
}

#[test]
fn windows_and_targets_are_never_empty() {
    let mut handler = Handler::new();
    handler.set_window(1, Some(rect(3, 4, 2, 4)));
    assert_eq!(
        handler.plan_window(),
        Ok(WindowPlan { parent: 1, x: 3, y: 4, width: 1, height: 1 })
    );
    assert_eq!(handler.begin_load().target_px, 1);
    handler.set_window(1, Some(rect(0, 0, 9000, 10)));
    assert_eq!(handler.begin_load().target_px, 2560);
}

#[test]
fn rectangles_know_their_extents() {
    assert!(rect(0, 0, i32::MAX, 1).has_extents());
    assert!(!rect(-2, 0, i32::MAX, 1).has_extents());
    assert!(!rect(0, i32::MIN, 0, i32::MAX).has_extents());
    assert_eq!(rect(2, 3, 10, 7).width(), 8);
    assert_eq!(rect(2, 3, 10, 7).height(), 4);
}

#[test]
fn new_loads_cancel_old_ones() {
    let mut handler = with_window();
    handler.begin_load();
    handler.load_started(Ok(PendingLoad { token: 1, slot: "old" })).unwrap();
    assert_eq!(handler.begin_load().cancelled, Some("old"));
    assert_eq!(handler.begin_load().cancelled, None);
}

#[test]
fn stale_loads_are_ignored() {
    let mut handler = with_window();
    handler.load_started(Ok(PendingLoad { token: 7, slot: "job" })).unwrap();
    assert_eq!(handler.claim_load(6), None);
    assert_eq!(handler.claim_load(0), None);
    assert_eq!(handler.claim_load(7), Some("job"));
    assert_eq!(handler.claim_load(7), None);
    assert_eq!(handler.finish_load(None), None);
}

#[test]
fn loads_decide_what_is_shown() {
    let mut handler = with_window();
    handler.load_started(Ok(PendingLoad { token: 7, slot: "job" })).unwrap();
    assert_eq!(handler.video_overlay_text(), Some("Loading preview..."));
    handler.claim_load(7);
    assert_eq!(handler.finish_load(Some(LoadOutcome::Failed)), Some(20));
    assert_eq!(handler.video_state, PreviewVideoState::LoadError);
    assert_eq!(handler.video_overlay_text(), Some("Preview is unavailable"));
    assert_eq!(handler.finish_load(loaded(None, VideoCodec::Unknown)), Some(20));
    assert_eq!(handler.video_state, PreviewVideoState::NoVideo);
    assert_eq!(handler.video_overlay_text(), None);
    assert_eq!(handler.finish_load(loaded(Some(1), VideoCodec::H264)), Some(20));
    assert_eq!(
        handler.video_overlay_text(),
        Some("Click or press Space to play Live Photo")
    );
}

#[test]
fn live_photo_plays_pauses_and_replays() {
    let mut handler = live_photo(VideoCodec::H264);
    let mut counter = 5;
    let effect = handler.toggle_video(&mut counter);
    assert_eq!(counter, 6);
    assert_eq!(effect.repaint, Some(20));
    assert_eq!(
        effect.start,
        Some(PlayerPlan { window: 20, width: 400, height: 300, token: 5 })
    );
    assert_eq!(handler.video_overlay_text(), Some("Opening Live Photo video..."));
    assert_eq!(handler.player_started(Ok("player")), None);
    // Clicks while it starts do nothing.
    let effect = handler.toggle_video(&mut counter);
    assert!(effect.start.is_none() && effect.order.is_none() && effect.repaint.is_none());

    handler.handle_video_notice(NOTICE_PLAYING, pack_notice_status(5, 0));
    assert_eq!(handler.video_state(), PreviewVideoState::Playing);
    assert_eq!(handler.request_video_repaint(), Some(&"player"));
    assert_eq!(handler.video_overlay_text(), None);
    assert_eq!(handler.toggle_video(&mut counter).order, Some(PlayerOrder::Toggle));
    handler.handle_video_notice(NOTICE_PAUSED, pack_notice_status(5, 0));
    assert_eq!(handler.video_state, PreviewVideoState::Paused);
    assert_eq!(
        handler.handle_video_notice(NOTICE_ENDED, pack_notice_status(5, 0)),
        Some(20)
    );
    assert_eq!(handler.video_state, PreviewVideoState::Ended);
    let effect = handler.toggle_video(&mut counter);
    assert_eq!(effect.order, Some(PlayerOrder::Replay));
    assert!(effect.retired.is_none() && effect.start.is_none());
    assert_eq!(handler.video_player, Some("player"));
    assert_eq!(counter, 6);
}

#[test]
fn notices_of_other_players_are_ignored() {
    let mut handler = playing();
    for word in [pack_notice_status(4, 0), pack_notice_status(0, 0), pack_notice_status(6, 0)] {
        assert_eq!(handler.handle_video_notice(NOTICE_ENDED, word), None);
        assert_eq!(handler.video_state, PreviewVideoState::Playing);
    }
    assert_eq!(handler.handle_video_notice(99, pack_notice_status(5, 0)), None);
    assert_eq!(handler.video_state, PreviewVideoState::Playing);
    handler.unload();
    assert_eq!(handler.handle_video_notice(NOTICE_ENDED, pack_notice_status(5, 0)), None);
    assert_eq!(handler.video_state, PreviewVideoState::NoVideo);
}

#[test]
fn failed_players_can_be_retried() {
    let mut handler = live_photo(VideoCodec::Hevc);
    let mut counter = 1;
    handler.toggle_video(&mut counter);
    assert_eq!(handler.player_started(Err(-9)), Some(20));
    assert_eq!(handler.video_error, -9);
    assert_eq!(handler.video_token, 0);
    assert_eq!(
        handler.video_overlay_text(),
        Some("H.265 unavailable - install Microsoft HEVC Video Extensions")
    );
    handler.toggle_video(&mut counter);
    handler.player_started(Ok("second"));
    assert_eq!(handler.video_token, 2);
    assert_eq!(
        handler.handle_video_notice(NOTICE_FAILED, pack_notice_status(2, E_FAIL)),
        Some(20)
    );
    assert_eq!(handler.video_error, E_FAIL);
    let effect = handler.toggle_video(&mut counter);
    assert_eq!(effect.retired, Some("second"));
    assert_eq!(effect.start.unwrap().token, 3);
}

#[test]
fn unavailable_codecs_are_named() {
    let mut handler = live_photo(VideoCodec::H264);
    let mut counter = 1;
    handler.toggle_video(&mut counter);
    handler.player_started(Err(-9));
    assert_eq!(
        handler.video_overlay_text(),
        Some("Live Photo video playback is unavailable")
    );
}

#[test]
fn unload_takes_everything_down() {
    let mut handler = playing();
    let teardown = handler.unload();
    assert_eq!(teardown.player, Some("player"));
    assert_eq!(teardown.window, Some(20));
    assert_eq!(handler.video_token, 0);
    assert_eq!(handler.video_codec, VideoCodec::Unknown);
    assert!(handler.source.is_none() && handler.video_bytes.is_none());
    let teardown = playing().release();
    assert_eq!(teardown.player, Some("player"));
    assert_eq!(teardown.window, Some(20));
}

#[test]
fn keys_and_focus() {
    let handler = Handler::new();
    assert_eq!(handler.set_focus(), Err(S_FALSE));
    assert_eq!(handler.query_focus(0), Err(S_FALSE));
    assert_eq!(handler.query_focus(3), Ok(3));
    assert_eq!(handler.translate_accelerator(None), Err(S_FALSE));
    assert_eq!(handler.translate_accelerator(Some((WM_KEYDOWN, VK_SPACE))), Ok(()));
    assert_eq!(handler.translate_accelerator(Some((WM_KEYDOWN, VK_RETURN))), Ok(()));
    assert_eq!(handler.translate_accelerator(Some((WM_KEYDOWN, 65))), Err(S_FALSE));
    assert_eq!(handler.translate_accelerator(Some((0, VK_SPACE))), Err(S_FALSE));
    assert_eq!(with_window().set_focus(), Ok(20));
}

#[test]
fn surfaces_are_reused_and_kept() {
    let mut surface: Surface<u8> = Surface::new();
    assert_eq!(surface.plan(0, 5), Preparation::Refuse);
    assert_eq!(surface.plan(5, -1), Preparation::Refuse);
    assert_eq!(surface.plan(5, 5), Preparation::Allocate);
    assert!(surface.replace(Some(1), 5, 5).is_none());
    assert_eq!(surface.plan(5, 5), Preparation::Reuse);
    assert_eq!(surface.plan(5, 6), Preparation::Allocate);
    assert!(surface.replace(None, 5, 6).is_none());
    assert_eq!(surface.present(rect(1, 1, 6, 6)).unwrap().dc, 1);
    assert!(surface.present(rect(1, 1, 6, 7)).is_none());
    assert_eq!(surface.replace(Some(2), 5, 6).unwrap().dc, 1);
    assert_eq!(surface.present(rect(1, 1, 6, 7)).unwrap().dc, 2);
}

#[test]
fn unfinished_buffers_are_deleted() {
    let steps = |dc, bitmap, previous| BufferSteps { dc, bitmap, previous };
    assert_eq!(judge_buffer(steps(1, Some(2), Some(3))), Ok(()));
    let cleanup = |delete_dc, delete_bitmap| Err(Cleanup { delete_dc, delete_bitmap });
    assert_eq!(judge_buffer(steps(0, None, None)), cleanup(false, false));
    assert_eq!(judge_buffer(steps(1, Some(0), None)), cleanup(true, false));
    assert_eq!(judge_buffer(steps(1, Some(2), Some(0))), cleanup(true, true));
    assert_eq!(judge_buffer(steps(1, Some(2), Some(-1))), cleanup(true, true));
}

#[test]
fn orders_reach_the_software_decoder_as_requests() {
    let playing = PreviewVideoState::Playing;
    let paused = PreviewVideoState::Paused;
    assert_eq!(request_for(PlayerOrder::Toggle, playing), Request::Pause);
    assert_eq!(request_for(PlayerOrder::Toggle, paused), Request::Resume);
    assert_eq!(
        request_for(PlayerOrder::Toggle, PreviewVideoState::Idle),
        Request::Nothing
    );
    assert_eq!(
        request_for(PlayerOrder::Replay, PreviewVideoState::Starting),
        Request::Play
    );
}

#[test]
fn rectangles_are_only_kept_until_they_are_needed() {
    let mut handler = Handler::new();
    let rect = Rect { left: i32::MIN, top: 0, right: i32::MAX, bottom: 1 };
    assert!(!rect.has_extents());
    assert_eq!(handler.set_window(5, Some(rect)), None);
    assert_eq!(handler.rect, rect);
    let change = handler.set_rect(Some(rect)).unwrap();
    assert_eq!((change.player_size, change.moved), (None, None));
}
