use arcthumb::hresult::{E_FAIL, MF_E_NO_EVENTS_AVAILABLE};
use arcthumb::preview::video::{
    decode_notice, detect_mov_codec, encode_notice, failure_notice, next_player_token,
    pack_notice_status, plan_stream, plan_topology, unpack_notice_status, Action, Notice,
    PlaybackWorker, PlayerCommand, Received, Reply, SetupStep, Stage, StreamInfo, StreamPlan,
    VideoCodec, END_OF_PRESENTATION, MEDIA_TYPE_AUDIO, MEDIA_TYPE_VIDEO, SESSION_CLOSED,
    SESSION_TOPOLOGY_STATUS, TOPOLOGY_READY,
};

#[test]
fn detects_h264_and_hevc_sample_entries() {
    assert_eq!(detect_mov_codec(b"....avc1...."), VideoCodec::H264);
    assert_eq!(detect_mov_codec(b"....avc3...."), VideoCodec::H264);
    assert_eq!(detect_mov_codec(b"....hvc1...."), VideoCodec::Hevc);
    assert_eq!(detect_mov_codec(b"....hev1...."), VideoCodec::Hevc);
    assert_eq!(detect_mov_codec(b"not an mp4"), VideoCodec::Unknown);
}

#[test]
fn hevc_hint_wins_if_multiple_tags_exist() {
    assert_eq!(detect_mov_codec(b"avc1 metadata hvc1"), VideoCodec::Hevc);
    assert_eq!(detect_mov_codec(b"hev1avc1"), VideoCodec::Hevc);
}

#[test]
fn short_clips_have_no_codec() {
    assert_eq!(detect_mov_codec(b""), VideoCodec::Unknown);
    assert_eq!(detect_mov_codec(b"vc1"), VideoCodec::Unknown);
    assert_eq!(detect_mov_codec(b"avc1"), VideoCodec::H264);
    assert_eq!(detect_mov_codec(b"avc2"), VideoCodec::Unknown);
    assert_eq!(detect_mov_codec(b"xhvc1"), VideoCodec::Hevc);
}

fn step(worker: &mut PlaybackWorker, reply: Reply) -> (Option<Notice>, Action) {
    assert!(worker.accepts(reply), "{:?} does not await {reply:?}", worker.stage);
    let directive = worker.step(reply);
    (directive.notice, directive.action)
}

fn order(worker: &mut PlaybackWorker, command: PlayerCommand) -> (Option<Notice>, Action) {
    step(worker, Reply::Received(Received::Command(command)))
}

const QUIET: Reply = Reply::Failed(MF_E_NO_EVENTS_AVAILABLE);

fn waiting() -> PlaybackWorker {
    let mut worker = PlaybackWorker::new(320, 200);
    for _ in 0..9 {
        step(&mut worker, Reply::Done);
    }
    assert_eq!(worker.stage, Stage::Waiting);
    worker
}

fn event(worker: &mut PlaybackWorker, kind: u32) -> (Option<Notice>, Action) {
    assert_eq!(step(worker, Reply::Done), (None, Action::ReadStatus));
    assert_eq!(step(worker, Reply::Status(0)), (None, Action::ReadType));
    step(worker, Reply::Value(kind))
}

fn playing() -> PlaybackWorker {
    let mut worker = waiting();
    step(&mut worker, Reply::Received(Received::Timeout));
    assert_eq!(
        event(&mut worker, SESSION_TOPOLOGY_STATUS),
        (None, Action::ReadTopologyStatus)
    );
    assert_eq!(
        step(&mut worker, Reply::Value(TOPOLOGY_READY)),
        (None, Action::FindDisplay)
    );
    assert_eq!(step(&mut worker, Reply::Done), (None, Action::SetAspect));
    assert_eq!(step(&mut worker, Reply::Done), (None, Action::Resize(320, 200)));
    assert_eq!(
        step(&mut worker, Reply::Done),
        (None, Action::Start { rewind: false })
    );
    assert_eq!(
        step(&mut worker, Reply::Done),
        (Some(Notice::Playing), Action::PollEvent)
    );
    assert_eq!(step(&mut worker, QUIET), (None, Action::Receive));
    worker
}

#[test]
fn setup_runs_in_order() {
    let mut worker = PlaybackWorker::new(0, -5);
    assert_eq!((worker.width, worker.height), (1, 1));
    assert_eq!(worker.stage, Stage::Setup(SetupStep::EnterApartment));
    for expected in [
        SetupStep::StartPlatform,
        SetupStep::OpenStream,
        SetupStep::OpenByteStream,
        SetupStep::CreateResolver,
        SetupStep::ResolveSource,
        SetupStep::BuildTopology,
        SetupStep::CreateSession,
        SetupStep::AttachTopology,
    ] {
        assert_eq!(step(&mut worker, Reply::Done), (None, Action::Setup(expected)));
    }
    assert_eq!(step(&mut worker, Reply::Done), (None, Action::Receive));
}

#[test]
fn failed_setup_leaves_what_it_entered() {
    for (done, stop_platform, leave_apartment) in
        [(0, false, false), (1, false, true), (2, true, true), (8, true, true)]
    {
        let mut worker = PlaybackWorker::new(1, 1);
        for _ in 0..done {
            step(&mut worker, Reply::Done);
        }
        assert_eq!(
            step(&mut worker, Reply::Failed(-77)).1,
            Action::Finish { result: Err(-77), stop_platform, leave_apartment }
        );
    }
    let mut worker = PlaybackWorker::new(1, 1);
    step(&mut worker, Reply::Done);
    step(&mut worker, Reply::Done);
    assert_eq!(
        step(&mut worker, Reply::Missing).1,
        Action::Finish { result: Err(E_FAIL), stop_platform: true, leave_apartment: true }
    );
}

#[test]
fn clip_starts_when_the_topology_is_ready() {
    let worker = playing();
    assert!(worker.playing && worker.ready && worker.display);
}

#[test]
fn clip_starts_without_a_display_too() {
    let mut worker = waiting();
    step(&mut worker, Reply::Received(Received::Timeout));
    event(&mut worker, SESSION_TOPOLOGY_STATUS);
    step(&mut worker, Reply::Value(TOPOLOGY_READY));
    assert_eq!(
        step(&mut worker, Reply::Failed(-1)),
        (None, Action::Start { rewind: false })
    );
    step(&mut worker, Reply::Done);
    step(&mut worker, QUIET);
    assert_eq!(order(&mut worker, PlayerCommand::Repaint), (None, Action::PollEvent));
    step(&mut worker, QUIET);
    assert_eq!(order(&mut worker, PlayerCommand::Resize(9, 9)), (None, Action::PollEvent));
    assert_eq!((worker.width, worker.height), (9, 9));
}

#[test]
fn orders_before_ready_do_nothing() {
    let mut worker = waiting();
    for command in [PlayerCommand::Toggle, PlayerCommand::Replay, PlayerCommand::Repaint] {
        assert_eq!(order(&mut worker, command), (None, Action::PollEvent));
        assert_eq!(step(&mut worker, QUIET), (None, Action::Receive));
    }
    assert!(!worker.playing);
}

#[test]
fn toggling_pauses_and_resumes() {
    let mut worker = playing();
    let before = worker;
    assert_eq!(order(&mut worker, PlayerCommand::Toggle), (None, Action::Pause));
    assert_eq!(
        step(&mut worker, Reply::Done),
        (Some(Notice::Paused), Action::PollEvent)
    );
    step(&mut worker, QUIET);
    assert_eq!(
        order(&mut worker, PlayerCommand::Toggle),
        (None, Action::Start { rewind: false })
    );
    assert_eq!(
        step(&mut worker, Reply::Done),
        (Some(Notice::Playing), Action::PollEvent)
    );
    step(&mut worker, QUIET);
    assert_eq!(worker, before);
}

#[test]
fn ended_clip_plays_from_the_beginning() {
    let mut worker = playing();
    step(&mut worker, Reply::Received(Received::Timeout));
    assert_eq!(
        event(&mut worker, END_OF_PRESENTATION),
        (Some(Notice::Ended), Action::PollEvent)
    );
    step(&mut worker, QUIET);
    assert_eq!(
        order(&mut worker, PlayerCommand::Toggle),
        (None, Action::Start { rewind: true })
    );
    step(&mut worker, Reply::Done);
    step(&mut worker, QUIET);
    assert_eq!(
        order(&mut worker, PlayerCommand::Replay),
        (None, Action::Start { rewind: true })
    );
}

#[test]
fn resizing_keeps_a_pixel() {
    let mut worker = playing();
    assert_eq!(
        order(&mut worker, PlayerCommand::Resize(0, 30)),
        (None, Action::Resize(1, 30))
    );
    assert_eq!(step(&mut worker, Reply::Done), (None, Action::PollEvent));
    step(&mut worker, QUIET);
    assert_eq!(order(&mut worker, PlayerCommand::Repaint), (None, Action::Repaint));
}

#[test]
fn failing_operations_and_events_end_the_worker() {
    let end = |code| Action::Finish { result: Err(code), stop_platform: true, leave_apartment: true };
    let mut worker = playing();
    order(&mut worker, PlayerCommand::Toggle);
    assert_eq!(step(&mut worker, Reply::Failed(-5)), (None, end(-5)));
    let mut worker = playing();
    step(&mut worker, Reply::Received(Received::Timeout));
    step(&mut worker, Reply::Done);
    assert_eq!(step(&mut worker, Reply::Status(-6)), (None, end(-6)));
    let mut worker = playing();
    step(&mut worker, Reply::Received(Received::Timeout));
    assert_eq!(step(&mut worker, Reply::Failed(-8)), (None, end(-8)));
}

#[test]
fn shutdown_waits_a_moment_for_the_session() {
    let end = Action::Finish { result: Ok(()), stop_platform: true, leave_apartment: true };
    let mut worker = playing();
    assert_eq!(order(&mut worker, PlayerCommand::Shutdown), (None, Action::PollEvent));
    assert_eq!(step(&mut worker, QUIET), (None, Action::Close));
    assert_eq!(step(&mut worker, Reply::Failed(-1)), (None, Action::ReadClock));
    assert_eq!(step(&mut worker, Reply::Elapsed(499)), (None, Action::PollEvent));
    assert_eq!(step(&mut worker, QUIET), (None, Action::Sleep));
    assert_eq!(step(&mut worker, Reply::Done), (None, Action::ReadClock));
    assert_eq!(step(&mut worker, Reply::Elapsed(0)), (None, Action::PollEvent));
    assert_eq!(step(&mut worker, Reply::Done), (None, Action::ReadType));
    assert_eq!(step(&mut worker, Reply::Value(1)), (None, Action::ReadClock));
    let mut closed = worker;
    step(&mut closed, Reply::Elapsed(1));
    step(&mut closed, Reply::Done);
    assert_eq!(step(&mut closed, Reply::Value(SESSION_CLOSED)), (None, end));
    assert_eq!(step(&mut worker, Reply::Elapsed(500)), (None, end));
    assert!(!worker.accepts(Reply::Done));
}

#[test]
fn losing_the_window_shuts_the_worker_down() {
    let mut worker = waiting();
    step(&mut worker, Reply::Received(Received::Disconnected));
    assert_eq!(step(&mut worker, QUIET), (None, Action::Close));
}

fn stream(described: bool, selected: bool, major_type: u128) -> StreamInfo {
    StreamInfo { described, selected, major_type }
}

#[test]
fn streams_go_to_their_renderers() {
    assert_eq!(plan_stream(stream(true, true, MEDIA_TYPE_VIDEO)), StreamPlan::Video);
    assert_eq!(plan_stream(stream(true, true, MEDIA_TYPE_AUDIO)), StreamPlan::Audio);
    assert_eq!(plan_stream(stream(true, true, 5)), StreamPlan::Deselect);
    assert_eq!(plan_stream(stream(true, false, MEDIA_TYPE_VIDEO)), StreamPlan::Skip);
    assert_eq!(plan_stream(stream(false, true, MEDIA_TYPE_VIDEO)), StreamPlan::Skip);
}

#[test]
fn topologies_need_a_video_stream() {
    let audio = stream(true, true, MEDIA_TYPE_AUDIO);
    let video = stream(true, true, MEDIA_TYPE_VIDEO);
    let hidden = stream(true, false, MEDIA_TYPE_VIDEO);
    assert_eq!(
        plan_topology(&[audio, video, hidden]).unwrap(),
        vec![StreamPlan::Audio, StreamPlan::Video, StreamPlan::Skip]
    );
    assert_eq!(plan_topology(&[audio, hidden]), Err(E_FAIL));
    assert_eq!(plan_topology(&[]), Err(E_FAIL));
}

#[test]
fn notices_travel_through_messages() {
    for notice in [Notice::Playing, Notice::Paused, Notice::Ended, Notice::Failed(E_FAIL)] {
        let (number, status) = encode_notice(notice);
        assert_eq!(decode_notice(number, status), Some(notice));
    }
    assert_eq!(encode_notice(Notice::Playing).0, 1);
    assert_eq!(encode_notice(Notice::Failed(-3)), (4, -3));
    assert_eq!(decode_notice(0, 0), None);
    assert_eq!(decode_notice(5, 0), None);
    assert_eq!(failure_notice(Ok(())), None);
    assert_eq!(failure_notice(Err(-3)), Some(Notice::Failed(-3)));
}

#[test]
fn tokens_and_status_codes_share_a_word() {
    assert_eq!(pack_notice_status(1, 0), 0x1_0000_0000);
    assert_eq!(pack_notice_status(2, -1), 0x2_ffff_ffff);
    for token in [0, 1, 77, u32::MAX] {
        for status in [0, 1, -1, E_FAIL, i32::MIN, i32::MAX] {
            let word = pack_notice_status(token, status);
            assert_eq!(unpack_notice_status(word), (token, status));
        }
    }
}

#[test]
fn player_tokens_are_fresh() {
    let mut counter = 0;
    assert_eq!(next_player_token(&mut counter), 1);
    assert_eq!(next_player_token(&mut counter), 2);
    assert_eq!(next_player_token(&mut counter), 3);
}
