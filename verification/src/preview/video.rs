//! Playback of the MOV clip in a Live Photo through the system's media
//! pipeline.
//!
//! The clip stays in memory. A worker thread owns every media object and
//! takes its orders from a channel. What the worker does next is decided
//! here, by [`PlaybackWorker::step`]: the caller performs the action it
//! is given and hands the outcome back.

use vstd::prelude::*;

use crate::hresult::{E_FAIL, MF_E_NO_EVENTS_AVAILABLE};
use crate::preview::token::draw_token;

verus! {

/// What the sample entries of a clip say about its codec.
#[derive(Debug, Clone, Copy, PartialEq, Eq, Default, Structural)]
pub enum VideoCodec {
    H264,
    Hevc,
    #[default]
    Unknown,
}

/// Does the four-byte tag `tag` stand at position `at` of `bytes`?
pub open spec fn tag_at(bytes: Seq<u8>, at: int, tag: Seq<u8>) -> bool {
    0 <= at && at + tag.len() <= bytes.len() && bytes.subrange(at, at + tag.len()) == tag
}

/// Does the four-byte tag `tag` occur anywhere in `bytes`?
pub open spec fn has_tag(bytes: Seq<u8>, tag: Seq<u8>) -> bool {
    exists|at: int| #[trigger] tag_at(bytes, at, tag)
}

/// The tag `hvc1`.
pub open spec fn tag_hvc1() -> Seq<u8> {
    seq![0x68u8, 0x76, 0x63, 0x31]
}

/// The tag `hev1`.
pub open spec fn tag_hev1() -> Seq<u8> {
    seq![0x68u8, 0x65, 0x76, 0x31]
}

/// The tag `avc1`.
pub open spec fn tag_avc1() -> Seq<u8> {
    seq![0x61u8, 0x76, 0x63, 0x31]
}

/// The tag `avc3`.
pub open spec fn tag_avc3() -> Seq<u8> {
    seq![0x61u8, 0x76, 0x63, 0x33]
}

/// Codec hint for a clip: H.265 if one of its tags occurs anywhere,
/// otherwise H.264 if one of its tags does.
pub open spec fn codec_of(bytes: Seq<u8>) -> VideoCodec {
    if has_tag(bytes, tag_hvc1()) || has_tag(bytes, tag_hev1()) {
        VideoCodec::Hevc
    } else if has_tag(bytes, tag_avc1()) || has_tag(bytes, tag_avc3()) {
        VideoCodec::H264
    } else {
        VideoCodec::Unknown
    }
}

proof fn lemma_tag_at(bytes: Seq<u8>, at: int, a: u8, b: u8, c: u8, d: u8)
    requires
        0 <= at,
        at + 4 <= bytes.len(),
    ensures
        tag_at(bytes, at, seq![a, b, c, d]) == (bytes[at] == a && bytes[at + 1] == b && bytes[at
            + 2] == c && bytes[at + 3] == d),
{
    let tag = seq![a, b, c, d];
    let window = bytes.subrange(at, at + 4);
    if bytes[at] == a && bytes[at + 1] == b && bytes[at + 2] == c && bytes[at + 3] == d {
        assert(window =~= tag);
    }
    if window == tag {
        assert(window[0] == tag[0] && window[1] == tag[1] && window[2] == tag[2] && window[3]
            == tag[3]);
    }
}

/// Looks for the sample-entry tags of H.264 and H.265 in a clip. The
/// result only improves the message shown when no decoder is found.
pub fn detect_mov_codec(bytes: &[u8]) -> (codec: VideoCodec)
    ensures
        codec == codec_of(bytes@),
{
    let mut detected = VideoCodec::Unknown;
    let mut at: usize = 0;
    while at < bytes.len() && bytes.len() - at >= 4
        invariant
            at <= bytes.len(),
            forall|k: int| 0 <= k < at ==> !#[trigger] tag_at(bytes@, k, tag_hvc1()),
            forall|k: int| 0 <= k < at ==> !#[trigger] tag_at(bytes@, k, tag_hev1()),
            detected == VideoCodec::H264 || detected == VideoCodec::Unknown,
            detected == VideoCodec::H264 ==> has_tag(bytes@, tag_avc1()) || has_tag(
                bytes@,
                tag_avc3(),
            ),
            detected == VideoCodec::Unknown ==> forall|k: int|
                0 <= k < at ==> !#[trigger] tag_at(bytes@, k, tag_avc1()),
            detected == VideoCodec::Unknown ==> forall|k: int|
                0 <= k < at ==> !#[trigger] tag_at(bytes@, k, tag_avc3()),
        decreases bytes.len() - at,
    {
        let a = bytes[at];
        let b = bytes[at + 1];
        let c = bytes[at + 2];
        let d = bytes[at + 3];
        proof {
            lemma_tag_at(bytes@, at as int, 0x68, 0x76, 0x63, 0x31);
            lemma_tag_at(bytes@, at as int, 0x68, 0x65, 0x76, 0x31);
            lemma_tag_at(bytes@, at as int, 0x61, 0x76, 0x63, 0x31);
            lemma_tag_at(bytes@, at as int, 0x61, 0x76, 0x63, 0x33);
        }
        if a == 0x68 && d == 0x31 && ((b == 0x76 && c == 0x63) || (b == 0x65 && c == 0x76)) {
            return VideoCodec::Hevc;
        }
        if a == 0x61 && b == 0x76 && c == 0x63 && (d == 0x31 || d == 0x33) {
            detected = VideoCodec::H264;
        }
        at += 1;
    }
    detected
}

/// The H.265 hint wins wherever its tag stands: whatever comes before
/// and after it, other tags included.
pub proof fn hevc_tag_wins(before: Seq<u8>, bytes: Seq<u8>, after: Seq<u8>)
    requires
        codec_of(bytes) == VideoCodec::Hevc,
    ensures
        codec_of(before + bytes + after) == VideoCodec::Hevc,
{
    let tag = if has_tag(bytes, tag_hvc1()) {
        tag_hvc1()
    } else {
        tag_hev1()
    };
    let at = choose|at: int| #[trigger] tag_at(bytes, at, tag);
    let from = before.len() + at;
    let all = before + bytes + after;
    assert(all.subrange(from, from + tag.len()) =~= bytes.subrange(at, at + tag.len()));
    assert(tag_at(all, from, tag));
}

/// What the worker reports to the preview window.
#[derive(Debug, Clone, Copy, PartialEq, Eq, Structural)]
pub enum Notice {
    Playing,
    Paused,
    Ended,
    Failed(i32),
}

/// Orders that the preview window sends to the worker.
#[derive(Debug, Clone, Copy, PartialEq, Eq, Structural)]
pub enum PlayerCommand {
    Toggle,
    Replay,
    Resize(i32, i32),
    Repaint,
    Shutdown,
}

/// What came out of waiting for an order.
#[derive(Debug, Clone, Copy, PartialEq, Eq, Structural)]
pub enum Received {
    Command(PlayerCommand),
    Timeout,
    Disconnected,
}

/// What has to be set up, in this order, before orders are taken.
#[derive(Debug, Clone, Copy, PartialEq, Eq, Structural)]
pub enum SetupStep {
    EnterApartment,
    StartPlatform,
    OpenStream,
    OpenByteStream,
    CreateResolver,
    ResolveSource,
    BuildTopology,
    CreateSession,
    AttachTopology,
}

/// What the worker is waiting for.
#[derive(Debug, Clone, Copy, PartialEq, Eq, Structural)]
pub enum Stage {
    /// A setup step.
    Setup(SetupStep),
    /// An order.
    Waiting,
    /// A session or display operation. The notice is posted once it
    /// has succeeded.
    Operating(Option<Notice>),
    /// The next queued session event.
    Polling,
    /// The status of that event.
    ReadingStatus,
    /// The type of that event.
    ReadingType,
    /// The topology status that the event carries.
    ReadingTopology,
    /// The session's display control.
    FindingDisplay,
    /// The display's aspect ratio mode.
    SettingAspect,
    /// The display's first size.
    SizingDisplay,
    /// The request to close the session.
    Closing,
    /// The time since the session was closed.
    ReadingClock,
    /// The next queued event after the close.
    PollingClose,
    /// The type of that event.
    ReadingCloseType,
    /// A short pause before the next look.
    Sleeping,
    /// Nothing any more.
    Finished,
}

/// What the caller is to do.
#[derive(Debug, Clone, Copy, PartialEq, Eq)]
pub enum Action {
    /// Perform a setup step.
    Setup(SetupStep),
    /// Wait up to [`COMMAND_WAIT_MS`] for an order.
    Receive,
    /// Pause the session.
    Pause,
    /// Start the session, from the beginning or from where it stands.
    Start { rewind: bool },
    /// Give the display this size.
    Resize(i32, i32),
    /// Repaint the display.
    Repaint,
    /// Take the next queued event without waiting.
    PollEvent,
    /// Read the status of the event that was taken last.
    ReadStatus,
    /// Read the type of that event.
    ReadType,
    /// Read the topology status that it carries.
    ReadTopologyStatus,
    /// Look up the session's display control and keep it.
    FindDisplay,
    /// Let the display keep the picture's aspect ratio.
    SetAspect,
    /// Close the session.
    Close,
    /// Read the milliseconds since the session was closed.
    ReadClock,
    /// Sleep for [`CLOSE_POLL_MS`].
    Sleep,
    /// Release the media objects, then stop the platform and leave the
    /// apartment as far as the flags say, and return the result.
    Finish { result: Result<(), i32>, stop_platform: bool, leave_apartment: bool },
}

/// The outcome of an action.
#[derive(Debug, Clone, Copy, PartialEq, Eq, Structural)]
pub enum Reply {
    Done,
    /// The call succeeded but gave no object.
    Missing,
    Failed(i32),
    Received(Received),
    Status(i32),
    Value(u32),
    Elapsed(u64),
}

/// A notice to post, if any, and then an action to perform.
#[derive(Debug, Clone, Copy, PartialEq, Eq)]
pub struct Directive {
    pub notice: Option<Notice>,
    pub action: Action,
}

/// How long the worker waits for an order before it looks at events.
pub const COMMAND_WAIT_MS: u64 = 12;

/// How long the worker waits for the session to report that it closed.
pub const CLOSE_WAIT_MS: u64 = 500;

/// Pause between two looks while the session closes.
pub const CLOSE_POLL_MS: u64 = 10;

/// Event type: the status of the topology changed.
pub const SESSION_TOPOLOGY_STATUS: u32 = 111;

/// Event type: the presentation has ended.
pub const END_OF_PRESENTATION: u32 = 211;

/// Event type: the session has closed.
pub const SESSION_CLOSED: u32 = 106;

/// Topology status: the topology is ready to start.
pub const TOPOLOGY_READY: u32 = 100;

/// The state of the playback worker.
#[derive(Debug, Clone, Copy, PartialEq, Eq, Structural)]
pub struct PlaybackWorker {
    pub stage: Stage,
    /// The topology has been reported ready.
    pub ready: bool,
    pub playing: bool,
    pub ended: bool,
    /// The session has a display control.
    pub display: bool,
    /// The worker was told to stop, or nobody can tell it anything.
    pub stopping: bool,
    /// Size of the display, each side at least one pixel.
    pub width: i32,
    pub height: i32,
}

/// `side`, but at least one pixel.
pub open spec fn at_least_one(side: i32) -> i32 {
    if side < 1 {
        1
    } else {
        side
    }
}

fn clamp_side(side: i32) -> (clamped: i32)
    ensures
        clamped == at_least_one(side),
{
    if side < 1 {
        1
    } else {
        side
    }
}

/// The setup step that follows `step`, if there is one.
pub open spec fn setup_after(step: SetupStep) -> Option<SetupStep> {
    match step {
        SetupStep::EnterApartment => Some(SetupStep::StartPlatform),
        SetupStep::StartPlatform => Some(SetupStep::OpenStream),
        SetupStep::OpenStream => Some(SetupStep::OpenByteStream),
        SetupStep::OpenByteStream => Some(SetupStep::CreateResolver),
        SetupStep::CreateResolver => Some(SetupStep::ResolveSource),
        SetupStep::ResolveSource => Some(SetupStep::BuildTopology),
        SetupStep::BuildTopology => Some(SetupStep::CreateSession),
        SetupStep::CreateSession => Some(SetupStep::AttachTopology),
        SetupStep::AttachTopology => None,
    }
}

impl PlaybackWorker {
    /// What holds of the state between any two steps.
    pub open spec fn wf(self) -> bool {
        &&& self.width >= 1
        &&& self.height >= 1
        &&& self.playing ==> self.ready
        &&& self.display ==> self.ready
        &&& match self.stage {
            Stage::Setup(_) => !self.ready && !self.ended && !self.stopping,
            Stage::Waiting => !self.stopping,
            Stage::Operating(Some(Notice::Playing)) => self.playing,
            Stage::Operating(Some(Notice::Paused)) => self.ready && !self.playing,
            Stage::Operating(Some(_)) => false,
            Stage::Operating(None) => self.display,
            Stage::FindingDisplay => self.ready && !self.display,
            Stage::SettingAspect => self.display,
            Stage::SizingDisplay => self.display,
            Stage::Closing => self.stopping,
            Stage::ReadingClock => self.stopping,
            Stage::PollingClose => self.stopping,
            Stage::ReadingCloseType => self.stopping,
            Stage::Sleeping => self.stopping,
            _ => true,
        }
    }

    /// Is `reply` an outcome of the action that the worker asked for?
    pub open spec fn awaits(self, reply: Reply) -> bool {
        match self.stage {
            Stage::Setup(_) => reply is Done || reply is Missing || reply is Failed,
            Stage::Waiting => reply is Received,
            Stage::Operating(_) => reply is Done || reply is Failed,
            Stage::Polling => reply is Done || reply is Failed,
            Stage::ReadingStatus => reply is Status || reply is Failed,
            Stage::ReadingType => reply is Value || reply is Failed,
            Stage::ReadingTopology => reply is Value || reply is Failed,
            Stage::FindingDisplay => reply is Done || reply is Failed,
            Stage::SettingAspect => reply is Done || reply is Failed,
            Stage::SizingDisplay => reply is Done || reply is Failed,
            Stage::Closing => reply is Done || reply is Failed,
            Stage::ReadingClock => reply is Elapsed,
            Stage::PollingClose => reply is Done || reply is Failed,
            Stage::ReadingCloseType => reply is Value || reply is Failed,
            Stage::Sleeping => reply is Done,
            Stage::Finished => false,
        }
    }

    /// This state in another stage.
    pub open spec fn at(self, stage: Stage) -> PlaybackWorker {
        PlaybackWorker { stage, ..self }
    }

    /// Ends the worker. What was entered before is left again.
    pub open spec fn finished(self, result: Result<(), i32>) -> (PlaybackWorker, Directive) {
        (
            self.at(Stage::Finished),
            Directive {
                notice: None,
                action: Action::Finish {
                    result,
                    stop_platform: self.stage != Stage::Setup(SetupStep::EnterApartment)
                        && self.stage != Stage::Setup(SetupStep::StartPlatform),
                    leave_apartment: self.stage != Stage::Setup(SetupStep::EnterApartment),
                },
            },
        )
    }

    /// Looks at the next queued event.
    pub open spec fn polls(self, notice: Option<Notice>) -> (PlaybackWorker, Directive) {
        (self.at(Stage::Polling), Directive { notice, action: Action::PollEvent })
    }

    /// Performs a session or display operation.
    pub open spec fn operates(self, action: Action, notice: Option<Notice>) -> (
        PlaybackWorker,
        Directive,
    ) {
        (self.at(Stage::Operating(notice)), Directive { notice: None, action })
    }

    /// Asks for `action` and waits for its outcome in `stage`.
    pub open spec fn asks(self, stage: Stage, action: Action) -> (PlaybackWorker, Directive) {
        (self.at(stage), Directive { notice: None, action })
    }

    /// What an order does.
    pub open spec fn ordered(self, received: Received) -> (PlaybackWorker, Directive) {
        match received {
            Received::Timeout => self.polls(None),
            Received::Disconnected => (PlaybackWorker { stopping: true, ..self }).polls(None),
            Received::Command(PlayerCommand::Shutdown) => (PlaybackWorker {
                stopping: true,
                ..self
            }).polls(None),
            Received::Command(PlayerCommand::Toggle) => if !self.ready {
                self.polls(None)
            } else if self.playing {
                (PlaybackWorker { playing: false, ..self }).operates(
                    Action::Pause,
                    Some(Notice::Paused),
                )
            } else {
                (PlaybackWorker { playing: true, ended: false, ..self }).operates(
                    Action::Start { rewind: self.ended },
                    Some(Notice::Playing),
                )
            },
            Received::Command(PlayerCommand::Replay) => if !self.ready {
                self.polls(None)
            } else {
                (PlaybackWorker { playing: true, ended: false, ..self }).operates(
                    Action::Start { rewind: true },
                    Some(Notice::Playing),
                )
            },
            Received::Command(PlayerCommand::Resize(width, height)) => {
                let sized = PlaybackWorker {
                    width: at_least_one(width),
                    height: at_least_one(height),
                    ..self
                };
                if self.display {
                    sized.operates(Action::Resize(sized.width, sized.height), None)
                } else {
                    sized.polls(None)
                }
            },
            Received::Command(PlayerCommand::Repaint) => if self.display {
                self.operates(Action::Repaint, None)
            } else {
                self.polls(None)
            },
        }
    }

    /// The state and the directive that follow on `reply`.
    pub open spec fn next(self, reply: Reply) -> (PlaybackWorker, Directive) {
        let begun = PlaybackWorker { playing: true, ..self };
        match (self.stage, reply) {
            (Stage::Setup(_), Reply::Failed(code)) => self.finished(Err(code)),
            (Stage::Setup(_), Reply::Missing) => self.finished(Err(E_FAIL)),
            (Stage::Setup(step), _) => match setup_after(step) {
                Some(after) => self.asks(Stage::Setup(after), Action::Setup(after)),
                None => self.asks(Stage::Waiting, Action::Receive),
            },
            (Stage::Waiting, Reply::Received(received)) => self.ordered(received),
            (Stage::Operating(_), Reply::Failed(code)) => self.finished(Err(code)),
            (Stage::Operating(notice), _) => self.polls(notice),
            (Stage::Polling, Reply::Failed(code)) => if code != MF_E_NO_EVENTS_AVAILABLE {
                self.finished(Err(code))
            } else if self.stopping {
                self.asks(Stage::Closing, Action::Close)
            } else {
                self.asks(Stage::Waiting, Action::Receive)
            },
            (Stage::Polling, _) => self.asks(Stage::ReadingStatus, Action::ReadStatus),
            (Stage::ReadingStatus, Reply::Failed(code)) => self.finished(Err(code)),
            (Stage::ReadingStatus, Reply::Status(status)) => if status < 0 {
                self.finished(Err(status))
            } else {
                self.asks(Stage::ReadingType, Action::ReadType)
            },
            (Stage::ReadingType, Reply::Failed(code)) => self.finished(Err(code)),
            (Stage::ReadingType, Reply::Value(kind)) => if kind == SESSION_TOPOLOGY_STATUS {
                self.asks(Stage::ReadingTopology, Action::ReadTopologyStatus)
            } else if kind == END_OF_PRESENTATION {
                (PlaybackWorker { playing: false, ended: true, ..self }).polls(Some(Notice::Ended))
            } else {
                self.polls(None)
            },
            (Stage::ReadingTopology, Reply::Failed(code)) => self.finished(Err(code)),
            (Stage::ReadingTopology, Reply::Value(status)) => if status == TOPOLOGY_READY
                && !self.ready {
                (PlaybackWorker { ready: true, ..self }).asks(
                    Stage::FindingDisplay,
                    Action::FindDisplay,
                )
            } else {
                self.polls(None)
            },
            (Stage::FindingDisplay, Reply::Failed(_)) => begun.operates(
                Action::Start { rewind: false },
                Some(Notice::Playing),
            ),
            (Stage::FindingDisplay, _) => (PlaybackWorker { display: true, ..self }).asks(
                Stage::SettingAspect,
                Action::SetAspect,
            ),
            (Stage::SettingAspect, Reply::Failed(code)) => self.finished(Err(code)),
            (Stage::SettingAspect, _) => self.asks(
                Stage::SizingDisplay,
                Action::Resize(self.width, self.height),
            ),
            (Stage::SizingDisplay, Reply::Failed(code)) => self.finished(Err(code)),
            (Stage::SizingDisplay, _) => begun.operates(
                Action::Start { rewind: false },
                Some(Notice::Playing),
            ),
            (Stage::Closing, _) => self.asks(Stage::ReadingClock, Action::ReadClock),
            (Stage::ReadingClock, Reply::Elapsed(ms)) => if ms < CLOSE_WAIT_MS {
                self.asks(Stage::PollingClose, Action::PollEvent)
            } else {
                self.finished(Ok(()))
            },
            (Stage::PollingClose, Reply::Failed(code)) => if code == MF_E_NO_EVENTS_AVAILABLE {
                self.asks(Stage::Sleeping, Action::Sleep)
            } else {
                self.finished(Ok(()))
            },
            (Stage::PollingClose, _) => self.asks(Stage::ReadingCloseType, Action::ReadType),
            (Stage::ReadingCloseType, Reply::Value(kind)) => if kind == SESSION_CLOSED {
                self.finished(Ok(()))
            } else {
                self.asks(Stage::ReadingClock, Action::ReadClock)
            },
            (Stage::ReadingCloseType, _) => self.asks(Stage::ReadingClock, Action::ReadClock),
            (Stage::Sleeping, _) => self.asks(Stage::ReadingClock, Action::ReadClock),
            _ => arbitrary(),
        }
    }
}

impl PlaybackWorker {
    /// A worker for a display of the given size, about to enter its
    /// apartment. The caller performs that first step.
    pub fn new(width: i32, height: i32) -> (worker: PlaybackWorker)
        ensures
            worker.wf(),
            worker == (PlaybackWorker {
                stage: Stage::Setup(SetupStep::EnterApartment),
                ready: false,
                playing: false,
                ended: false,
                display: false,
                stopping: false,
                width: at_least_one(width),
                height: at_least_one(height),
            }),
    {
        PlaybackWorker {
            stage: Stage::Setup(SetupStep::EnterApartment),
            ready: false,
            playing: false,
            ended: false,
            display: false,
            stopping: false,
            width: clamp_side(width),
            height: clamp_side(height),
        }
    }

    /// Tells whether `reply` is an outcome of the action that the
    /// worker asked for.
    pub fn accepts(&self, reply: Reply) -> (fits: bool)
        ensures
            fits == self.awaits(reply),
    {
        match (self.stage, reply) {
            (Stage::Setup(_), Reply::Done) => true,
            (Stage::Setup(_), Reply::Missing) => true,
            (Stage::Waiting, Reply::Received(_)) => true,
            (Stage::ReadingStatus, Reply::Status(_)) => true,
            (Stage::ReadingType, Reply::Value(_)) => true,
            (Stage::ReadingTopology, Reply::Value(_)) => true,
            (Stage::ReadingCloseType, Reply::Value(_)) => true,
            (Stage::ReadingClock, Reply::Elapsed(_)) => true,
            (Stage::Operating(_), Reply::Done) => true,
            (Stage::Polling, Reply::Done) => true,
            (Stage::FindingDisplay, Reply::Done) => true,
            (Stage::SettingAspect, Reply::Done) => true,
            (Stage::SizingDisplay, Reply::Done) => true,
            (Stage::Closing, Reply::Done) => true,
            (Stage::PollingClose, Reply::Done) => true,
            (Stage::Sleeping, Reply::Done) => true,
            (Stage::Waiting, _) => false,
            (Stage::ReadingClock, _) => false,
            (Stage::Sleeping, _) => false,
            (Stage::Finished, _) => false,
            (_, Reply::Failed(_)) => true,
            _ => false,
        }
    }

    fn finish(&mut self, result: Result<(), i32>) -> (directive: Directive)
        ensures
            (*final(self), directive) == old(self).finished(result),
    {
        let (stop_platform, leave_apartment) = match self.stage {
            Stage::Setup(SetupStep::EnterApartment) => (false, false),
            Stage::Setup(SetupStep::StartPlatform) => (false, true),
            _ => (true, true),
        };
        self.stage = Stage::Finished;
        Directive {
            notice: None,
            action: Action::Finish { result, stop_platform, leave_apartment },
        }
    }

    fn poll(&mut self, notice: Option<Notice>) -> (directive: Directive)
        ensures
            (*final(self), directive) == old(self).polls(notice),
    {
        self.stage = Stage::Polling;
        Directive { notice, action: Action::PollEvent }
    }

    fn operate(&mut self, action: Action, notice: Option<Notice>) -> (directive: Directive)
        ensures
            (*final(self), directive) == old(self).operates(action, notice),
    {
        self.stage = Stage::Operating(notice);
        Directive { notice: None, action }
    }

    fn ask(&mut self, stage: Stage, action: Action) -> (directive: Directive)
        ensures
            (*final(self), directive) == old(self).asks(stage, action),
    {
        self.stage = stage;
        Directive { notice: None, action }
    }

    fn order(&mut self, received: Received) -> (directive: Directive)
        requires
            old(self).wf(),
            old(self).stage == Stage::Waiting,
        ensures
            final(self).wf(),
            (*final(self), directive) == old(self).ordered(received),
            received matches Received::Command(PlayerCommand::Resize(width, height)) ==> width >= 1
                && height >= 1 ==> {
                &&& final(self).width == width
                &&& final(self).height == height
                &&& old(self).display ==> directive.action == Action::Resize(width, height)
            },
    {
        match received {
            Received::Timeout => self.poll(None),
            Received::Disconnected => {
                self.stopping = true;
                self.poll(None)
            },
            Received::Command(PlayerCommand::Shutdown) => {
                self.stopping = true;
                self.poll(None)
            },
            Received::Command(PlayerCommand::Toggle) => {
                if !self.ready {
                    self.poll(None)
                } else if self.playing {
                    self.playing = false;
                    self.operate(Action::Pause, Some(Notice::Paused))
                } else {
                    let rewind = self.ended;
                    self.playing = true;
                    self.ended = false;
                    self.operate(Action::Start { rewind }, Some(Notice::Playing))
                }
            },
            Received::Command(PlayerCommand::Replay) => {
                if !self.ready {
                    self.poll(None)
                } else {
                    self.playing = true;
                    self.ended = false;
                    self.operate(Action::Start { rewind: true }, Some(Notice::Playing))
                }
            },
            Received::Command(PlayerCommand::Resize(width, height)) => {
                self.width = clamp_side(width);
                self.height = clamp_side(height);
                if self.display {
                    let action = Action::Resize(self.width, self.height);
                    self.operate(action, None)
                } else {
                    self.poll(None)
                }
            },
            Received::Command(PlayerCommand::Repaint) => {
                if self.display {
                    self.operate(Action::Repaint, None)
                } else {
                    self.poll(None)
                }
            },
        }
    }

    fn next_setup(&mut self, step: SetupStep) -> (directive: Directive)
        ensures
            (*final(self), directive) == (match setup_after(step) {
                Some(after) => old(self).asks(Stage::Setup(after), Action::Setup(after)),
                None => old(self).asks(Stage::Waiting, Action::Receive),
            }),
    {
        let after = match step {
            SetupStep::EnterApartment => SetupStep::StartPlatform,
            SetupStep::StartPlatform => SetupStep::OpenStream,
            SetupStep::OpenStream => SetupStep::OpenByteStream,
            SetupStep::OpenByteStream => SetupStep::CreateResolver,
            SetupStep::CreateResolver => SetupStep::ResolveSource,
            SetupStep::ResolveSource => SetupStep::BuildTopology,
            SetupStep::BuildTopology => SetupStep::CreateSession,
            SetupStep::CreateSession => SetupStep::AttachTopology,
            SetupStep::AttachTopology => return self.ask(Stage::Waiting, Action::Receive),
        };
        self.ask(Stage::Setup(after), Action::Setup(after))
    }

    fn begin(&mut self) -> (directive: Directive)
        ensures
            (*final(self), directive) == (PlaybackWorker { playing: true, ..*old(self) }).operates(
                Action::Start { rewind: false },
                Some(Notice::Playing),
            ),
    {
        self.playing = true;
        self.operate(Action::Start { rewind: false }, Some(Notice::Playing))
    }

    /// Takes the outcome of the last action and says what to do next.
    pub fn step(&mut self, reply: Reply) -> (directive: Directive)
        requires
            old(self).wf(),
            old(self).awaits(reply),
        ensures
            final(self).wf(),
            (*final(self), directive) == old(self).next(reply),
            reply matches Reply::Received(
                Received::Command(PlayerCommand::Resize(width, height)),
            ) ==> width >= 1 && height >= 1 ==> {
                &&& final(self).width == width
                &&& final(self).height == height
                &&& old(self).display ==> directive.action == Action::Resize(width, height)
            },
    {
        match (self.stage, reply) {
            (Stage::Setup(_), Reply::Missing) => self.finish(Err(E_FAIL)),
            (Stage::Setup(_), Reply::Failed(code)) => self.finish(Err(code)),
            (Stage::Setup(step), _) => self.next_setup(step),
            (Stage::Waiting, Reply::Received(received)) => self.order(received),
            (Stage::Polling, Reply::Failed(code)) => {
                if code != MF_E_NO_EVENTS_AVAILABLE {
                    self.finish(Err(code))
                } else if self.stopping {
                    self.ask(Stage::Closing, Action::Close)
                } else {
                    self.ask(Stage::Waiting, Action::Receive)
                }
            },
            (Stage::Polling, _) => self.ask(Stage::ReadingStatus, Action::ReadStatus),
            (Stage::ReadingStatus, Reply::Status(status)) => {
                if status < 0 {
                    self.finish(Err(status))
                } else {
                    self.ask(Stage::ReadingType, Action::ReadType)
                }
            },
            (Stage::ReadingType, Reply::Value(kind)) => {
                if kind == SESSION_TOPOLOGY_STATUS {
                    self.ask(Stage::ReadingTopology, Action::ReadTopologyStatus)
                } else if kind == END_OF_PRESENTATION {
                    self.playing = false;
                    self.ended = true;
                    self.poll(Some(Notice::Ended))
                } else {
                    self.poll(None)
                }
            },
            (Stage::ReadingTopology, Reply::Value(status)) => {
                if status == TOPOLOGY_READY && !self.ready {
                    self.ready = true;
                    self.ask(Stage::FindingDisplay, Action::FindDisplay)
                } else {
                    self.poll(None)
                }
            },
            (Stage::FindingDisplay, Reply::Failed(_)) => self.begin(),
            (Stage::FindingDisplay, _) => {
                self.display = true;
                self.ask(Stage::SettingAspect, Action::SetAspect)
            },
            (Stage::SettingAspect, Reply::Done) => {
                let action = Action::Resize(self.width, self.height);
                self.ask(Stage::SizingDisplay, action)
            },
            (Stage::SizingDisplay, Reply::Done) => self.begin(),
            (Stage::Operating(notice), Reply::Done) => self.poll(notice),
            (Stage::Closing, _) => self.ask(Stage::ReadingClock, Action::ReadClock),
            (Stage::ReadingClock, Reply::Elapsed(ms)) => {
                if ms < CLOSE_WAIT_MS {
                    self.ask(Stage::PollingClose, Action::PollEvent)
                } else {
                    self.finish(Ok(()))
                }
            },
            (Stage::PollingClose, Reply::Failed(code)) => {
                if code == MF_E_NO_EVENTS_AVAILABLE {
                    self.ask(Stage::Sleeping, Action::Sleep)
                } else {
                    self.finish(Ok(()))
                }
            },
            (Stage::PollingClose, _) => self.ask(Stage::ReadingCloseType, Action::ReadType),
            (Stage::ReadingCloseType, Reply::Value(kind)) => {
                if kind == SESSION_CLOSED {
                    self.finish(Ok(()))
                } else {
                    self.ask(Stage::ReadingClock, Action::ReadClock)
                }
            },
            (Stage::ReadingCloseType, _) => self.ask(Stage::ReadingClock, Action::ReadClock),
            (Stage::Sleeping, _) => self.ask(Stage::ReadingClock, Action::ReadClock),
            (_, Reply::Failed(code)) => self.finish(Err(code)),
            _ => self.finish(Err(E_FAIL)),
        }
    }
}

/// The notice that a finished worker owes the preview window: none when
/// it ended in order, its status code when it failed.
pub fn failure_notice(result: Result<(), i32>) -> (notice: Option<Notice>)
    ensures
        notice == (match result {
            Ok(_) => None::<Notice>,
            Err(code) => Some(Notice::Failed(code)),
        }),
{
    match result {
        Ok(_) => None,
        Err(code) => Some(Notice::Failed(code)),
    }
}

impl PlaybackWorker {
    /// Are these replies, one after the other, outcomes of the actions
    /// that the worker asks for?
    pub open spec fn awaits_all(self, replies: Seq<Reply>) -> bool
        decreases replies.len(),
    {
        replies.len() == 0 || (self.awaits_all(replies.drop_last()) && self.after(
            replies.drop_last(),
        ).awaits(replies.last()))
    }

    /// The state after all of these replies.
    pub open spec fn after(self, replies: Seq<Reply>) -> PlaybackWorker
        decreases replies.len(),
    {
        if replies.len() == 0 {
            self
        } else {
            self.after(replies.drop_last()).next(replies.last()).0
        }
    }
}

/// Whatever happens, the state stays well formed: the display never gets
/// a size below one pixel, nothing plays before the topology is ready,
/// and a worker that was told to stop takes no further order.
pub proof fn worker_stays_well_formed(worker: PlaybackWorker, replies: Seq<Reply>)
    requires
        worker.wf(),
        worker.awaits_all(replies),
    ensures
        worker.after(replies).wf(),
    decreases replies.len(),
{
    if replies.len() > 0 {
        worker_stays_well_formed(worker, replies.drop_last());
    }
}

/// The session is started or paused only once the media pipeline has
/// reported that the topology is ready.
pub proof fn session_runs_only_when_ready(
    worker: PlaybackWorker,
    replies: Seq<Reply>,
    reply: Reply,
)
    requires
        worker.wf(),
        !worker.ready,
        worker.awaits_all(replies.push(reply)),
        ({
            let action = worker.after(replies).next(reply).1.action;
            action is Start || action is Pause
        }),
    ensures
        replies.contains(Reply::Value(TOPOLOGY_READY)),
{
    assert(replies.push(reply).drop_last() =~= replies);
    worker_stays_well_formed(worker, replies);
    lemma_ready_was_reported(worker, replies);
}

proof fn lemma_ready_was_reported(worker: PlaybackWorker, replies: Seq<Reply>)
    requires
        worker.wf(),
        !worker.ready,
        worker.awaits_all(replies),
    ensures
        worker.after(replies).ready ==> replies.contains(Reply::Value(TOPOLOGY_READY)),
    decreases replies.len(),
{
    if replies.len() > 0 {
        let shorter = replies.drop_last();
        worker_stays_well_formed(worker, shorter);
        lemma_ready_was_reported(worker, shorter);
        if worker.after(shorter).ready {
            let k = choose|k: int|
                0 <= k < shorter.len() && shorter[k] == Reply::Value(TOPOLOGY_READY);
            assert(replies[k] == Reply::Value(TOPOLOGY_READY));
        } else if worker.after(replies).ready {
            assert(replies[replies.len() - 1] == Reply::Value(TOPOLOGY_READY));
        }
    }
}

/// The window hears "playing" only right after the session was started
/// with success, and "paused" only right after it was paused with
/// success.
pub proof fn notices_follow_successful_operations(worker: PlaybackWorker, reply: Reply)
    requires
        worker.wf(),
        worker.awaits(reply),
    ensures
        worker.next(reply).1.notice == Some(Notice::Playing) ==> reply is Done && worker.stage
            == Stage::Operating(Some(Notice::Playing)),
        worker.next(reply).1.notice == Some(Notice::Paused) ==> reply is Done && worker.stage
            == Stage::Operating(Some(Notice::Paused)),
        worker.next(reply).0.stage == Stage::Operating(Some(Notice::Playing)) ==> worker.next(
            reply,
        ).1.action is Start,
        worker.next(reply).0.stage == Stage::Operating(Some(Notice::Paused)) ==> worker.next(
            reply,
        ).1.action == Action::Pause,
{
}

/// The replies of a session that carries an order out and has nothing to
/// report.
pub open spec fn carried_out(command: PlayerCommand) -> Seq<Reply> {
    seq![
        Reply::Received(Received::Command(command)),
        Reply::Done,
        Reply::Failed(MF_E_NO_EVENTS_AVAILABLE),
    ]
}

proof fn lemma_after_three(worker: PlaybackWorker, a: Reply, b: Reply, c: Reply)
    ensures
        worker.after(seq![a, b, c]) == worker.next(a).0.next(b).0.next(c).0,
{
    assert(seq![a, b, c].drop_last() =~= seq![a, b]);
    assert(seq![a, b].drop_last() =~= seq![a]);
    assert(seq![a].drop_last() =~= Seq::<Reply>::empty());
    assert(worker.after(seq![a]) == worker.next(a).0) by {
        assert(worker.after(Seq::<Reply>::empty()) == worker);
    }
    assert(worker.after(seq![a, b]) == worker.next(a).0.next(b).0);
}

/// Toggling a playing clip twice pauses it and then goes on from where
/// it stood: the state is the same as before.
pub proof fn toggling_twice_resumes(worker: PlaybackWorker)
    requires
        worker.wf(),
        worker.stage == Stage::Waiting,
        worker.playing,
        !worker.ended,
    ensures
        ({
            let order = Reply::Received(Received::Command(PlayerCommand::Toggle));
            let paused = worker.after(carried_out(PlayerCommand::Toggle));
            &&& worker.next(order).1.action == Action::Pause
            &&& paused.next(order).1.action == (Action::Start { rewind: false })
            &&& paused.after(carried_out(PlayerCommand::Toggle)) == worker
        }),
{
    let order = Reply::Received(Received::Command(PlayerCommand::Toggle));
    let paused = worker.after(carried_out(PlayerCommand::Toggle));
    lemma_after_three(worker, order, Reply::Done, Reply::Failed(MF_E_NO_EVENTS_AVAILABLE));
    lemma_after_three(paused, order, Reply::Done, Reply::Failed(MF_E_NO_EVENTS_AVAILABLE));
}

/// A clip that has ended plays from its beginning again, whether it is
/// toggled or replayed; replay starts over in any case.
pub proof fn ended_clip_starts_over(worker: PlaybackWorker)
    requires
        worker.wf(),
        worker.stage == Stage::Waiting,
        worker.ready,
    ensures
        worker.ended && !worker.playing ==> worker.next(
            Reply::Received(Received::Command(PlayerCommand::Toggle)),
        ).1.action == (Action::Start { rewind: true }),
        worker.next(Reply::Received(Received::Command(PlayerCommand::Replay))).1.action == (
        Action::Start { rewind: true }),
{
}

/// Orders to play change nothing before the topology is ready, and a
/// repaint does nothing without a display.
pub proof fn early_orders_are_ignored(worker: PlaybackWorker, command: PlayerCommand)
    requires
        worker.wf(),
        worker.stage == Stage::Waiting,
        !worker.ready,
        command is Toggle || command is Replay || command is Repaint,
    ensures
        worker.next(Reply::Received(Received::Command(command))) == worker.polls(None),
{
}

/// A setup step that fails ends the worker with its own status code, and
/// exactly what was entered before it is left again.
pub proof fn failed_setup_is_undone(worker: PlaybackWorker, step: SetupStep, code: i32)
    requires
        worker.wf(),
        worker.stage == Stage::Setup(step),
    ensures
        worker.next(Reply::Failed(code)).0.stage == Stage::Finished,
        worker.next(Reply::Failed(code)).1.action == (Action::Finish {
            result: Err(code),
            stop_platform: !(step is EnterApartment || step is StartPlatform),
            leave_apartment: !(step is EnterApartment),
        }),
{
}

/// Once the session was asked to close, the worker never fails: it ends
/// well, at the latest at its first look at the clock after the waiting
/// time is over.
pub proof fn closing_is_bounded(worker: PlaybackWorker, reply: Reply)
    requires
        worker.wf(),
        worker.awaits(reply),
        worker.stage is Closing || worker.stage is ReadingClock || worker.stage is PollingClose
            || worker.stage is ReadingCloseType || worker.stage is Sleeping,
    ensures
        worker.next(reply).1.action matches Action::Finish { result, .. } ==> result is Ok,
        reply matches Reply::Elapsed(ms) ==> (worker.next(reply).1.action is Finish) == (ms
            >= CLOSE_WAIT_MS),
        worker.next(reply).0.stage is ReadingClock || worker.next(reply).0.stage is PollingClose
            || worker.next(reply).0.stage is ReadingCloseType || worker.next(reply).0.stage
            is Sleeping || worker.next(reply).0.stage is Finished,
{
}

/// How a stream of the clip is treated.
#[derive(Debug, Clone, Copy, PartialEq, Eq, Structural)]
pub enum StreamPlan {
    /// Leave it alone.
    Skip,
    /// Connect it to the video renderer.
    Video,
    /// Connect it to the audio renderer; deselect it if there is none.
    Audio,
    /// Deselect it: nothing can render it.
    Deselect,
}

/// What is known of a stream of the clip.
#[derive(Debug, Clone, Copy, PartialEq, Eq, Structural)]
pub struct StreamInfo {
    /// The presentation has a descriptor for it.
    pub described: bool,
    /// The presentation has it selected.
    pub selected: bool,
    /// Major media type, the 128 bits of its identifier.
    pub major_type: u128,
}

/// Major media type of video streams.
pub const MEDIA_TYPE_VIDEO: u128 = 0x73646976_0000_0010_8000_00aa00389b71;

/// Major media type of audio streams.
pub const MEDIA_TYPE_AUDIO: u128 = 0x73647561_0000_0010_8000_00aa00389b71;

/// The treatment of a stream. Clips may carry timed metadata, which has
/// no renderer and is deselected.
pub open spec fn plan_for(stream: StreamInfo) -> StreamPlan {
    if !stream.described || !stream.selected {
        StreamPlan::Skip
    } else if stream.major_type == MEDIA_TYPE_VIDEO {
        StreamPlan::Video
    } else if stream.major_type == MEDIA_TYPE_AUDIO {
        StreamPlan::Audio
    } else {
        StreamPlan::Deselect
    }
}

/// Does one of the streams go to the video renderer?
pub open spec fn has_video(streams: Seq<StreamInfo>) -> bool {
    exists|k: int| 0 <= k < streams.len() && plan_for(#[trigger] streams[k]) == StreamPlan::Video
}

/// The treatment of one stream of the clip.
pub fn plan_stream(stream: StreamInfo) -> (plan: StreamPlan)
    ensures
        plan == plan_for(stream),
{
    if !stream.described || !stream.selected {
        StreamPlan::Skip
    } else if stream.major_type == MEDIA_TYPE_VIDEO {
        StreamPlan::Video
    } else if stream.major_type == MEDIA_TYPE_AUDIO {
        StreamPlan::Audio
    } else {
        StreamPlan::Deselect
    }
}

/// The treatment of every stream of the clip. A clip without a video
/// stream cannot be played.
pub fn plan_topology(streams: &[StreamInfo]) -> (plans: Result<Vec<StreamPlan>, i32>)
    ensures
        match plans {
            Ok(plans) => has_video(streams@) && plans@ == streams@.map_values(
                |stream: StreamInfo| plan_for(stream),
            ),
            Err(code) => !has_video(streams@) && code == E_FAIL,
        },
{
    let mut plans: Vec<StreamPlan> = Vec::new();
    let mut found_video = false;
    let mut index: usize = 0;
    while index < streams.len()
        invariant
            index <= streams.len(),
            plans@.len() == index,
            forall|k: int| 0 <= k < index ==> #[trigger] plans@[k] == plan_for(streams@[k]),
            found_video == exists|k: int|
                0 <= k < index && plan_for(#[trigger] streams@[k]) == StreamPlan::Video,
        decreases streams.len() - index,
    {
        let plan = plan_stream(streams[index]);
        if let StreamPlan::Video = plan {
            found_video = true;
        }
        plans.push(plan);
        index += 1;
    }
    proof {
        assert(plans@ =~= streams@.map_values(|stream: StreamInfo| plan_for(stream)));
    }
    if found_video {
        Ok(plans)
    } else {
        Err(E_FAIL)
    }
}

/// Number by which a notice travels in a window message.
pub const NOTICE_PLAYING: usize = 1;

/// See [`NOTICE_PLAYING`].
pub const NOTICE_PAUSED: usize = 2;

/// See [`NOTICE_PLAYING`].
pub const NOTICE_ENDED: usize = 3;

/// See [`NOTICE_PLAYING`].
pub const NOTICE_FAILED: usize = 4;

/// Window message that carries a notice.
pub const WM_ARCTHUMB_VIDEO_STATE: u32 = 0x8000 + 0x34A;

/// The number and the status code by which a notice travels.
pub open spec fn notice_words(notice: Notice) -> (usize, i32) {
    match notice {
        Notice::Playing => (NOTICE_PLAYING, 0),
        Notice::Paused => (NOTICE_PAUSED, 0),
        Notice::Ended => (NOTICE_ENDED, 0),
        Notice::Failed(status) => (NOTICE_FAILED, status),
    }
}

/// The notice that a number and a status code stand for, if any.
pub open spec fn notice_from(number: usize, status: i32) -> Option<Notice> {
    if number == NOTICE_PLAYING {
        Some(Notice::Playing)
    } else if number == NOTICE_PAUSED {
        Some(Notice::Paused)
    } else if number == NOTICE_ENDED {
        Some(Notice::Ended)
    } else if number == NOTICE_FAILED {
        Some(Notice::Failed(status))
    } else {
        None
    }
}

/// The number and the status code by which a notice travels.
pub fn encode_notice(notice: Notice) -> (words: (usize, i32))
    ensures
        words == notice_words(notice),
{
    match notice {
        Notice::Playing => (NOTICE_PLAYING, 0),
        Notice::Paused => (NOTICE_PAUSED, 0),
        Notice::Ended => (NOTICE_ENDED, 0),
        Notice::Failed(status) => (NOTICE_FAILED, status),
    }
}

/// The notice that a number and a status code stand for, if any.
pub fn decode_notice(number: usize, status: i32) -> (notice: Option<Notice>)
    ensures
        notice == notice_from(number, status),
{
    if number == NOTICE_PLAYING {
        Some(Notice::Playing)
    } else if number == NOTICE_PAUSED {
        Some(Notice::Paused)
    } else if number == NOTICE_ENDED {
        Some(Notice::Ended)
    } else if number == NOTICE_FAILED {
        Some(Notice::Failed(status))
    } else {
        None
    }
}

/// A player token in the upper and a status code in the lower half of
/// one message word.
pub open spec fn notice_word(token: u32, status: i32) -> int {
    token * 0x1_0000_0000 + status as int % 0x1_0000_0000
}

/// Packs a player token and a status code into one message word.
pub fn pack_notice_status(token: u32, status: i32) -> (word: u64)
    ensures
        word == notice_word(token, status),
{
    let low: u64 = if status < 0 {
        (0x1_0000_0000i64 + status as i64) as u64
    } else {
        status as u64
    };
    token as u64 * 0x1_0000_0000 + low
}

/// Takes the player token and the status code out of a message word.
pub fn unpack_notice_status(word: u64) -> (unpacked: (u32, i32))
    ensures
        word == notice_word(unpacked.0, unpacked.1),
{
    let token = (word / 0x1_0000_0000) as u32;
    let low: u64 = word % 0x1_0000_0000;
    let status: i32 = if low >= 0x8000_0000 {
        (low as i64 - 0x1_0000_0000) as i32
    } else {
        low as i32
    };
    (token, status)
}

/// A message word holds one token and one status code: what is unpacked
/// is what was packed.
pub proof fn notice_word_is_unambiguous(
    token: u32,
    status: i32,
    other_token: u32,
    other_status: i32,
)
    requires
        notice_word(token, status) == notice_word(other_token, other_status),
    ensures
        token == other_token,
        status == other_status,
{
}

/// A notice survives its way through a window message.
pub proof fn notice_round_trip(notice: Notice)
    ensures
        ({
            let (number, status) = notice_words(notice);
            notice_from(number, status) == Some(notice)
        }),
{
}

/// Draws a token for a playback worker. Zero is never drawn: it stands
/// for "no worker".
pub fn next_player_token(counter: &mut u32) -> (token: u32)
    ensures
        token == crate::preview::token::token_at(*old(counter)),
        token != 0,
        *final(counter) == crate::preview::token::counter_after(token),
{
    draw_token(counter)
}

/// An order to resize gives the worker exactly that size, each side at
/// least one pixel, whatever the size was before. With a display the
/// size is handed on to it at once. Nothing else changes.
pub proof fn resizing_sets_the_size(worker: PlaybackWorker, width: i32, height: i32)
    requires
        worker.stage == Stage::Waiting,
    ensures
        ({
            let (after, directive) = worker.next(
                Reply::Received(Received::Command(PlayerCommand::Resize(width, height))),
            );
            &&& width >= 1 ==> after.width == width
            &&& width < 1 ==> after.width == 1
            &&& height >= 1 ==> after.height == height
            &&& height < 1 ==> after.height == 1
            &&& directive.notice is None
            &&& worker.display ==> directive.action == Action::Resize(after.width, after.height)
                && after.stage == Stage::Operating(None)
            &&& !worker.display ==> directive.action is PollEvent && after.stage is Polling
            &&& after == (PlaybackWorker {
                stage: after.stage,
                width: after.width,
                height: after.height,
                ..worker
            })
        }),
{
}

/// Toggling pauses what plays and starts what does not, from the
/// beginning only after the end was reached. The notice waits for the
/// operation to succeed. Before the topology is ready nothing changes.
pub proof fn toggling_switches_playback(worker: PlaybackWorker)
    requires
        worker.stage == Stage::Waiting,
    ensures
        ({
            let (after, directive) = worker.next(
                Reply::Received(Received::Command(PlayerCommand::Toggle)),
            );
            &&& directive.notice is None
            &&& worker.ready && worker.playing ==> directive.action is Pause && after == (
            PlaybackWorker {
                stage: Stage::Operating(Some(Notice::Paused)),
                playing: false,
                ..worker
            })
            &&& worker.ready && !worker.playing ==> directive.action == (Action::Start {
                rewind: worker.ended,
            }) && after == (PlaybackWorker {
                stage: Stage::Operating(Some(Notice::Playing)),
                playing: true,
                ended: false,
                ..worker
            })
            &&& !worker.ready ==> directive.action is PollEvent && after == (PlaybackWorker {
                stage: Stage::Polling,
                ..worker
            })
        }),
{
}

/// Replaying starts over in any case, once the topology is ready;
/// repainting repaints, once there is a display. Otherwise nothing
/// changes.
pub proof fn replay_and_repaint(worker: PlaybackWorker)
    requires
        worker.stage == Stage::Waiting,
    ensures
        ({
            let (after, directive) = worker.next(
                Reply::Received(Received::Command(PlayerCommand::Replay)),
            );
            &&& directive.notice is None
            &&& worker.ready ==> directive.action == (Action::Start { rewind: true }) && after == (
            PlaybackWorker {
                stage: Stage::Operating(Some(Notice::Playing)),
                playing: true,
                ended: false,
                ..worker
            })
            &&& !worker.ready ==> directive.action is PollEvent && after == (PlaybackWorker {
                stage: Stage::Polling,
                ..worker
            })
        }),
        ({
            let (after, directive) = worker.next(
                Reply::Received(Received::Command(PlayerCommand::Repaint)),
            );
            &&& directive.notice is None
            &&& worker.display ==> directive.action is Repaint && after == (PlaybackWorker {
                stage: Stage::Operating(None),
                ..worker
            })
            &&& !worker.display ==> directive.action is PollEvent && after == (PlaybackWorker {
                stage: Stage::Polling,
                ..worker
            })
        }),
{
}

/// An order to shut down, and the loss of whoever gives orders, stop the
/// worker: it looks at the events that are left and then closes the
/// session. Without an order it looks at events and goes on waiting.
pub proof fn worker_stops_when_told(worker: PlaybackWorker)
    requires
        worker.stage == Stage::Waiting,
    ensures
        ({
            let shut = worker.next(Reply::Received(Received::Command(PlayerCommand::Shutdown)));
            let lost = worker.next(Reply::Received(Received::Disconnected));
            let idle = worker.next(Reply::Received(Received::Timeout));
            let stopped = PlaybackWorker { stage: Stage::Polling, stopping: true, ..worker };
            &&& shut.0 == stopped && lost.0 == stopped
            &&& idle.0 == (PlaybackWorker { stage: Stage::Polling, ..worker })
            &&& shut.1.notice is None && lost.1.notice is None && idle.1.notice is None
            &&& shut.1.action is PollEvent && lost.1.action is PollEvent && idle.1.action
                is PollEvent
        }),
{
}

/// Looking at events: without an event the worker waits for an order, or
/// closes the session when it was told to stop. Any other failure ends
/// it. Of an event the status is read, then the type.
pub proof fn events_are_looked_at(worker: PlaybackWorker, code: i32, status: i32)
    ensures
        worker.stage is Polling ==> {
            &&& ({
                let (after, directive) = worker.next(Reply::Failed(MF_E_NO_EVENTS_AVAILABLE));
                &&& directive.notice is None
                &&& worker.stopping ==> directive.action is Close && after == (PlaybackWorker {
                    stage: Stage::Closing,
                    ..worker
                })
                &&& !worker.stopping ==> directive.action is Receive && after == (PlaybackWorker {
                    stage: Stage::Waiting,
                    ..worker
                })
            })
            &&& code != MF_E_NO_EVENTS_AVAILABLE ==> ends_with(
                worker,
                Reply::Failed(code),
                Err(code),
            )
            &&& asks_for(worker, Reply::Done, Stage::ReadingStatus, Action::ReadStatus)
        },
        worker.stage is ReadingStatus ==> {
            &&& ends_with(worker, Reply::Failed(code), Err(code))
            &&& status < 0 ==> ends_with(worker, Reply::Status(status), Err(status))
            &&& status >= 0 ==> asks_for(
                worker,
                Reply::Status(status),
                Stage::ReadingType,
                Action::ReadType,
            )
        },
        worker.stage is ReadingType ==> ends_with(worker, Reply::Failed(code), Err(code)),
        worker.stage is ReadingTopology ==> ends_with(worker, Reply::Failed(code), Err(code)),
{
}

/// Does the worker end on this reply, with this result, release all it
/// holds, and say nothing?
pub open spec fn ends_with(worker: PlaybackWorker, reply: Reply, result: Result<(), i32>) -> bool {
    let (after, directive) = worker.next(reply);
    &&& after == (PlaybackWorker { stage: Stage::Finished, ..worker })
    &&& directive.notice is None
    &&& directive.action == (Action::Finish { result, stop_platform: true, leave_apartment: true })
}

/// Does the worker go to `stage` on this reply, ask for `action`, change
/// nothing else and say nothing?
pub open spec fn asks_for(
    worker: PlaybackWorker,
    reply: Reply,
    stage: Stage,
    action: Action,
) -> bool {
    let (after, directive) = worker.next(reply);
    &&& after == (PlaybackWorker { stage, ..worker })
    &&& directive.notice is None
    &&& directive.action == action
}

/// What an event does: the end of the presentation is noted and told, a
/// topology that is ready for the first time has the display looked up,
/// and every other event is passed over.
pub proof fn events_are_acted_on(worker: PlaybackWorker, kind: u32, status: u32)
    ensures
        worker.stage is ReadingType ==> {
            &&& asks_for(
                worker,
                Reply::Value(111),
                Stage::ReadingTopology,
                Action::ReadTopologyStatus,
            )
            &&& ({
                let (after, directive) = worker.next(Reply::Value(211));
                &&& after == (PlaybackWorker {
                    stage: Stage::Polling,
                    playing: false,
                    ended: true,
                    ..worker
                })
                &&& directive.notice == Some(Notice::Ended)
                &&& directive.action is PollEvent
            })
            &&& kind != 111 && kind != 211 ==> asks_for(
                worker,
                Reply::Value(kind),
                Stage::Polling,
                Action::PollEvent,
            )
        },
        worker.stage is ReadingTopology ==> {
            &&& !worker.ready ==> {
                let (after, directive) = worker.next(Reply::Value(100));
                &&& after == (PlaybackWorker {
                    stage: Stage::FindingDisplay,
                    ready: true,
                    ..worker
                })
                &&& directive.notice is None
                &&& directive.action is FindDisplay
            }
            &&& worker.ready || status != 100 ==> asks_for(
                worker,
                Reply::Value(status),
                Stage::Polling,
                Action::PollEvent,
            )
        },
{
}

/// Playback begins once: the display, where there is one, keeps the
/// aspect ratio and gets the size of the moment, and the session starts
/// from where it stands. Without a display it starts all the same.
pub proof fn playback_begins_after_the_display(worker: PlaybackWorker, code: i32)
    ensures
        ({
            let begun = PlaybackWorker {
                stage: Stage::Operating(Some(Notice::Playing)),
                playing: true,
                ..worker
            };
            let started = Directive { notice: None, action: Action::Start { rewind: false } };
            &&& worker.stage is FindingDisplay ==> {
                &&& worker.next(Reply::Failed(code)) == (begun, started)
                &&& worker.next(Reply::Done) == (
                    PlaybackWorker { stage: Stage::SettingAspect, display: true, ..worker },
                    Directive { notice: None, action: Action::SetAspect },
                )
            }
            &&& worker.stage is SettingAspect ==> {
                &&& ends_with(worker, Reply::Failed(code), Err(code))
                &&& asks_for(
                    worker,
                    Reply::Done,
                    Stage::SizingDisplay,
                    Action::Resize(worker.width, worker.height),
                )
            }
            &&& worker.stage is SizingDisplay ==> {
                &&& ends_with(worker, Reply::Failed(code), Err(code))
                &&& worker.next(Reply::Done) == (begun, started)
            }
        }),
{
}

/// An operation that succeeds is told, if there is anything to tell, and
/// the worker looks at events; one that fails ends the worker.
pub proof fn operations_are_told(worker: PlaybackWorker, notice: Option<Notice>, code: i32)
    requires
        worker.stage == Stage::Operating(notice),
    ensures
        worker.next(Reply::Done) == (
            PlaybackWorker { stage: Stage::Polling, ..worker },
            Directive { notice, action: Action::PollEvent },
        ),
        ends_with(worker, Reply::Failed(code), Err(code)),
{
}

/// Closing: whether or not the request succeeds, the worker looks at the
/// clock. For half a second it takes events until the one that says the
/// session has closed, with a pause where there is none; then it ends
/// well.
pub proof fn closing_waits_for_the_session(
    worker: PlaybackWorker,
    ms: u64,
    code: i32,
    kind: u32,
)
    ensures
        worker.stage is Closing ==> asks_for(
            worker,
            Reply::Done,
            Stage::ReadingClock,
            Action::ReadClock,
        ) && asks_for(worker, Reply::Failed(code), Stage::ReadingClock, Action::ReadClock),
        worker.stage is ReadingClock ==> {
            &&& ms < 500 ==> asks_for(
                worker,
                Reply::Elapsed(ms),
                Stage::PollingClose,
                Action::PollEvent,
            )
            &&& ms >= 500 ==> ends_with(worker, Reply::Elapsed(ms), Ok(()))
        },
        worker.stage is PollingClose ==> {
            &&& asks_for(
                worker,
                Reply::Failed(MF_E_NO_EVENTS_AVAILABLE),
                Stage::Sleeping,
                Action::Sleep,
            )
            &&& code != MF_E_NO_EVENTS_AVAILABLE ==> ends_with(
                worker,
                Reply::Failed(code),
                Ok(()),
            )
            &&& asks_for(worker, Reply::Done, Stage::ReadingCloseType, Action::ReadType)
        },
        worker.stage is ReadingCloseType ==> {
            &&& ends_with(worker, Reply::Value(106), Ok(()))
            &&& kind != 106 ==> asks_for(
                worker,
                Reply::Value(kind),
                Stage::ReadingClock,
                Action::ReadClock,
            )
            &&& asks_for(worker, Reply::Failed(code), Stage::ReadingClock, Action::ReadClock)
        },
        worker.stage is Sleeping ==> asks_for(
            worker,
            Reply::Done,
            Stage::ReadingClock,
            Action::ReadClock,
        ),
{
}

/// The setup runs through its steps one after the other, and then the
/// worker waits for orders.
pub proof fn setup_runs_in_order(worker: PlaybackWorker)
    ensures
        worker.stage == Stage::Setup(SetupStep::EnterApartment) ==> asks_for(
            worker,
            Reply::Done,
            Stage::Setup(SetupStep::StartPlatform),
            Action::Setup(SetupStep::StartPlatform),
        ),
        worker.stage == Stage::Setup(SetupStep::StartPlatform) ==> asks_for(
            worker,
            Reply::Done,
            Stage::Setup(SetupStep::OpenStream),
            Action::Setup(SetupStep::OpenStream),
        ),
        worker.stage == Stage::Setup(SetupStep::OpenStream) ==> asks_for(
            worker,
            Reply::Done,
            Stage::Setup(SetupStep::OpenByteStream),
            Action::Setup(SetupStep::OpenByteStream),
        ),
        worker.stage == Stage::Setup(SetupStep::OpenByteStream) ==> asks_for(
            worker,
            Reply::Done,
            Stage::Setup(SetupStep::CreateResolver),
            Action::Setup(SetupStep::CreateResolver),
        ),
        worker.stage == Stage::Setup(SetupStep::CreateResolver) ==> asks_for(
            worker,
            Reply::Done,
            Stage::Setup(SetupStep::ResolveSource),
            Action::Setup(SetupStep::ResolveSource),
        ),
        worker.stage == Stage::Setup(SetupStep::ResolveSource) ==> asks_for(
            worker,
            Reply::Done,
            Stage::Setup(SetupStep::BuildTopology),
            Action::Setup(SetupStep::BuildTopology),
        ),
        worker.stage == Stage::Setup(SetupStep::BuildTopology) ==> asks_for(
            worker,
            Reply::Done,
            Stage::Setup(SetupStep::CreateSession),
            Action::Setup(SetupStep::CreateSession),
        ),
        worker.stage == Stage::Setup(SetupStep::CreateSession) ==> asks_for(
            worker,
            Reply::Done,
            Stage::Setup(SetupStep::AttachTopology),
            Action::Setup(SetupStep::AttachTopology),
        ),
        worker.stage == Stage::Setup(SetupStep::AttachTopology) ==> asks_for(
            worker,
            Reply::Done,
            Stage::Waiting,
            Action::Receive,
        ),
{
}

/// A setup step that fails, or gives no object, ends the worker with its
/// status code or the general one; only what was entered before is left.
pub proof fn setup_ends_at_a_failure(worker: PlaybackWorker, step: SetupStep, code: i32)
    requires
        worker.stage == Stage::Setup(step),
    ensures
        worker.next(Reply::Failed(code)) == (
            PlaybackWorker { stage: Stage::Finished, ..worker },
            Directive {
                notice: None,
                action: Action::Finish {
                    result: Err(code),
                    stop_platform: step != SetupStep::EnterApartment && step
                        != SetupStep::StartPlatform,
                    leave_apartment: step != SetupStep::EnterApartment,
                },
            },
        ),
        worker.next(Reply::Missing) == worker.next(Reply::Failed(E_FAIL)),
{
}

/// Each stage takes the outcomes of its own action and no others.
pub proof fn replies_fit_the_stage(worker: PlaybackWorker, reply: Reply)
    ensures
        reply is Done ==> (worker.awaits(reply) <==> !(worker.stage is Waiting || worker.stage
            is ReadingStatus || worker.stage is ReadingType || worker.stage is ReadingTopology
            || worker.stage is ReadingClock || worker.stage is ReadingCloseType || worker.stage
            is Finished)),
        reply is Missing ==> (worker.awaits(reply) <==> worker.stage is Setup),
        reply is Failed ==> (worker.awaits(reply) <==> !(worker.stage is Waiting || worker.stage
            is ReadingClock || worker.stage is Sleeping || worker.stage is Finished)),
        reply is Received ==> (worker.awaits(reply) <==> worker.stage is Waiting),
        reply is Status ==> (worker.awaits(reply) <==> worker.stage is ReadingStatus),
        reply is Value ==> (worker.awaits(reply) <==> worker.stage is ReadingType || worker.stage
            is ReadingTopology || worker.stage is ReadingCloseType),
        reply is Elapsed ==> (worker.awaits(reply) <==> worker.stage is ReadingClock),
{
}

/// A side below one pixel counts as one; every other one stays.
pub proof fn sides_are_at_least_one(side: i32)
    ensures
        side >= 1 ==> at_least_one(side) == side,
        side < 1 ==> at_least_one(side) == 1,
{
}

/// Do these four bytes stand at this position?
pub open spec fn four_at(bytes: Seq<u8>, at: int, a: u8, b: u8, c: u8, d: u8) -> bool {
    0 <= at <= bytes.len() - 4 && bytes[at] == a && bytes[at + 1] == b && bytes[at + 2] == c
        && bytes[at + 3] == d
}

/// A clip is taken for H.265 exactly if `hvc1` or `hev1` occurs in it, at
/// any position, and for H.264 exactly if neither does but `avc1` or
/// `avc3`.
pub proof fn codec_is_told_by_tags(bytes: Seq<u8>)
    ensures
        ({
            let hevc = exists|at: int|
                #![trigger bytes[at]]
                four_at(bytes, at, 0x68, 0x76, 0x63, 0x31) || four_at(
                    bytes,
                    at,
                    0x68,
                    0x65,
                    0x76,
                    0x31,
                );
            let avc = exists|at: int|
                #![trigger bytes[at]]
                four_at(bytes, at, 0x61, 0x76, 0x63, 0x31) || four_at(
                    bytes,
                    at,
                    0x61,
                    0x76,
                    0x63,
                    0x33,
                );
            &&& codec_of(bytes) == VideoCodec::Hevc <==> hevc
            &&& codec_of(bytes) == VideoCodec::H264 <==> !hevc && avc
            &&& codec_of(bytes) == VideoCodec::Unknown <==> !hevc && !avc
        }),
{
    assert forall|at: int|
        0 <= at && at + 4 <= bytes.len() implies #[trigger] tag_at(bytes, at, tag_hvc1())
        == four_at(bytes, at, 0x68, 0x76, 0x63, 0x31) by {
        lemma_tag_at(bytes, at, 0x68, 0x76, 0x63, 0x31);
    }
    assert forall|at: int|
        0 <= at && at + 4 <= bytes.len() implies #[trigger] tag_at(bytes, at, tag_hev1())
        == four_at(bytes, at, 0x68, 0x65, 0x76, 0x31) by {
        lemma_tag_at(bytes, at, 0x68, 0x65, 0x76, 0x31);
    }
    assert forall|at: int|
        0 <= at && at + 4 <= bytes.len() implies #[trigger] tag_at(bytes, at, tag_avc1())
        == four_at(bytes, at, 0x61, 0x76, 0x63, 0x31) by {
        lemma_tag_at(bytes, at, 0x61, 0x76, 0x63, 0x31);
    }
    assert forall|at: int|
        0 <= at && at + 4 <= bytes.len() implies #[trigger] tag_at(bytes, at, tag_avc3())
        == four_at(bytes, at, 0x61, 0x76, 0x63, 0x33) by {
        lemma_tag_at(bytes, at, 0x61, 0x76, 0x63, 0x33);
    }
    if has_tag(bytes, tag_hvc1()) {
        let at = choose|at: int| #[trigger] tag_at(bytes, at, tag_hvc1());
        assert(four_at(bytes, at, 0x68, 0x76, 0x63, 0x31));
    }
    if has_tag(bytes, tag_hev1()) {
        let at = choose|at: int| #[trigger] tag_at(bytes, at, tag_hev1());
        assert(four_at(bytes, at, 0x68, 0x65, 0x76, 0x31));
    }
    if has_tag(bytes, tag_avc1()) {
        let at = choose|at: int| #[trigger] tag_at(bytes, at, tag_avc1());
        assert(four_at(bytes, at, 0x61, 0x76, 0x63, 0x31));
    }
    if has_tag(bytes, tag_avc3()) {
        let at = choose|at: int| #[trigger] tag_at(bytes, at, tag_avc3());
        assert(four_at(bytes, at, 0x61, 0x76, 0x63, 0x33));
    }
    assert forall|at: int| #![trigger bytes[at]] four_at(bytes, at, 0x68, 0x76, 0x63, 0x31)
        || four_at(bytes, at, 0x68, 0x65, 0x76, 0x31) implies codec_of(bytes)
        == VideoCodec::Hevc by {
        assert(tag_at(bytes, at, tag_hvc1()) || tag_at(bytes, at, tag_hev1()));
    }
    assert forall|at: int| #![trigger bytes[at]] four_at(bytes, at, 0x61, 0x76, 0x63, 0x31)
        || four_at(bytes, at, 0x61, 0x76, 0x63, 0x33) implies codec_of(bytes)
        != VideoCodec::Unknown by {
        assert(tag_at(bytes, at, tag_avc1()) || tag_at(bytes, at, tag_avc3()));
    }
}

/// A stream is left alone unless it is described and selected. Of the
/// others, video and audio streams go to their renderers and all the
/// rest is deselected.
pub proof fn streams_are_treated_by_type(stream: StreamInfo)
    ensures
        plan_for(stream) is Skip <==> !(stream.described && stream.selected),
        plan_for(stream) is Video <==> stream.described && stream.selected && stream.major_type
            == 0x73646976_0000_0010_8000_00aa00389b71,
        plan_for(stream) is Audio <==> stream.described && stream.selected && stream.major_type
            == 0x73647561_0000_0010_8000_00aa00389b71,
{
}

/// The numbers by which notices travel. Only a failure carries its status
/// code.
pub proof fn notices_travel_by_number(status: i32, number: usize)
    ensures
        notice_words(Notice::Playing) == (1usize, 0i32),
        notice_words(Notice::Paused) == (2usize, 0i32),
        notice_words(Notice::Ended) == (3usize, 0i32),
        notice_words(Notice::Failed(status)) == (4usize, status),
        notice_from(1, status) == Some(Notice::Playing),
        notice_from(2, status) == Some(Notice::Paused),
        notice_from(3, status) == Some(Notice::Ended),
        notice_from(4, status) == Some(Notice::Failed(status)),
        !(1 <= number <= 4) ==> notice_from(number, status) is None,
{
}

/// The upper half of a message word is the token, and the lower half the
/// status code, a negative one in its two's complement.
pub proof fn notice_word_halves(token: u32, status: i32)
    ensures
        0 <= notice_word(token, status) <= u64::MAX,
        notice_word(token, status) / 0x1_0000_0000 == token,
        status >= 0 ==> notice_word(token, status) % 0x1_0000_0000 == status,
        status < 0 ==> notice_word(token, status) % 0x1_0000_0000 == 0x1_0000_0000 + status,
{
}

/// A clip can be played if and only if one of its streams, wherever it
/// stands, is a video stream that is described and selected.
pub proof fn one_video_stream_is_enough(streams: Seq<StreamInfo>)
    ensures
        has_video(streams) <==> exists|k: int|
            0 <= k < streams.len() && (#[trigger] streams[k]).described && streams[k].selected
                && streams[k].major_type == 0x73646976_0000_0010_8000_00aa00389b71,
{
    if has_video(streams) {
        let k = choose|k: int|
            0 <= k < streams.len() && plan_for(#[trigger] streams[k]) == StreamPlan::Video;
        assert(streams[k].described);
    }
    if exists|k: int|
        0 <= k < streams.len() && (#[trigger] streams[k]).described && streams[k].selected
            && streams[k].major_type == 0x73646976_0000_0010_8000_00aa00389b71 {
        let k = choose|k: int|
            0 <= k < streams.len() && (#[trigger] streams[k]).described && streams[k].selected
                && streams[k].major_type == 0x73646976_0000_0010_8000_00aa00389b71;
        assert(plan_for(streams[k]) == StreamPlan::Video);
    }
}

} // verus!
