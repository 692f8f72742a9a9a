//! The bundled software decoder, used when the system's media pipeline
//! cannot play a clip.
//!
//! The clip and the decoded frames stay in bounded memory. The decoder
//! reads the clip through [`MemoryInput`], agrees on a frame layout with
//! [`negotiate`], and is driven by [`FallbackWorker::step`].

use vstd::prelude::*;

use crate::hresult::E_FAIL;
use crate::preview::geometry::Rect;
use crate::preview::directory::directory_of;
use crate::preview::video::{Notice, Received};
use crate::rounding::{scale_floor, scale_round};

verus! {

/// Pixel format asked of the decoder, which matches a top-down bitmap.
pub const CHROMA: [u8; 4] = [0x52, 0x56, 0x33, 0x32];

/// Largest side of a clip that is accepted.
pub const MAX_SOURCE_SIDE: u32 = 16384;

/// Largest side of a decoded frame.
pub const MAX_FRAME_SIDE: u32 = 1280;

/// Rows and row counts are padded to multiples of this.
pub const FRAME_ALIGNMENT: u32 = 32;

/// Size and memory layout of decoded frames.
#[derive(Debug, Clone, Copy, PartialEq, Eq, Structural)]
pub struct FrameLayout {
    pub width: u32,
    pub height: u32,
    /// Bytes per row.
    pub pitch: u32,
    /// Rows in memory.
    pub lines: u32,
    /// Blocks of [`FRAME_ALIGNMENT`] bytes that hold the frame.
    pub blocks: usize,
}

/// The smallest multiple of `unit` that is at least `n`.
pub open spec fn padded(n: int, unit: int) -> int {
    (n + unit - 1) / unit * unit
}

/// Side of a decoded frame: frames whose longest side is larger than the
/// limit are shrunk to it, with the factor in double precision, and no
/// side vanishes.
pub open spec fn frame_side(side: int, longest: int) -> int {
    if longest <= MAX_FRAME_SIDE {
        side
    } else if scaled_side(side, longest) < 1 {
        1
    } else {
        scaled_side(side, longest)
    }
}

/// `side` times the factor that shrinks `longest` to the limit.
pub open spec fn scaled_side(side: int, longest: int) -> int {
    crate::rounding::scaled_floor(side, MAX_FRAME_SIDE as int, longest)
}

/// Can a clip with frames of this size be decoded?
pub open spec fn decodable(width: u32, height: u32) -> bool {
    1 <= width <= MAX_SOURCE_SIDE && 1 <= height <= MAX_SOURCE_SIDE
}

/// The larger one of two sides.
pub open spec fn longest_side(width: u32, height: u32) -> u32 {
    if width >= height {
        width
    } else {
        height
    }
}

impl FrameLayout {
    /// What holds of every layout: the frame is neither empty nor larger
    /// than the limit, and each of its rows fits in its place.
    pub open spec fn wf(self) -> bool {
        &&& 1 <= self.width <= MAX_FRAME_SIDE
        &&& 1 <= self.height <= MAX_FRAME_SIDE
        &&& self.pitch == padded(4 * self.width as int, FRAME_ALIGNMENT as int)
        &&& self.lines == padded(self.height as int, FRAME_ALIGNMENT as int)
        &&& self.blocks * FRAME_ALIGNMENT == self.pitch * self.lines
    }
}

proof fn lemma_padded(n: int)
    requires
        n >= 0,
    ensures
        n <= padded(n, 32) < n + 32,
        padded(n, 32) % 32 == 0,
{
}

fn pad(n: u32) -> (p: u32)
    requires
        n <= 0x1_0000,
    ensures
        p == padded(n as int, FRAME_ALIGNMENT as int),
        p % 32 == 0,
        n <= p < n + 32,
{
    (n + (FRAME_ALIGNMENT - 1)) / FRAME_ALIGNMENT * FRAME_ALIGNMENT
}

fn shrink(side: u32, longest: u32) -> (shrunk: u32)
    requires
        1 <= side <= longest <= MAX_SOURCE_SIDE,
    ensures
        shrunk == frame_side(side as int, longest as int),
        1 <= shrunk <= MAX_FRAME_SIDE,
{
    if longest <= MAX_FRAME_SIDE {
        return side;
    }
    proof {
        assert(side * MAX_FRAME_SIDE <= MAX_FRAME_SIDE * longest) by (nonlinear_arith)
            requires
                side <= longest,
        ;
        crate::rounding::scaling_respects_bounds(
            side as int,
            MAX_FRAME_SIDE as int,
            longest as int,
            MAX_FRAME_SIDE as int,
        );
    }
    let scaled: u32 = scale_floor(side, MAX_FRAME_SIDE, longest) as u32;
    if scaled < 1 {
        1
    } else {
        scaled
    }
}

/// Agrees with the decoder on the layout of decoded frames. Sizes that
/// no real clip has are refused.
pub fn negotiate(width: u32, height: u32) -> (layout: Option<FrameLayout>)
    ensures
        match layout {
            Some(layout) => {
                let longest = longest_side(width, height) as int;
                &&& decodable(width, height)
                &&& layout.wf()
                &&& layout.width == frame_side(width as int, longest)
                &&& layout.height == frame_side(height as int, longest)
            },
            None => !decodable(width, height),
        },
        layout is Some <==> 0 < width <= 16384 && 0 < height <= 16384,
        layout matches Some(layout) ==> {
            &&& width <= 1280 && height <= 1280 ==> layout.width == width && layout.height
                == height
            &&& layout.pitch % 32 == 0 && 4 * layout.width <= layout.pitch < 4 * layout.width + 32
            &&& layout.lines % 32 == 0 && layout.height <= layout.lines < layout.height + 32
            &&& layout.blocks * 32 == layout.pitch * layout.lines
        },
{
    if width == 0 || height == 0 || width > MAX_SOURCE_SIDE || height > MAX_SOURCE_SIDE {
        return None;
    }
    let longest: u32 = if width >= height {
        width
    } else {
        height
    };
    let width: u32 = shrink(width, longest);
    let height: u32 = shrink(height, longest);
    let pitch: u32 = pad(width * 4);
    let lines: u32 = pad(height);
    proof {
        assert((pitch / 32) * lines <= 200 * 2000) by (nonlinear_arith)
            requires
                pitch / 32 <= 200,
                lines <= 2000,
        ;
        assert(((pitch / 32) * lines) * 32 == pitch * lines) by (nonlinear_arith)
            requires
                pitch % 32 == 0,
        ;
    }
    let blocks = (pitch / FRAME_ALIGNMENT * lines) as usize;
    Some(FrameLayout { width, height, pitch, lines, blocks })
}

/// A frame never needs more memory than one of the largest allowed size
/// has pixels, and always enough for all of its rows.
pub proof fn frame_memory_is_bounded(layout: FrameLayout)
    requires
        layout.wf(),
    ensures
        layout.blocks * FRAME_ALIGNMENT <= 4 * MAX_FRAME_SIDE * MAX_FRAME_SIDE,
        layout.blocks * FRAME_ALIGNMENT >= 4 * layout.width * layout.height,
        layout.pitch % FRAME_ALIGNMENT == 0,
        layout.lines % FRAME_ALIGNMENT == 0,
{
    let pitch = layout.pitch as int;
    let lines = layout.lines as int;
    lemma_padded(4 * layout.width as int);
    lemma_padded(layout.height as int);
    assert(pitch <= 5120);
    assert(lines <= 1280);
    assert(pitch * lines <= 5120 * 1280) by (nonlinear_arith)
        requires
            0 <= pitch <= 5120,
            0 <= lines <= 1280,
    ;
    let w = layout.width as int;
    let h = layout.height as int;
    assert(pitch * lines >= (4 * w) * h) by (nonlinear_arith)
        requires
            pitch >= 4 * w,
            lines >= h,
            w >= 1,
            h >= 1,
    ;
    assert((4 * w) * h == 4 * w * h);
}

/// A clip in memory, read by the decoder through cursors.
pub struct MemoryInput {
    pub bytes: Vec<u8>,
}

/// A place in a [`MemoryInput`].
#[derive(Debug, Clone, Copy, PartialEq, Eq, Structural)]
pub struct Cursor {
    pub position: usize,
}

impl MemoryInput {
    /// Is the cursor inside the clip or at its end?
    pub open spec fn holds(self, cursor: Cursor) -> bool {
        cursor.position <= self.bytes@.len()
    }

    /// Opens the clip at its beginning and tells its size. Refused once
    /// playback is shut down.
    pub fn open(&self, shutdown: bool) -> (opened: Option<(Cursor, u64)>)
        ensures
            match opened {
                Some((cursor, size)) => !shutdown && cursor.position == 0 && size
                    == self.bytes@.len() && self.holds(cursor),
                None => shutdown,
            },
    {
        if shutdown {
            return None;
        }
        Some((Cursor { position: 0 }, self.bytes.len() as u64))
    }

    /// Reads up to `length` bytes at the cursor and moves it behind
    /// them; an empty result means the end of the clip. Refused once
    /// playback is shut down.
    pub fn read(&self, cursor: &mut Cursor, length: usize, shutdown: bool) -> (chunk: Option<&[u8]>)
        requires
            self.holds(*old(cursor)),
        ensures
            self.holds(*final(cursor)),
            match chunk {
                Some(chunk) => {
                    let from = old(cursor).position as int;
                    let rest = self.bytes@.len() - from;
                    let n = if length < rest {
                        length as int
                    } else {
                        rest
                    };
                    &&& !shutdown
                    &&& final(cursor).position == from + n
                    &&& chunk@ == self.bytes@.subrange(from, from + n)
                },
                None => shutdown && *final(cursor) == *old(cursor),
            },
    {
        if shutdown {
            return None;
        }
        let from: usize = cursor.position;
        let rest: usize = self.bytes.len() - from;
        let n: usize = if length < rest {
            length
        } else {
            rest
        };
        cursor.position = from + n;
        Some(vstd::slice::slice_subrange(self.bytes.as_slice(), from, from + n))
    }

    /// Moves the cursor. Places behind the end are refused, and so is
    /// everything once playback is shut down.
    pub fn seek(&self, cursor: &mut Cursor, offset: u64, shutdown: bool) -> (moved: bool)
        requires
            self.holds(*old(cursor)),
        ensures
            self.holds(*final(cursor)),
            moved == (!shutdown && offset <= self.bytes@.len()),
            moved ==> final(cursor).position == offset,
            !moved ==> *final(cursor) == *old(cursor),
    {
        if shutdown || offset > self.bytes.len() as u64 {
            return false;
        }
        cursor.position = offset as usize;
        true
    }
}

/// What the decoder gets when it reads `lengths` bytes, one request
/// after the other.
pub open spec fn read_all(bytes: Seq<u8>, position: int, lengths: Seq<usize>) -> Seq<u8>
    decreases lengths.len(),
{
    if lengths.len() == 0 {
        Seq::empty()
    } else {
        let rest = bytes.len() - position;
        let n = if lengths[0] < rest {
            lengths[0] as int
        } else {
            rest
        };
        bytes.subrange(position, position + n) + read_all(bytes, position + n, lengths.skip(1))
    }
}

/// However the decoder splits its requests, it reads the clip in order
/// and without gaps, up to what it asked for or the end.
pub proof fn reads_are_contiguous(bytes: Seq<u8>, position: int, lengths: Seq<usize>)
    requires
        0 <= position <= bytes.len(),
    ensures
        read_all(bytes, position, lengths).is_prefix_of(bytes.skip(position)),
        position + read_all(bytes, position, lengths).len() < bytes.len() ==> read_all(
            bytes,
            position,
            lengths,
        ).len() == total(lengths),
    decreases lengths.len(),
{
    if lengths.len() > 0 {
        let rest = bytes.len() - position;
        let n = if lengths[0] < rest {
            lengths[0] as int
        } else {
            rest
        };
        let tail = read_all(bytes, position + n, lengths.skip(1));
        reads_are_contiguous(bytes, position + n, lengths.skip(1));
        let all = read_all(bytes, position, lengths);
        assert forall|k: int| 0 <= k < all.len() implies all[k] == bytes.skip(position)[k] by {
            if k >= n {
                assert(tail[k - n] == bytes.skip(position + n)[k - n]);
            }
        }
    }
}

/// Sum of the requested lengths.
pub open spec fn total(lengths: Seq<usize>) -> int
    decreases lengths.len(),
{
    if lengths.len() == 0 {
        0
    } else {
        lengths[0] + total(lengths.skip(1))
    }
}

/// What painting a decoded frame amounts to.
#[derive(Debug, Clone, Copy, PartialEq, Eq, Structural)]
pub enum PaintPlan {
    /// Playback is not active: somebody else paints.
    Decline,
    /// There is no area to paint on.
    Nothing,
    /// No new frame: show what was composed last.
    Present,
    /// Compose the frame on the back buffer, then show it.
    Compose(Blit),
}

/// How a frame is drawn on the back buffer, which is blackened before.
#[derive(Debug, Clone, Copy, PartialEq, Eq, Structural)]
pub struct Blit {
    /// Size of the back buffer.
    pub width: i32,
    pub height: i32,
    /// Place and size of the picture on it.
    pub x: i32,
    pub y: i32,
    pub w: i32,
    pub h: i32,
    /// Size of the frame.
    pub frame_width: i32,
    pub frame_height: i32,
    /// Width of the frame in memory, padding included.
    pub bitmap_width: i32,
}

/// Side of the picture: the frame's side, scaled so that the whole frame
/// just fits into the rectangle, with the factor in double precision.
pub open spec fn picture_side(side: int, frame: FrameLayout, width: int, height: int) -> int {
    if width * frame.height <= height * frame.width {
        crate::rounding::scaled_round(side, width, frame.width as int)
    } else {
        crate::rounding::scaled_round(side, height, frame.height as int)
    }
}

/// Where and how large a frame appears in a rectangle: as large as fits,
/// with its aspect ratio kept, in the middle.
pub open spec fn fits_picture(blit: Blit, rect: Rect, frame: FrameLayout) -> bool {
    let width = rect.spec_width();
    let height = rect.spec_height();
    &&& blit.width == width
    &&& blit.height == height
    &&& blit.w == picture_side(frame.width as int, frame, width, height)
    &&& blit.h == picture_side(frame.height as int, frame, width, height)
    &&& blit.x == (width - blit.w) / 2
    &&& blit.y == (height - blit.h) / 2
    &&& blit.frame_width == frame.width
    &&& blit.frame_height == frame.height
    &&& blit.bitmap_width == frame.pitch / 4
}

/// The picture lies inside the rectangle.
pub proof fn picture_fits(rect: Rect, frame: FrameLayout)
    requires
        rect.extents_fit(),
        rect.spec_width() >= 1,
        rect.spec_height() >= 1,
        frame.wf(),
    ensures
        0 <= picture_side(frame.width as int, frame, rect.spec_width(), rect.spec_height())
            <= rect.spec_width(),
        0 <= picture_side(frame.height as int, frame, rect.spec_width(), rect.spec_height())
            <= rect.spec_height(),
{
    let width = rect.spec_width();
    let height = rect.spec_height();
    let fw = frame.width as int;
    let fh = frame.height as int;
    if width * fh <= height * fw {
        assert(fw * width <= width * fw) by (nonlinear_arith);
        assert(fh * width <= height * fw) by (nonlinear_arith)
            requires
                width * fh <= height * fw,
        ;
        crate::rounding::scaling_respects_bounds(fw, width, fw, width);
        crate::rounding::scaling_respects_bounds(fh, width, fw, height);
    } else {
        assert(fh * height <= height * fh) by (nonlinear_arith);
        assert(fw * height <= width * fh) by (nonlinear_arith)
            requires
                height * fw < width * fh,
        ;
        crate::rounding::scaling_respects_bounds(fh, height, fh, height);
        crate::rounding::scaling_respects_bounds(fw, height, fh, width);
    }
}

fn place_picture(rect: Rect, frame: FrameLayout) -> (blit: Blit)
    requires
        rect.extents_fit(),
        rect.spec_width() >= 1,
        rect.spec_height() >= 1,
        frame.wf(),
    ensures
        fits_picture(blit, rect, frame),
{
    let width: i32 = rect.width();
    let height: i32 = rect.height();
    proof {
        picture_fits(rect, frame);
        lemma_padded(4 * frame.width as int);
        assert(width * frame.height <= 0x8000_0000 * 1280) by (nonlinear_arith)
            requires
                0 <= width <= 0x8000_0000,
                0 <= frame.height <= 1280,
        ;
        assert(height * frame.width <= 0x8000_0000 * 1280) by (nonlinear_arith)
            requires
                0 <= height <= 0x8000_0000,
                0 <= frame.width <= 1280,
        ;
    }
    let (n, d): (u32, u32) = if width as u64 * frame.height as u64 <= height as u64
        * frame.width as u64 {
        (width as u32, frame.width)
    } else {
        (height as u32, frame.height)
    };
    let w: i32 = scale_round(frame.width, n, d) as i32;
    let h: i32 = scale_round(frame.height, n, d) as i32;
    Blit {
        width,
        height,
        x: (width - w) / 2,
        y: (height - h) / 2,
        w,
        h,
        frame_width: frame.width as i32,
        frame_height: frame.height as i32,
        bitmap_width: (frame.pitch / 4) as i32,
    }
}

/// Decides how a paint request is answered. `frame` is the latest frame,
/// if there is one and the decoder is not replacing it right now: the
/// decoder never holds up the window.
pub fn plan_paint(active: bool, rect: Rect, frame: Option<FrameLayout>) -> (plan: PaintPlan)
    requires
        rect.extents_fit(),
        frame matches Some(frame) ==> frame.wf(),
    ensures
        match plan {
            PaintPlan::Decline => !active,
            PaintPlan::Nothing => active && (rect.spec_width() <= 0 || rect.spec_height() <= 0),
            PaintPlan::Present => active && rect.spec_width() > 0 && rect.spec_height() > 0
                && frame is None,
            PaintPlan::Compose(blit) => active && rect.spec_width() > 0 && rect.spec_height() > 0
                && frame is Some && fits_picture(blit, rect, frame->0),
        },
{
    if !active {
        return PaintPlan::Decline;
    }
    if rect.width() <= 0 || rect.height() <= 0 {
        return PaintPlan::Nothing;
    }
    match frame {
        Some(frame) => PaintPlan::Compose(place_picture(rect, frame)),
        None => PaintPlan::Present,
    }
}

/// What the decoder's display callback does with a finished frame.
#[derive(Debug, Clone, Copy, PartialEq, Eq, Structural)]
pub struct Publication {
    /// Copy the frame to where the window sees it, and tell the window
    /// that there is a new one.
    pub publish: bool,
    /// Tell the window first that playback has begun.
    pub begins: bool,
}

/// Decides what happens to a finished frame. `shown` remembers whether a
/// frame has been shown since playback was started; after shutdown
/// nothing is shown any more.
pub fn publish_frame(shutdown: bool, shown: &mut bool) -> (publication: Publication)
    ensures
        publication.publish == !shutdown,
        publication.begins == (!shutdown && !*old(shown)),
        *final(shown) == (*old(shown) || !shutdown),
{
    if shutdown {
        return Publication { publish: false, begins: false };
    }
    let begins = !*shown;
    *shown = true;
    Publication { publish: true, begins }
}

/// What the window asks of the decoder between two looks.
#[derive(Debug, Clone, Copy, PartialEq, Eq, Structural)]
pub enum Request {
    Nothing,
    Play,
    Pause,
    Resume,
}

/// What has to be set up, in this order, before the decoder runs.
#[derive(Debug, Clone, Copy, PartialEq, Eq, Structural)]
pub enum FallbackSetup {
    /// Load the runtime's functions.
    LoadRuntime,
    /// Get the engine, which all clips share.
    GetEngine,
    /// Open the clip.
    OpenMedia,
    /// Create the player.
    CreatePlayer,
    /// Give the player its callbacks and let the window paint frames.
    Activate,
}

/// What the worker of the software decoder is waiting for.
#[derive(Debug, Clone, Copy, PartialEq, Eq, Structural)]
pub enum FallbackStage {
    Setup(FallbackSetup),
    CheckingShutdown,
    Waiting,
    TakingRequest,
    Starting,
    Pausing,
    ReadingState,
    /// The clip has ended: was a frame shown?
    JudgingEnd,
    /// Was a frame shown since playback was started?
    CheckingFrame,
    ReadingClock,
    Finished,
}

/// What the caller is to do.
#[derive(Debug, Clone, Copy, PartialEq, Eq)]
pub enum FallbackAction {
    Setup(FallbackSetup),
    /// Read the shutdown flag.
    CheckShutdown,
    /// Wait a moment for the channel to the window.
    Receive,
    /// Take the window's request, leaving none.
    TakeRequest,
    /// Stop the player if so told, forget that a frame was shown, and
    /// start the player; restart the clock if that succeeds.
    Play { stop: bool },
    /// Pause or resume the player.
    SetPause(bool),
    /// Read the player's state.
    ReadState,
    /// Read whether a frame was shown since playback was started.
    ReadShown,
    /// Read the nanoseconds since playback was started.
    ReadClock,
    /// Stop and release the player and release the clip, as far as the
    /// flags say, and return the result.
    Finish { result: Result<(), i32>, release_player: bool, release_media: bool },
}

/// The outcome of an action.
#[derive(Debug, Clone, Copy, PartialEq, Eq, Structural)]
pub enum FallbackReply {
    Done,
    /// The call gave no object.
    Missing,
    Failed(i32),
    Flag(bool),
    Received(Received),
    Request(Request),
    Code(i32),
    Elapsed(u128),
}

/// A notice to post, if any, and then an action to perform.
#[derive(Debug, Clone, Copy, PartialEq, Eq)]
pub struct FallbackDirective {
    pub notice: Option<Notice>,
    pub action: FallbackAction,
}

/// Player state: playing.
pub const STATE_PLAYING: i32 = 3;

/// Player state: paused.
pub const STATE_PAUSED: i32 = 4;

/// Player state: the clip has ended.
pub const STATE_ENDED: i32 = 6;

/// Player state: an error occurred.
pub const STATE_ERROR: i32 = 7;

/// How long the decoder may take to show its first frame: 15 seconds.
pub const FIRST_FRAME_LIMIT_NS: u128 = 15_000_000_000;

/// State of the software decoder's worker.
#[derive(Debug, Clone, Copy, PartialEq, Eq, Structural)]
pub struct FallbackWorker {
    pub stage: FallbackStage,
    /// Playback has been started at least once.
    pub started: bool,
    /// The player state that was seen last, zero at the start.
    pub last_state: i32,
}

impl FallbackWorker {
    /// What holds of the state between any two steps.
    pub open spec fn wf(self) -> bool {
        &&& self.stage is Setup ==> !self.started && self.last_state == 0
        &&& self.stage is Pausing || self.stage is CheckingFrame || self.stage is ReadingClock
            ==> self.started
    }

    /// Is `reply` an outcome of the action that the worker asked for?
    pub open spec fn awaits(self, reply: FallbackReply) -> bool {
        match self.stage {
            FallbackStage::Setup(_) => reply is Done || reply is Missing || reply is Failed,
            FallbackStage::CheckingShutdown => reply is Flag,
            FallbackStage::Waiting => reply is Received,
            FallbackStage::TakingRequest => reply is Request,
            FallbackStage::Starting => reply is Code,
            FallbackStage::Pausing => reply is Done,
            FallbackStage::ReadingState => reply is Code,
            FallbackStage::JudgingEnd => reply is Flag,
            FallbackStage::CheckingFrame => reply is Flag,
            FallbackStage::ReadingClock => reply is Elapsed,
            FallbackStage::Finished => false,
        }
    }

    /// Asks for `action` and waits for its outcome in `stage`.
    pub open spec fn asks(self, stage: FallbackStage, action: FallbackAction) -> (
        FallbackWorker,
        FallbackDirective,
    ) {
        (FallbackWorker { stage, ..self }, FallbackDirective { notice: None, action })
    }

    /// Ends the worker. What was created is released.
    pub open spec fn finished(self, result: Result<(), i32>) -> (
        FallbackWorker,
        FallbackDirective,
    ) {
        self.asks(
            FallbackStage::Finished,
            FallbackAction::Finish {
                result,
                release_player: match self.stage {
                    FallbackStage::Setup(step) => step is Activate,
                    _ => true,
                },
                release_media: match self.stage {
                    FallbackStage::Setup(step) => step is Activate || step is CreatePlayer,
                    _ => true,
                },
            },
        )
    }

    /// Has taken note of the player's state: looks whether the first
    /// frame is overdue, then goes on to the next round.
    pub open spec fn noted(self, state: i32, notice: Option<Notice>) -> (
        FallbackWorker,
        FallbackDirective,
    ) {
        if self.started {
            (
                FallbackWorker {
                    stage: FallbackStage::CheckingFrame,
                    last_state: state,
                    ..self
                },
                FallbackDirective { notice, action: FallbackAction::ReadShown },
            )
        } else {
            (
                FallbackWorker {
                    stage: FallbackStage::CheckingShutdown,
                    last_state: state,
                    ..self
                },
                FallbackDirective { notice, action: FallbackAction::CheckShutdown },
            )
        }
    }

    /// What the player's state leads to.
    pub open spec fn observed(self, state: i32) -> (FallbackWorker, FallbackDirective) {
        if state == self.last_state {
            self.noted(state, None)
        } else if state == STATE_PLAYING && self.last_state == STATE_PAUSED {
            self.noted(state, Some(Notice::Playing))
        } else if state == STATE_PAUSED {
            self.noted(state, Some(Notice::Paused))
        } else if state == STATE_ENDED {
            self.asks(FallbackStage::JudgingEnd, FallbackAction::ReadShown)
        } else if state == STATE_ERROR {
            self.finished(Err(E_FAIL))
        } else {
            self.noted(state, None)
        }
    }

    /// The state and the directive that follow on `reply`.
    pub open spec fn next(self, reply: FallbackReply) -> (FallbackWorker, FallbackDirective) {
        match (self.stage, reply) {
            (FallbackStage::Setup(_), FallbackReply::Failed(code)) => self.finished(Err(code)),
            (FallbackStage::Setup(_), FallbackReply::Missing) => self.finished(Err(E_FAIL)),
            (FallbackStage::Setup(step), _) => match step {
                FallbackSetup::LoadRuntime => self.asks(
                    FallbackStage::Setup(FallbackSetup::GetEngine),
                    FallbackAction::Setup(FallbackSetup::GetEngine),
                ),
                FallbackSetup::GetEngine => self.asks(
                    FallbackStage::Setup(FallbackSetup::OpenMedia),
                    FallbackAction::Setup(FallbackSetup::OpenMedia),
                ),
                FallbackSetup::OpenMedia => self.asks(
                    FallbackStage::Setup(FallbackSetup::CreatePlayer),
                    FallbackAction::Setup(FallbackSetup::CreatePlayer),
                ),
                FallbackSetup::CreatePlayer => self.asks(
                    FallbackStage::Setup(FallbackSetup::Activate),
                    FallbackAction::Setup(FallbackSetup::Activate),
                ),
                FallbackSetup::Activate => self.asks(
                    FallbackStage::CheckingShutdown,
                    FallbackAction::CheckShutdown,
                ),
            },
            (FallbackStage::CheckingShutdown, FallbackReply::Flag(shutdown)) => if shutdown {
                self.finished(Ok(()))
            } else {
                self.asks(FallbackStage::Waiting, FallbackAction::Receive)
            },
            (FallbackStage::Waiting, FallbackReply::Received(received)) => if received
                is Disconnected {
                self.finished(Ok(()))
            } else {
                self.asks(FallbackStage::TakingRequest, FallbackAction::TakeRequest)
            },
            (FallbackStage::TakingRequest, FallbackReply::Request(request)) => if request is Play {
                self.asks(FallbackStage::Starting, FallbackAction::Play { stop: self.started })
            } else if request is Pause && self.started {
                self.asks(FallbackStage::Pausing, FallbackAction::SetPause(true))
            } else if request is Resume && self.started {
                self.asks(FallbackStage::Pausing, FallbackAction::SetPause(false))
            } else {
                self.asks(FallbackStage::ReadingState, FallbackAction::ReadState)
            },
            (FallbackStage::Starting, FallbackReply::Code(code)) => if code != 0 {
                self.finished(Err(E_FAIL))
            } else {
                (FallbackWorker { started: true, last_state: 0, ..self }).asks(
                    FallbackStage::ReadingState,
                    FallbackAction::ReadState,
                )
            },
            (FallbackStage::Pausing, _) => self.asks(
                FallbackStage::ReadingState,
                FallbackAction::ReadState,
            ),
            (FallbackStage::ReadingState, FallbackReply::Code(state)) => self.observed(state),
            (FallbackStage::JudgingEnd, FallbackReply::Flag(shown)) => if shown {
                self.noted(STATE_ENDED, Some(Notice::Ended))
            } else {
                self.finished(Err(E_FAIL))
            },
            (FallbackStage::CheckingFrame, FallbackReply::Flag(shown)) => if shown {
                self.asks(FallbackStage::CheckingShutdown, FallbackAction::CheckShutdown)
            } else {
                self.asks(FallbackStage::ReadingClock, FallbackAction::ReadClock)
            },
            (FallbackStage::ReadingClock, FallbackReply::Elapsed(ns)) => if ns
                > FIRST_FRAME_LIMIT_NS {
                self.finished(Err(E_FAIL))
            } else {
                self.asks(FallbackStage::CheckingShutdown, FallbackAction::CheckShutdown)
            },
            _ => arbitrary(),
        }
    }

    /// A worker that is about to load the runtime. The caller performs
    /// that first step.
    pub fn new() -> (worker: FallbackWorker)
        ensures
            worker.wf(),
            worker == (FallbackWorker {
                stage: FallbackStage::Setup(FallbackSetup::LoadRuntime),
                started: false,
                last_state: 0,
            }),
    {
        FallbackWorker {
            stage: FallbackStage::Setup(FallbackSetup::LoadRuntime),
            started: false,
            last_state: 0,
        }
    }

    /// Tells whether `reply` is an outcome of the action that the
    /// worker asked for.
    pub fn accepts(&self, reply: FallbackReply) -> (fits: bool)
        ensures
            fits == self.awaits(reply),
    {
        match (self.stage, reply) {
            (FallbackStage::Setup(_), FallbackReply::Done) => true,
            (FallbackStage::Setup(_), FallbackReply::Missing) => true,
            (FallbackStage::Setup(_), FallbackReply::Failed(_)) => true,
            (FallbackStage::CheckingShutdown, FallbackReply::Flag(_)) => true,
            (FallbackStage::Waiting, FallbackReply::Received(_)) => true,
            (FallbackStage::TakingRequest, FallbackReply::Request(_)) => true,
            (FallbackStage::Starting, FallbackReply::Code(_)) => true,
            (FallbackStage::Pausing, FallbackReply::Done) => true,
            (FallbackStage::ReadingState, FallbackReply::Code(_)) => true,
            (FallbackStage::JudgingEnd, FallbackReply::Flag(_)) => true,
            (FallbackStage::CheckingFrame, FallbackReply::Flag(_)) => true,
            (FallbackStage::ReadingClock, FallbackReply::Elapsed(_)) => true,
            _ => false,
        }
    }

    fn ask(&mut self, stage: FallbackStage, action: FallbackAction) -> (
        directive: FallbackDirective)
        ensures
            (*final(self), directive) == old(self).asks(stage, action),
    {
        self.stage = stage;
        FallbackDirective { notice: None, action }
    }

    fn finish(&mut self, result: Result<(), i32>) -> (directive: FallbackDirective)
        ensures
            (*final(self), directive) == old(self).finished(result),
    {
        let (release_player, release_media) = match self.stage {
            FallbackStage::Setup(FallbackSetup::LoadRuntime) => (false, false),
            FallbackStage::Setup(FallbackSetup::GetEngine) => (false, false),
            FallbackStage::Setup(FallbackSetup::OpenMedia) => (false, false),
            FallbackStage::Setup(FallbackSetup::CreatePlayer) => (false, true),
            _ => (true, true),
        };
        self.ask(
            FallbackStage::Finished,
            FallbackAction::Finish { result, release_player, release_media },
        )
    }

    fn note(&mut self, state: i32, notice: Option<Notice>) -> (directive: FallbackDirective)
        ensures
            (*final(self), directive) == old(self).noted(state, notice),
    {
        self.last_state = state;
        if self.started {
            self.stage = FallbackStage::CheckingFrame;
            FallbackDirective { notice, action: FallbackAction::ReadShown }
        } else {
            self.stage = FallbackStage::CheckingShutdown;
            FallbackDirective { notice, action: FallbackAction::CheckShutdown }
        }
    }

    fn observe(&mut self, state: i32) -> (directive: FallbackDirective)
        ensures
            (*final(self), directive) == old(self).observed(state),
    {
        if state == self.last_state {
            self.note(state, None)
        } else if state == STATE_PLAYING && self.last_state == STATE_PAUSED {
            self.note(state, Some(Notice::Playing))
        } else if state == STATE_PAUSED {
            self.note(state, Some(Notice::Paused))
        } else if state == STATE_ENDED {
            self.ask(FallbackStage::JudgingEnd, FallbackAction::ReadShown)
        } else if state == STATE_ERROR {
            self.finish(Err(E_FAIL))
        } else {
            self.note(state, None)
        }
    }

    fn next_setup(&mut self, step: FallbackSetup) -> (directive: FallbackDirective)
        requires
            old(self).stage == FallbackStage::Setup(step),
        ensures
            (*final(self), directive) == old(self).next(FallbackReply::Done),
    {
        let after = match step {
            FallbackSetup::LoadRuntime => FallbackSetup::GetEngine,
            FallbackSetup::GetEngine => FallbackSetup::OpenMedia,
            FallbackSetup::OpenMedia => FallbackSetup::CreatePlayer,
            FallbackSetup::CreatePlayer => FallbackSetup::Activate,
            FallbackSetup::Activate => return self.ask(
                FallbackStage::CheckingShutdown,
                FallbackAction::CheckShutdown,
            ),
        };
        self.ask(FallbackStage::Setup(after), FallbackAction::Setup(after))
    }

    fn take(&mut self, request: Request) -> (directive: FallbackDirective)
        requires
            old(self).stage == FallbackStage::TakingRequest,
        ensures
            (*final(self), directive) == old(self).next(FallbackReply::Request(request)),
    {
        match request {
            Request::Play => {
                let stop = self.started;
                self.ask(FallbackStage::Starting, FallbackAction::Play { stop })
            },
            Request::Pause if self.started => {
                self.ask(FallbackStage::Pausing, FallbackAction::SetPause(true))
            },
            Request::Resume if self.started => {
                self.ask(FallbackStage::Pausing, FallbackAction::SetPause(false))
            },
            _ => self.ask(FallbackStage::ReadingState, FallbackAction::ReadState),
        }
    }

    /// Takes the outcome of the last action and says what to do next.
    pub fn step(&mut self, reply: FallbackReply) -> (directive: FallbackDirective)
        requires
            old(self).wf(),
            old(self).awaits(reply),
        ensures
            final(self).wf(),
            (*final(self), directive) == old(self).next(reply),
    {
        match (self.stage, reply) {
            (FallbackStage::Setup(_), FallbackReply::Failed(code)) => self.finish(Err(code)),
            (FallbackStage::Setup(_), FallbackReply::Missing) => self.finish(Err(E_FAIL)),
            (FallbackStage::Setup(step), _) => self.next_setup(step),
            (FallbackStage::CheckingShutdown, FallbackReply::Flag(shutdown)) => {
                if shutdown {
                    self.finish(Ok(()))
                } else {
                    self.ask(FallbackStage::Waiting, FallbackAction::Receive)
                }
            },
            (FallbackStage::Waiting, FallbackReply::Received(received)) => match received {
                Received::Disconnected => self.finish(Ok(())),
                _ => self.ask(FallbackStage::TakingRequest, FallbackAction::TakeRequest),
            },
            (FallbackStage::TakingRequest, FallbackReply::Request(request)) => self.take(request),
            (FallbackStage::Starting, FallbackReply::Code(code)) => {
                if code != 0 {
                    self.finish(Err(E_FAIL))
                } else {
                    self.started = true;
                    self.last_state = 0;
                    self.ask(FallbackStage::ReadingState, FallbackAction::ReadState)
                }
            },
            (FallbackStage::Pausing, _) => {
                self.ask(FallbackStage::ReadingState, FallbackAction::ReadState)
            },
            (FallbackStage::ReadingState, FallbackReply::Code(state)) => self.observe(state),
            (FallbackStage::JudgingEnd, FallbackReply::Flag(shown)) => {
                if shown {
                    self.note(STATE_ENDED, Some(Notice::Ended))
                } else {
                    self.finish(Err(E_FAIL))
                }
            },
            (FallbackStage::CheckingFrame, FallbackReply::Flag(shown)) => {
                if shown {
                    self.ask(FallbackStage::CheckingShutdown, FallbackAction::CheckShutdown)
                } else {
                    self.ask(FallbackStage::ReadingClock, FallbackAction::ReadClock)
                }
            },
            (FallbackStage::ReadingClock, FallbackReply::Elapsed(ns)) => {
                if ns > FIRST_FRAME_LIMIT_NS {
                    self.finish(Err(E_FAIL))
                } else {
                    self.ask(FallbackStage::CheckingShutdown, FallbackAction::CheckShutdown)
                }
            },
            _ => self.finish(Err(E_FAIL)),
        }
    }
}

/// Playing again stops the player first; pausing and resuming do nothing
/// before playback was started.
pub proof fn requests_respect_playback(worker: FallbackWorker, request: Request)
    requires
        worker.wf(),
        worker.stage == FallbackStage::TakingRequest,
    ensures
        ({
            let action = worker.next(FallbackReply::Request(request)).1.action;
            &&& action is Play <==> request is Play
            &&& action matches FallbackAction::Play { stop } ==> stop == worker.started
            &&& !worker.started && (request is Pause || request is Resume) ==> action
                == FallbackAction::ReadState
        }),
{
}

/// A state of the player is reported once: seeing the same state again
/// posts nothing.
pub proof fn state_is_reported_once(worker: FallbackWorker, state: i32)
    requires
        worker.wf(),
        worker.stage == FallbackStage::ReadingState,
        worker.last_state == state,
    ensures
        worker.next(FallbackReply::Code(state)).1.notice is None,
        worker.next(FallbackReply::Code(state)).0.last_state == state,
{
}

/// The end of the clip is reported only if a frame was shown. A clip
/// that ends without one, or shows none within the time limit, fails.
pub proof fn silent_decoder_fails(worker: FallbackWorker, reply: FallbackReply)
    requires
        worker.wf(),
        worker.awaits(reply),
    ensures
        worker.next(reply).1.notice == Some(Notice::Ended) ==> worker.stage
            == FallbackStage::JudgingEnd && reply == FallbackReply::Flag(true),
        worker.stage == FallbackStage::JudgingEnd && reply == FallbackReply::Flag(false) ==> worker.next(
            reply,
        ).1.action == (FallbackAction::Finish {
            result: Err(E_FAIL),
            release_player: true,
            release_media: true,
        }),
        worker.stage == FallbackStage::ReadingClock && (reply matches FallbackReply::Elapsed(ns)
            && ns > FIRST_FRAME_LIMIT_NS) ==> worker.next(reply).1.action == (
        FallbackAction::Finish { result: Err(E_FAIL), release_player: true, release_media: true }),
{
}

/// A worker that is told to shut down, or that nobody can reach any
/// more, ends without an error and releases everything.
pub proof fn shutdown_is_no_failure(worker: FallbackWorker)
    requires
        worker.wf(),
    ensures
        ({
            let end = FallbackAction::Finish {
                result: Ok(()),
                release_player: true,
                release_media: true,
            };
            &&& worker.stage == FallbackStage::CheckingShutdown ==> worker.next(
                FallbackReply::Flag(true),
            ).1.action == end
            &&& worker.stage == FallbackStage::Waiting ==> worker.next(
                FallbackReply::Received(Received::Disconnected),
            ).1.action == end
        }),
{
}

/// A setup step that gives no object ends the worker, and exactly what
/// was created before it is released.
pub proof fn failed_setup_releases_what_exists(worker: FallbackWorker, step: FallbackSetup)
    requires
        worker.wf(),
        worker.stage == FallbackStage::Setup(step),
    ensures
        worker.next(FallbackReply::Missing).1.action == (FallbackAction::Finish {
            result: Err(E_FAIL),
            release_player: step is Activate,
            release_media: step is Activate || step is CreatePlayer,
        }),
{
}

/// Options of the shared decoding engine.
pub const ENGINE_OPTIONS: [&'static str; 13] = [
    "--ignore-config",
    "--no-plugins-cache",
    "--no-video-title-show",
    "--no-osd",
    "--no-snapshot-preview",
    "--no-stats",
    "--no-media-library",
    "--no-lua",
    "--no-spu",
    "--avcodec-hw=none",
    "--avcodec-threads=0",
    "--file-caching=100",
    "--quiet",
];

/// Functions of the runtime that the decoder needs. The runtime is
/// refused if one of them is missing.
pub const RUNTIME_SYMBOLS: [&'static str; 11] = [
    "libvlc_new",
    "libvlc_media_new_callbacks",
    "libvlc_media_release",
    "libvlc_media_player_new_from_media",
    "libvlc_media_player_release",
    "libvlc_media_player_play",
    "libvlc_media_player_stop",
    "libvlc_media_player_set_pause",
    "libvlc_media_player_get_state",
    "libvlc_video_set_callbacks",
    "libvlc_video_set_format_callbacks",
];

/// The addresses of the runtime's functions, zero where one is missing,
/// in the order of [`RUNTIME_SYMBOLS`]. All of them are needed.
pub fn check_symbols(addresses: [usize; 11]) -> (status: Result<(), i32>)
    ensures
        match status {
            Ok(_) => forall|k: int| 0 <= k < 11 ==> #[trigger] addresses@[k] != 0,
            Err(code) => code == E_FAIL && exists|k: int|
                0 <= k < 11 && #[trigger] addresses@[k] == 0,
        },
{
    let mut k: usize = 0;
    while k < 11
        invariant
            k <= 11,
            forall|i: int| 0 <= i < k ==> #[trigger] addresses@[i] != 0,
        decreases 11 - k,
    {
        if addresses[k] == 0 {
            return Err(E_FAIL);
        }
        k += 1;
    }
    Ok(())
}

/// Path of the runtime below the directory of this module, in UTF-16
/// and with a terminating zero.
pub open spec fn runtime_suffix() -> Seq<u16> {
    seq![
        0x6cu16, 0x69, 0x62, 0x76, 0x6c, 0x63, 0x5c, 0x6c, 0x69, 0x62, 0x76, 0x6c, 0x63, 0x2e, 0x64,
        0x6c, 0x6c, 0,
    ]
}

/// The path of the private runtime, which lies next to this module and
/// nowhere else. `path` is the buffer that received the module's path
/// and `len` the length that was reported: zero means failure, and the
/// size of the buffer that the path did not fit.
pub fn runtime_path(path: &[u16], len: usize) -> (runtime: Result<Vec<u16>, i32>)
    ensures
        match runtime {
            Ok(runtime) => 0 < len < path@.len() && runtime@
                == crate::preview::directory::directory(path@.take(len as int)) + runtime_suffix(),
            Err(code) => (len == 0 || len >= path@.len()) && code == E_FAIL,
        },
{
    if len == 0 || len >= path.len() {
        return Err(E_FAIL);
    }
    let ghost module = path@.take(len as int);
    let mut runtime: Vec<u16> = directory_of(vstd::slice::slice_subrange(path, 0, len));
    let suffix: [u16; 18] = [
        0x6c, 0x69, 0x62, 0x76, 0x6c, 0x63, 0x5c, 0x6c, 0x69, 0x62, 0x76, 0x6c, 0x63, 0x2e, 0x64,
        0x6c, 0x6c, 0,
    ];
    proof {
        assert(path@.subrange(0, len as int) =~= module);
        assert(suffix@ =~= runtime_suffix());
        assert(runtime@ =~= crate::preview::directory::directory(module) + suffix@.take(0));
    }
    let mut i: usize = 0;
    while i < 18
        invariant
            i <= 18,
            suffix@ == runtime_suffix(),
            runtime@ == crate::preview::directory::directory(module) + suffix@.take(i as int),
        decreases 18 - i,
    {
        runtime.push(suffix[i]);
        i += 1;
        proof {
            assert(runtime@ =~= crate::preview::directory::directory(module) + suffix@.take(i as int));
        }
    }
    proof {
        assert(suffix@.take(18) =~= suffix@);
    }
    Ok(runtime)
}

/// Clips are decoded if and only if neither side is empty or longer than
/// 16384 pixels. The longest side is one of the two.
pub proof fn decodable_sizes(width: u32, height: u32)
    ensures
        decodable(width, height) <==> 0 < width <= 16384 && 0 < height <= 16384,
        longest_side(width, height) >= width,
        longest_side(width, height) >= height,
        longest_side(width, height) == width || longest_side(width, height) == height,
{
}

/// Frames up to the limit keep their size. Larger ones are shrunk by one
/// factor for both sides, the one that takes the longest side to the
/// limit, and no side vanishes; the result is cut off, but for an error
/// of one thousandth of a pixel.
pub proof fn large_frames_are_shrunk(side: int, longest: int)
    requires
        1 <= side <= longest <= 16384,
    ensures
        longest <= 1280 ==> frame_side(side, longest) == side,
        longest > 1280 ==> {
            let shrunk = frame_side(side, longest);
            &&& 1 <= shrunk <= 1280
            &&& shrunk > 1 ==> 1000 * (shrunk * longest) <= 1000 * (side * 1280) + longest
            &&& 1000 * ((shrunk + 1) * longest) > 1000 * (side * 1280) - longest
        },
{
    if longest > 1280 {
        assert(side * 1280 <= 1280 * longest);
        crate::rounding::scaling_respects_bounds(side, 1280, longest, 1280);
        crate::rounding::scaling_is_close(side, 1280, longest);
        let r = scaled_side(side, longest);
        if r < 1 {
            assert((1 + 1) * longest >= (r + 1) * longest) by (nonlinear_arith)
                requires
                    r < 1,
                    longest >= 1,
            ;
        }
    }
}

/// Padding gives the next multiple of 32, and the number itself where it
/// is one.
pub proof fn padding_is_to_the_next_multiple(n: int)
    requires
        n >= 0,
    ensures
        n <= padded(n, 32) < n + 32,
        padded(n, 32) % 32 == 0,
{
    lemma_padded(n);
}

/// The picture is as large as fits: one side fills the rectangle and the
/// other one follows, both scaled by the same factor and rounded, but for
/// an error of one thousandth of a pixel. It stands in the middle, with
/// at most one more pixel to the right and below, and is taken from the
/// whole frame.
pub proof fn picture_is_scaled_and_centred(blit: Blit, rect: Rect, frame: FrameLayout)
    requires
        rect.extents_fit(),
        rect.spec_width() >= 1,
        rect.spec_height() >= 1,
        frame.wf(),
        fits_picture(blit, rect, frame),
    ensures
        ({
            let width = rect.spec_width();
            let height = rect.spec_height();
            let (n, d) = if width * frame.height <= height * frame.width {
                (width, frame.width as int)
            } else {
                (height, frame.height as int)
            };
            &&& blit.width == width && blit.height == height
            &&& 0 <= blit.x <= width - blit.w - blit.x <= blit.x + 1
            &&& 0 <= blit.y <= height - blit.h - blit.y <= blit.y + 1
            &&& 2000 * (blit.w * d) <= 2000 * (frame.width * n) + 1002 * d
            &&& 2000 * (blit.w * d) > 2000 * (frame.width * n) - 1002 * d
            &&& 2000 * (blit.h * d) <= 2000 * (frame.height * n) + 1002 * d
            &&& 2000 * (blit.h * d) > 2000 * (frame.height * n) - 1002 * d
            &&& blit.frame_width == frame.width && blit.frame_height == frame.height
            &&& 4 * blit.bitmap_width == frame.pitch
        }),
        0 <= blit.w <= rect.spec_width(),
        0 <= blit.h <= rect.spec_height(),
        rect.spec_width() * frame.height <= rect.spec_height() * frame.width ==> blit.w
            == rect.spec_width(),
        rect.spec_width() * frame.height >= rect.spec_height() * frame.width ==> blit.h
            == rect.spec_height(),
{
    picture_fits(rect, frame);
    lemma_padded(4 * frame.width as int);
    let width = rect.spec_width();
    let height = rect.spec_height();
    let fw = frame.width as int;
    let fh = frame.height as int;
    let (n, d) = if width * fh <= height * fw {
        (width, fw)
    } else {
        (height, fh)
    };
    if width * fh <= height * fw {
        assert(fw * n <= 0x8000_0000 * d) by (nonlinear_arith)
            requires
                n < 0x8000_0000,
                d == fw,
                fw >= 1,
        ;
        assert(fh * n <= 0x8000_0000 * d) by (nonlinear_arith)
            requires
                n * fh <= height * fw,
                height < 0x8000_0000,
                d == fw,
                fw >= 1,
        ;
    } else {
        assert(fh * n <= 0x8000_0000 * d) by (nonlinear_arith)
            requires
                n < 0x8000_0000,
                d == fh,
                fh >= 1,
        ;
        assert(fw * n <= 0x8000_0000 * d) by (nonlinear_arith)
            requires
                n * fw <= width * fh,
                width < 0x8000_0000,
                d == fh,
                fh >= 1,
        ;
    }
    crate::rounding::scaling_is_close(fw, n, d);
    crate::rounding::scaling_is_close(fh, n, d);
    if width * fh <= height * fw {
        lemma_whole(blit.w as int, width, fw);
    } else {
        lemma_whole(blit.h as int, height, fh);
    }
    if width * fh == height * fw {
        lemma_share(blit.h as int, height, width, fh, fw);
    }
}

proof fn lemma_whole(r: int, n: int, d: int)
    requires
        d >= 1,
        2000 * (r * d) <= 2000 * (d * n) + 1002 * d,
        2000 * (r * d) > 2000 * (d * n) - 1002 * d,
    ensures
        r == n,
{
    assert(2000 * r <= 2000 * n + 1002) by (nonlinear_arith)
        requires
            d >= 1,
            2000 * (r * d) <= 2000 * (d * n) + 1002 * d,
    ;
    assert(2000 * r > 2000 * n - 1002) by (nonlinear_arith)
        requires
            d >= 1,
            2000 * (r * d) > 2000 * (d * n) - 1002 * d,
    ;
}

proof fn lemma_share(r: int, height: int, width: int, fh: int, fw: int)
    requires
        fw >= 1,
        width * fh == height * fw,
        2000 * (r * fw) <= 2000 * (fh * width) + 1002 * fw,
        2000 * (r * fw) > 2000 * (fh * width) - 1002 * fw,
    ensures
        r == height,
{
    assert(fh * width == fw * height) by (nonlinear_arith)
        requires
            width * fh == height * fw,
    ;
    lemma_whole(r, height, fw);
}

/// Does the worker end on this reply with this result, release all it
/// holds, and say nothing?
pub open spec fn ends_with(
    worker: FallbackWorker,
    reply: FallbackReply,
    result: Result<(), i32>,
) -> bool {
    worker.next(reply) == (
        FallbackWorker { stage: FallbackStage::Finished, ..worker },
        FallbackDirective {
            notice: None,
            action: FallbackAction::Finish { result, release_player: true, release_media: true },
        },
    )
}

/// Does the worker go to `stage` on this reply, ask for `action`, change
/// nothing else and say nothing?
pub open spec fn asks_for(
    worker: FallbackWorker,
    reply: FallbackReply,
    stage: FallbackStage,
    action: FallbackAction,
) -> bool {
    worker.next(reply) == (
        FallbackWorker { stage, ..worker },
        FallbackDirective { notice: None, action },
    )
}

/// The setup runs through its steps one after the other; a step that
/// fails ends the worker with its own code, and one that gives no object
/// with the general one.
pub proof fn decoder_is_set_up_in_order(worker: FallbackWorker, step: FallbackSetup, code: i32)
    requires
        worker.stage == FallbackStage::Setup(step),
    ensures
        step is LoadRuntime ==> asks_for(
            worker,
            FallbackReply::Done,
            FallbackStage::Setup(FallbackSetup::GetEngine),
            FallbackAction::Setup(FallbackSetup::GetEngine),
        ),
        step is GetEngine ==> asks_for(
            worker,
            FallbackReply::Done,
            FallbackStage::Setup(FallbackSetup::OpenMedia),
            FallbackAction::Setup(FallbackSetup::OpenMedia),
        ),
        step is OpenMedia ==> asks_for(
            worker,
            FallbackReply::Done,
            FallbackStage::Setup(FallbackSetup::CreatePlayer),
            FallbackAction::Setup(FallbackSetup::CreatePlayer),
        ),
        step is CreatePlayer ==> asks_for(
            worker,
            FallbackReply::Done,
            FallbackStage::Setup(FallbackSetup::Activate),
            FallbackAction::Setup(FallbackSetup::Activate),
        ),
        step is Activate ==> asks_for(
            worker,
            FallbackReply::Done,
            FallbackStage::CheckingShutdown,
            FallbackAction::CheckShutdown,
        ),
        worker.next(FallbackReply::Failed(code)) == (
            FallbackWorker { stage: FallbackStage::Finished, ..worker },
            FallbackDirective {
                notice: None,
                action: FallbackAction::Finish {
                    result: Err(code),
                    release_player: step is Activate,
                    release_media: step is Activate || step is CreatePlayer,
                },
            },
        ),
        worker.next(FallbackReply::Missing) == worker.next(FallbackReply::Failed(E_FAIL)),
{
}

/// One round of the decoder: it ends when told to or when nobody is left
/// to tell it, and otherwise takes the request of the moment.
pub proof fn decoder_round_begins(worker: FallbackWorker, received: Received)
    ensures
        worker.stage is CheckingShutdown ==> ends_with(worker, FallbackReply::Flag(true), Ok(()))
            && asks_for(
            worker,
            FallbackReply::Flag(false),
            FallbackStage::Waiting,
            FallbackAction::Receive,
        ),
        worker.stage is Waiting ==> {
            &&& ends_with(worker, FallbackReply::Received(Received::Disconnected), Ok(()))
            &&& !(received is Disconnected) ==> asks_for(
                worker,
                FallbackReply::Received(received),
                FallbackStage::TakingRequest,
                FallbackAction::TakeRequest,
            )
        },
{
}

/// A request to play starts the player, which is stopped before if it has
/// played already; pausing and resuming reach only a player that was
/// started. In every case the player's state is looked at next.
pub proof fn requests_reach_the_player(worker: FallbackWorker, code: i32)
    ensures
        worker.stage is TakingRequest ==> {
            &&& asks_for(
                worker,
                FallbackReply::Request(Request::Play),
                FallbackStage::Starting,
                FallbackAction::Play { stop: worker.started },
            )
            &&& worker.started ==> asks_for(
                worker,
                FallbackReply::Request(Request::Pause),
                FallbackStage::Pausing,
                FallbackAction::SetPause(true),
            ) && asks_for(
                worker,
                FallbackReply::Request(Request::Resume),
                FallbackStage::Pausing,
                FallbackAction::SetPause(false),
            )
            &&& !worker.started ==> asks_for(
                worker,
                FallbackReply::Request(Request::Pause),
                FallbackStage::ReadingState,
                FallbackAction::ReadState,
            ) && asks_for(
                worker,
                FallbackReply::Request(Request::Resume),
                FallbackStage::ReadingState,
                FallbackAction::ReadState,
            )
            &&& asks_for(
                worker,
                FallbackReply::Request(Request::Nothing),
                FallbackStage::ReadingState,
                FallbackAction::ReadState,
            )
        },
        worker.stage is Starting ==> {
            &&& code != 0 ==> ends_with(worker, FallbackReply::Code(code), Err(E_FAIL))
            &&& worker.next(FallbackReply::Code(0)) == (
                FallbackWorker {
                    stage: FallbackStage::ReadingState,
                    started: true,
                    last_state: 0,
                },
                FallbackDirective { notice: None, action: FallbackAction::ReadState },
            )
        },
        worker.stage is Pausing ==> asks_for(
            worker,
            FallbackReply::Done,
            FallbackStage::ReadingState,
            FallbackAction::ReadState,
        ),
{
}

/// A new state of the player is told: that it is paused, and that it
/// plays again after a pause. An error ends the worker. At the end of the
/// clip the worker asks whether a frame was shown. Any other state is
/// only remembered.
pub proof fn states_of_the_player(worker: FallbackWorker, state: i32)
    requires
        worker.stage is ReadingState,
    ensures
        ({
            let (after, directive) = worker.next(FallbackReply::Code(state));
            let changed = state != worker.last_state;
            let ends = changed && state == 6;
            let breaks = changed && state == 7;
            &&& ends ==> asks_for(
                worker,
                FallbackReply::Code(state),
                FallbackStage::JudgingEnd,
                FallbackAction::ReadShown,
            )
            &&& breaks ==> ends_with(worker, FallbackReply::Code(state), Err(E_FAIL))
            &&& !ends && !breaks ==> {
                &&& after.last_state == state
                &&& after.started == worker.started
                &&& worker.started ==> after.stage is CheckingFrame && directive.action
                    is ReadShown
                &&& !worker.started ==> after.stage is CheckingShutdown && directive.action
                    is CheckShutdown
                &&& directive.notice == Some(Notice::Paused) <==> changed && state == 4
                &&& directive.notice == Some(Notice::Playing) <==> state == 3 && worker.last_state
                    == 4
                &&& directive.notice is None || directive.notice == Some(Notice::Paused)
                    || directive.notice == Some(Notice::Playing)
            }
        }),
{
}

/// The end counts only if a frame was shown. While none was, the worker
/// gives up once the first one is more than fifteen seconds late.
pub proof fn first_frame_is_awaited(worker: FallbackWorker, ns: u128)
    ensures
        worker.stage is JudgingEnd ==> {
            let (after, directive) = worker.next(FallbackReply::Flag(true));
            &&& after.last_state == 6
            &&& after.started == worker.started
            &&& directive.notice == Some(Notice::Ended)
            &&& worker.started ==> after.stage is CheckingFrame && directive.action is ReadShown
            &&& !worker.started ==> after.stage is CheckingShutdown && directive.action
                is CheckShutdown
            &&& ends_with(worker, FallbackReply::Flag(false), Err(E_FAIL))
        },
        worker.stage is CheckingFrame ==> asks_for(
            worker,
            FallbackReply::Flag(true),
            FallbackStage::CheckingShutdown,
            FallbackAction::CheckShutdown,
        ) && asks_for(
            worker,
            FallbackReply::Flag(false),
            FallbackStage::ReadingClock,
            FallbackAction::ReadClock,
        ),
        worker.stage is ReadingClock ==> {
            &&& ns > 15_000_000_000 ==> ends_with(
                worker,
                FallbackReply::Elapsed(ns),
                Err(E_FAIL),
            )
            &&& ns <= 15_000_000_000 ==> asks_for(
                worker,
                FallbackReply::Elapsed(ns),
                FallbackStage::CheckingShutdown,
                FallbackAction::CheckShutdown,
            )
        },
{
}

/// Each stage takes the outcomes of its own action and no others.
pub proof fn decoder_replies_fit_the_stage(worker: FallbackWorker, reply: FallbackReply)
    ensures
        reply is Done ==> (worker.awaits(reply) <==> worker.stage is Setup || worker.stage
            is Pausing),
        reply is Missing || reply is Failed ==> (worker.awaits(reply) <==> worker.stage is Setup),
        reply is Flag ==> (worker.awaits(reply) <==> worker.stage is CheckingShutdown
            || worker.stage is JudgingEnd || worker.stage is CheckingFrame),
        reply is Received ==> (worker.awaits(reply) <==> worker.stage is Waiting),
        reply is Request ==> (worker.awaits(reply) <==> worker.stage is TakingRequest),
        reply is Code ==> (worker.awaits(reply) <==> worker.stage is Starting || worker.stage
            is ReadingState),
        reply is Elapsed ==> (worker.awaits(reply) <==> worker.stage is ReadingClock),
{
}

/// The runtime lies in a directory of its own below the module's.
pub proof fn runtime_name()
    ensures
        runtime_suffix().len() == "libvlc\\libvlc.dll"@.len() + 1,
        forall|k: int|
            0 <= k < "libvlc\\libvlc.dll"@.len() ==> #[trigger] runtime_suffix()[k]
                == "libvlc\\libvlc.dll"@[k] as int,
        runtime_suffix().last() == 0,
{
    reveal_strlit("libvlc\\libvlc.dll");
}

} // verus!
