//! The preview handler: one object per previewed file.
//!
//! The handler owns a child window in the preview pane, the decoded
//! cover, and for a Live Photo its clip and player. Its methods change
//! that state and say what is to be done with the windows, threads and
//! players outside: none of them waits for anything.
//!
//! Window handles are plain integers, zero being no window. Streams,
//! images, players and the like are opaque values that the handler keeps
//! and gives back.

use vstd::prelude::*;

use crate::com::check_creation;
use crate::hresult::{E_FAIL, E_NOINTERFACE, E_POINTER, S_FALSE};
use crate::limits::MAX_THUMBNAIL_SIZE;
use crate::preview::geometry::Rect;
use crate::preview::load::LoadOutcome;
use crate::preview::video::{
    decode_notice, next_player_token, unpack_notice_status, Notice, VideoCodec,
};
use crate::preview::vlc::Request;

verus! {

/// What the preview shows of the clip.
#[derive(Debug, Clone, Copy, PartialEq, Eq, Structural)]
pub enum PreviewVideoState {
    /// The file has no clip.
    NoVideo,
    Idle,
    Starting,
    Playing,
    Paused,
    Ended,
    LoadError,
    Error,
}

/// Creates preview handlers.
pub struct ArcThumbPreviewClassFactory;

impl ArcThumbPreviewClassFactory {
    /// Checks a request for a new handler. `aggregated` says that an
    /// outer object was given, the other flags that the interface or the
    /// place for the result is null.
    pub fn create_instance(&self, aggregated: bool, no_interface: bool, no_result: bool) -> (
        status: Result<(), i32>)
        ensures
            status == crate::com::creation_status(aggregated, no_interface, no_result),
    {
        check_creation(aggregated, no_interface, no_result)
    }

    /// Locking the server has no effect and always succeeds.
    pub fn lock_server(&self, _lock: bool) -> (status: Result<(), i32>)
        ensures
            status is Ok,
    {
        Ok(())
    }
}

/// A loading job that the handler waits for.
pub struct PendingLoad<L> {
    pub token: u32,
    pub slot: L,
}

/// The state of a preview handler. `S` is a stream, `T` a site, `I` a
/// decoded image, `C` a bitmap made of it, `V` the bytes of a clip, `P`
/// a player and `L` a loading job.
pub struct ArcThumbPreviewHandler<S, T, I, C, V, P, L> {
    /// The file's content, until it is loaded.
    pub stream: Option<S>,
    /// The host's site, which is only kept for the host.
    pub site: Option<T>,
    pub parent_hwnd: isize,
    /// Place of the child window in its parent.
    pub rect: Rect,
    pub child_hwnd: isize,
    /// The decoded cover, kept while the window is resized.
    pub source: Option<I>,
    /// The cover at the size that was drawn last.
    pub cache: Option<C>,
    pub video_bytes: Option<V>,
    pub video_codec: VideoCodec,
    pub video_state: PreviewVideoState,
    pub video_error: i32,
    pub video_player: Option<P>,
    /// Token of the current player, zero if there is none.
    pub video_token: u32,
    pub load_slot: Option<PendingLoad<L>>,
}

/// Moves a child window.
#[derive(Debug, Clone, Copy, PartialEq, Eq, Structural)]
pub struct WindowMove {
    pub window: isize,
    pub x: i32,
    pub y: i32,
    pub width: i32,
    pub height: i32,
}

/// What a new rectangle leads to.
#[derive(Debug, Clone, Copy, PartialEq, Eq)]
pub struct RectChange {
    /// New size for the player, if there is one.
    pub player_size: Option<(i32, i32)>,
    /// New place for the child window, which is then repainted.
    pub moved: Option<WindowMove>,
}

/// How the child window is created.
#[derive(Debug, Clone, Copy, PartialEq, Eq, Structural)]
pub struct WindowPlan {
    pub parent: isize,
    pub x: i32,
    pub y: i32,
    pub width: i32,
    pub height: i32,
}

/// A load that is about to start.
pub struct LoadPlan<L> {
    /// An earlier job, to be cancelled.
    pub cancelled: Option<L>,
    /// Window that hears of the outcome.
    pub window: isize,
    /// Longest side that the cover is decoded for.
    pub target_px: u32,
}

/// What is left to be taken down: the player is told to shut down, the
/// job is cancelled, the window is destroyed. Nothing waits.
pub struct Teardown<P, L> {
    pub player: Option<P>,
    pub load: Option<L>,
    pub window: Option<isize>,
}

/// An order to the current player.
#[derive(Debug, Clone, Copy, PartialEq, Eq, Structural)]
pub enum PlayerOrder {
    Toggle,
    Replay,
}

/// What an order asks of the software decoder, given what the preview
/// shows: toggling pauses or resumes, replaying plays anew.
pub fn request_for(order: PlayerOrder, state: PreviewVideoState) -> (request: Request)
    ensures
        request == (match (order, state) {
            (PlayerOrder::Replay, _) => Request::Play,
            (PlayerOrder::Toggle, PreviewVideoState::Playing) => Request::Pause,
            (PlayerOrder::Toggle, PreviewVideoState::Paused) => Request::Resume,
            (PlayerOrder::Toggle, _) => Request::Nothing,
        }),
{
    match (order, state) {
        (PlayerOrder::Replay, _) => Request::Play,
        (PlayerOrder::Toggle, PreviewVideoState::Playing) => Request::Pause,
        (PlayerOrder::Toggle, PreviewVideoState::Paused) => Request::Resume,
        (PlayerOrder::Toggle, _) => Request::Nothing,
    }
}

/// A player that is about to start.
#[derive(Debug, Clone, Copy, PartialEq, Eq, Structural)]
pub struct PlayerPlan {
    pub window: isize,
    pub width: i32,
    pub height: i32,
    pub token: u32,
}

/// What a click or a key press on the preview leads to.
pub struct ToggleEffect<P> {
    /// A player that is to be shut down.
    pub retired: Option<P>,
    /// Window that is to be repainted.
    pub repaint: Option<isize>,
    /// Order to the current player, if there is one.
    pub order: Option<PlayerOrder>,
    /// A player to start; the outcome goes to `player_started`.
    pub start: Option<PlayerPlan>,
}

/// Window message for a key press.
pub const WM_KEYDOWN: u32 = 0x100;

/// Key code of the return key.
pub const VK_RETURN: usize = 0x0D;

/// Key code of the space bar.
pub const VK_SPACE: usize = 0x20;

/// Does this message toggle playback? Space and return do.
pub open spec fn is_toggle_key(message: u32, key: usize) -> bool {
    message == WM_KEYDOWN && (key == VK_SPACE || key == VK_RETURN)
}

/// The longest side of the rectangle, but at least one pixel and at most
/// the largest thumbnail.
pub open spec fn target_side(rect: Rect) -> int {
    let longest = if rect.spec_width() >= rect.spec_height() {
        rect.spec_width()
    } else {
        rect.spec_height()
    };
    if longest < 1 {
        1
    } else if longest > MAX_THUMBNAIL_SIZE {
        MAX_THUMBNAIL_SIZE as int
    } else {
        longest
    }
}

/// The place of a rectangle for `window`.
pub open spec fn move_to(window: isize, rect: Rect) -> WindowMove {
    WindowMove {
        window,
        x: rect.left,
        y: rect.top,
        width: rect.spec_width() as i32,
        height: rect.spec_height() as i32,
    }
}

fn window_move(window: isize, rect: Rect) -> (moved: WindowMove)
    requires
        rect.extents_fit(),
    ensures
        moved == move_to(window, rect),
{
    WindowMove { window, x: rect.left, y: rect.top, width: rect.width(), height: rect.height() }
}

impl<S, T, I, C, V, P, L> ArcThumbPreviewHandler<S, T, I, C, V, P, L> {
    /// What holds of a handler between any two calls.
    pub open spec fn wf(self) -> bool {
        &&& self.video_player is Some <==> self.video_token != 0
        &&& self.load_slot matches Some(load) ==> load.token != 0
    }

    /// What holds instead while a player is being started.
    pub open spec fn awaits_player(self) -> bool {
        &&& self.video_player is None
        &&& self.video_token != 0
        &&& self.video_state is Starting
        &&& self.load_slot matches Some(load) ==> load.token != 0
    }

    /// The text that is shown over the preview, if any.
    pub open spec fn overlay_text(self) -> Option<&'static str> {
        if self.load_slot is Some && self.source is None {
            Some("Loading preview...")
        } else {
            match self.video_state {
                PreviewVideoState::Idle => Some("Click or press Space to play Live Photo"),
                PreviewVideoState::Ended => Some("Click or press Space to play Live Photo"),
                PreviewVideoState::Starting => Some("Opening Live Photo video..."),
                PreviewVideoState::LoadError => Some("Preview is unavailable"),
                PreviewVideoState::Error => if self.video_codec == VideoCodec::Hevc {
                    Some("H.265 unavailable - install Microsoft HEVC Video Extensions")
                } else {
                    Some("Live Photo video playback is unavailable")
                },
                _ => None,
            }
        }
    }

    /// A handler without a file or a window.
    pub fn new() -> (handler: Self)
        ensures
            handler.wf(),
            handler == (ArcThumbPreviewHandler::<S, T, I, C, V, P, L> {
                stream: None,
                site: None,
                parent_hwnd: 0,
                rect: Rect { left: 0, top: 0, right: 0, bottom: 0 },
                child_hwnd: 0,
                source: None,
                cache: None,
                video_bytes: None,
                video_codec: VideoCodec::Unknown,
                video_state: PreviewVideoState::NoVideo,
                video_error: 0,
                video_player: None,
                video_token: 0,
                load_slot: None,
            }),
    {
        ArcThumbPreviewHandler {
            stream: None,
            site: None,
            parent_hwnd: 0,
            rect: Rect { left: 0, top: 0, right: 0, bottom: 0 },
            child_hwnd: 0,
            source: None,
            cache: None,
            video_bytes: None,
            video_codec: VideoCodec::Unknown,
            video_state: PreviewVideoState::NoVideo,
            video_error: 0,
            video_player: None,
            video_token: 0,
            load_slot: None,
        }
    }

    /// Keeps the file's content for the preview.
    pub fn initialize(&mut self, stream: Option<S>)
        requires
            old(self).wf(),
        ensures
            final(self).wf(),
            *final(self) == (ArcThumbPreviewHandler { stream, ..*old(self) }),
    {
        self.stream = stream;
    }

    /// Keeps the host's site.
    pub fn set_site(&mut self, site: Option<T>)
        requires
            old(self).wf(),
        ensures
            final(self).wf(),
            *final(self) == (ArcThumbPreviewHandler { site, ..*old(self) }),
    {
        self.site = site;
    }

    /// The host's site, to be asked for an interface. The flags say that
    /// the interface or the place for the result is null.
    pub fn get_site(&self, no_interface: bool, no_result: bool) -> (site: Result<&T, i32>)
        ensures
            match site {
                Ok(site) => !no_interface && !no_result && self.site == Some(*site),
                Err(code) => if no_interface || no_result {
                    code == E_POINTER
                } else {
                    self.site is None && code == E_NOINTERFACE
                },
            },
    {
        if no_interface || no_result {
            return Err(E_POINTER);
        }
        match &self.site {
            Some(site) => Ok(site),
            None => Err(E_NOINTERFACE),
        }
    }

    /// The child window, zero if there is none.
    pub fn window(&self) -> (window: isize)
        ensures
            window == self.child_hwnd,
    {
        self.child_hwnd
    }

    /// Takes a parent window and, if it is given, a rectangle. A child
    /// window that exists is moved under the new parent.
    pub fn set_window(&mut self, hwnd: isize, rect: Option<Rect>) -> (moved: Option<WindowMove>)
        requires
            old(self).wf(),
            old(self).child_hwnd != 0 && hwnd != 0 ==> (match rect {
                Some(rect) => rect,
                None => old(self).rect,
            }).extents_fit(),
        ensures
            final(self).wf(),
            *final(self) == (ArcThumbPreviewHandler {
                parent_hwnd: hwnd,
                rect: match rect {
                    Some(rect) => rect,
                    None => old(self).rect,
                },
                ..*old(self)
            }),
            moved == if old(self).child_hwnd != 0 && hwnd != 0 {
                Some(move_to(old(self).child_hwnd, final(self).rect))
            } else {
                None
            },
    {
        self.parent_hwnd = hwnd;
        if let Some(rect) = rect {
            self.rect = rect;
        }
        if self.child_hwnd != 0 && hwnd != 0 {
            Some(window_move(self.child_hwnd, self.rect))
        } else {
            None
        }
    }

    /// Takes a new rectangle, which must be given. The player and the
    /// child window follow it.
    pub fn set_rect(&mut self, rect: Option<Rect>) -> (change: Result<RectChange, i32>)
        requires
            old(self).wf(),
            old(self).video_player is Some || old(self).child_hwnd != 0 ==> (rect matches Some(
                rect,
            ) ==> rect.extents_fit()),
        ensures
            final(self).wf(),
            match rect {
                Some(rect) => {
                    &&& *final(self) == (ArcThumbPreviewHandler { rect, ..*old(self) })
                    &&& change matches Ok(change) && change == (RectChange {
                        player_size: if old(self).video_player is Some {
                            Some((rect.spec_width() as i32, rect.spec_height() as i32))
                        } else {
                            None
                        },
                        moved: if old(self).child_hwnd != 0 {
                            Some(move_to(old(self).child_hwnd, rect))
                        } else {
                            None
                        },
                    })
                },
                None => *final(self) == *old(self) && change == Err::<RectChange, i32>(E_POINTER),
            },
    {
        match rect {
            None => Err(E_POINTER),
            Some(rect) => {
                self.rect = rect;
                let player_size = if self.video_player.is_some() {
                    Some((rect.width(), rect.height()))
                } else {
                    None
                };
                let moved = if self.child_hwnd != 0 {
                    Some(window_move(self.child_hwnd, rect))
                } else {
                    None
                };
                Ok(RectChange { player_size, moved })
            },
        }
    }

    /// Begins a preview: takes the file's content, which must be there,
    /// and tells whether a child window has to be created first.
    pub fn begin_preview(&mut self) -> (begun: Result<(S, bool), i32>)
        requires
            old(self).wf(),
        ensures
            final(self).wf(),
            *final(self) == (ArcThumbPreviewHandler { stream: None, ..*old(self) }),
            match old(self).stream {
                Some(stream) => begun == Ok::<(S, bool), i32>((stream, old(self).child_hwnd == 0)),
                None => begun == Err::<(S, bool), i32>(E_FAIL),
            },
    {
        match self.stream.take() {
            Some(stream) => Ok((stream, self.child_hwnd == 0)),
            None => Err(E_FAIL),
        }
    }

    /// How the child window is to be created: at the rectangle's place,
    /// each side at least one pixel. A parent is needed.
    pub fn plan_window(&self) -> (plan: Result<WindowPlan, i32>)
        requires
            self.wf(),
            self.parent_hwnd != 0 ==> self.rect.extents_fit(),
        ensures
            match plan {
                Ok(plan) => {
                    &&& self.parent_hwnd != 0
                    &&& plan.parent == self.parent_hwnd
                    &&& plan.x == self.rect.left
                    &&& plan.y == self.rect.top
                    &&& plan.width == if self.rect.spec_width() < 1 {
                        1
                    } else {
                        self.rect.spec_width()
                    }
                    &&& plan.height == if self.rect.spec_height() < 1 {
                        1
                    } else {
                        self.rect.spec_height()
                    }
                },
                Err(code) => self.parent_hwnd == 0 && code == E_FAIL,
            },
    {
        if self.parent_hwnd == 0 {
            return Err(E_FAIL);
        }
        let width: i32 = self.rect.width();
        let height: i32 = self.rect.height();
        Ok(
            WindowPlan {
                parent: self.parent_hwnd,
                x: self.rect.left,
                y: self.rect.top,
                width: if width < 1 {
                    1
                } else {
                    width
                },
                height: if height < 1 {
                    1
                } else {
                    height
                },
            },
        )
    }

    /// Takes the outcome of creating the child window. The window is
    /// repainted; any failure, also of registering its class, is an
    /// unspecified one.
    pub fn window_created(&mut self, created: Result<isize, i32>) -> (window: Result<isize, i32>)
        requires
            old(self).wf(),
        ensures
            final(self).wf(),
            match created {
                Ok(hwnd) => window == created && *final(self) == (ArcThumbPreviewHandler {
                    child_hwnd: hwnd,
                    ..*old(self)
                }),
                Err(_) => window == Err::<isize, i32>(E_FAIL) && *final(self) == *old(self),
            },
    {
        match created {
            Ok(hwnd) => {
                self.child_hwnd = hwnd;
                Ok(hwnd)
            },
            Err(_) => Err(E_FAIL),
        }
    }

    /// Makes way for a new loading job and tells what it is to load.
    pub fn begin_load(&mut self) -> (plan: LoadPlan<L>)
        requires
            old(self).wf(),
            old(self).rect.extents_fit(),
        ensures
            final(self).wf(),
            *final(self) == (ArcThumbPreviewHandler { load_slot: None, ..*old(self) }),
            plan.cancelled == (match old(self).load_slot {
                Some(load) => Some(load.slot),
                None => None,
            }),
            plan.window == old(self).child_hwnd,
            plan.target_px == target_side(old(self).rect),
    {
        let cancelled = match self.load_slot.take() {
            Some(load) => Some(load.slot),
            None => None,
        };
        let width: i32 = self.rect.width();
        let height: i32 = self.rect.height();
        let longest: i32 = if width >= height {
            width
        } else {
            height
        };
        let target_px: u32 = if longest < 1 {
            1
        } else if longest as u32 > MAX_THUMBNAIL_SIZE {
            MAX_THUMBNAIL_SIZE
        } else {
            longest as u32
        };
        LoadPlan { cancelled, window: self.child_hwnd, target_px }
    }

    /// Takes the outcome of starting the loading job. The window to
    /// repaint is returned; any failure is an unspecified one.
    pub fn load_started(&mut self, started: Result<PendingLoad<L>, i32>) -> (repaint: Result<
        isize,
        i32,
    >)
        requires
            old(self).wf(),
            started matches Ok(load) ==> load.token != 0,
        ensures
            final(self).wf(),
            match started {
                Ok(load) => {
                    &&& repaint == Ok::<isize, i32>(old(self).child_hwnd)
                    &&& *final(self) == (ArcThumbPreviewHandler {
                        load_slot: Some(load),
                        ..*old(self)
                    })
                },
                Err(_) => repaint == Err::<isize, i32>(E_FAIL) && *final(self) == *old(self),
            },
    {
        match started {
            Ok(load) => {
                self.load_slot = Some(load);
                Ok(self.child_hwnd)
            },
            Err(_) => Err(E_FAIL),
        }
    }
}

impl<S, T, I, C, V, P, L> ArcThumbPreviewHandler<S, T, I, C, V, P, L> {
    /// What an unloaded handler looks like: the host's site, the parent
    /// window and the rectangle are all that stays.
    pub open spec fn unloaded(self) -> Self {
        ArcThumbPreviewHandler {
            stream: None,
            child_hwnd: 0,
            source: None,
            cache: None,
            video_bytes: None,
            video_codec: VideoCodec::Unknown,
            video_state: PreviewVideoState::NoVideo,
            video_error: 0,
            video_player: None,
            video_token: 0,
            load_slot: None,
            ..self
        }
    }

    /// Everything outside that the handler is responsible for.
    pub open spec fn holdings(self) -> Teardown<P, L> {
        Teardown {
            player: self.video_player,
            load: match self.load_slot {
                Some(load) => Some(load.slot),
                None => None,
            },
            window: if self.child_hwnd != 0 {
                Some(self.child_hwnd)
            } else {
                None
            },
        }
    }

    /// Ends the preview. This always succeeds, and nothing waits for the
    /// player or the loading job.
    pub fn unload(&mut self) -> (teardown: Teardown<P, L>)
        requires
            old(self).wf(),
        ensures
            final(self).wf(),
            *final(self) == old(self).unloaded(),
            teardown == old(self).holdings(),
    {
        let player = self.video_player.take();
        self.video_token = 0;
        let load = match self.load_slot.take() {
            Some(load) => Some(load.slot),
            None => None,
        };
        let window = if self.child_hwnd != 0 {
            Some(self.child_hwnd)
        } else {
            None
        };
        self.child_hwnd = 0;
        self.cache = None;
        self.source = None;
        self.stream = None;
        self.video_bytes = None;
        self.video_state = PreviewVideoState::NoVideo;
        self.video_codec = VideoCodec::Unknown;
        self.video_error = 0;
        Teardown { player, load, window }
    }

    /// The end of the handler itself: a host may release it without
    /// ending the preview first.
    pub fn release(self) -> (teardown: Teardown<P, L>)
        requires
            self.wf(),
        ensures
            teardown == self.holdings(),
    {
        let mut handler = self;
        handler.unload()
    }

    /// The window that gets the keyboard focus. Without a child window
    /// nothing happens.
    pub fn set_focus(&self) -> (window: Result<isize, i32>)
        ensures
            window == if self.child_hwnd == 0 {
                Err::<isize, i32>(S_FALSE)
            } else {
                Ok::<isize, i32>(self.child_hwnd)
            },
    {
        if self.child_hwnd == 0 {
            return Err(S_FALSE);
        }
        Ok(self.child_hwnd)
    }

    /// The window with the keyboard focus, if any window has it.
    pub fn query_focus(&self, focus: isize) -> (window: Result<isize, i32>)
        ensures
            window == if focus == 0 {
                Err::<isize, i32>(S_FALSE)
            } else {
                Ok::<isize, i32>(focus)
            },
    {
        if focus == 0 {
            Err(S_FALSE)
        } else {
            Ok(focus)
        }
    }

    /// Looks at a message, if there is one: `Ok` means that it toggles
    /// playback, anything else is left to the host.
    pub fn translate_accelerator(&self, message: Option<(u32, usize)>) -> (handled: Result<
        (),
        i32,
    >)
        ensures
            match message {
                Some((message, key)) => handled == if is_toggle_key(message, key) {
                    Ok::<(), i32>(())
                } else {
                    Err::<(), i32>(S_FALSE)
                },
                None => handled == Err::<(), i32>(S_FALSE),
            },
    {
        if let Some((message, key)) = message {
            if message == WM_KEYDOWN && (key == VK_SPACE || key == VK_RETURN) {
                return Ok(());
            }
        }
        Err(S_FALSE)
    }

    /// What the preview shows of the clip.
    pub fn video_state(&self) -> (state: PreviewVideoState)
        ensures
            state == self.video_state,
    {
        self.video_state
    }

    /// The player that is told to repaint, if there is one.
    pub fn request_video_repaint(&self) -> (player: Option<&P>)
        ensures
            match player {
                Some(player) => self.video_player == Some(*player),
                None => self.video_player is None,
            },
    {
        self.video_player.as_ref()
    }

    /// The text that is shown over the preview, if any.
    pub fn video_overlay_text(&self) -> (text: Option<&'static str>)
        ensures
            text == self.overlay_text(),
    {
        if self.load_slot.is_some() && self.source.is_none() {
            return Some("Loading preview...");
        }
        match self.video_state {
            PreviewVideoState::Idle => Some("Click or press Space to play Live Photo"),
            PreviewVideoState::Ended => Some("Click or press Space to play Live Photo"),
            PreviewVideoState::Starting => Some("Opening Live Photo video..."),
            PreviewVideoState::LoadError => Some("Preview is unavailable"),
            PreviewVideoState::Error => {
                if let VideoCodec::Hevc = self.video_codec {
                    Some("H.265 unavailable - install Microsoft HEVC Video Extensions")
                } else {
                    Some("Live Photo video playback is unavailable")
                }
            },
            _ => None,
        }
    }

    /// Does `token` name the loading job that the handler waits for?
    pub open spec fn waits_for(self, token: u32) -> bool {
        self.load_slot matches Some(load) && load.token == token
    }

    /// Takes the job that reported completion with `token`. A job that
    /// the handler no longer waits for is ignored.
    pub fn claim_load(&mut self, token: u32) -> (slot: Option<L>)
        requires
            old(self).wf(),
        ensures
            final(self).wf(),
            if old(self).waits_for(token) {
                &&& slot == Some(old(self).load_slot->0.slot)
                &&& *final(self) == (ArcThumbPreviewHandler { load_slot: None, ..*old(self) })
            } else {
                &&& slot is None
                &&& *final(self) == *old(self)
            },
    {
        match self.load_slot.take() {
            Some(load) => {
                if load.token == token {
                    Some(load.slot)
                } else {
                    self.load_slot = Some(load);
                    None
                }
            },
            None => None,
        }
    }

    /// Takes what the claimed job has produced, if it left anything, and
    /// returns the window to repaint.
    pub fn finish_load(&mut self, outcome: Option<LoadOutcome<I, V>>) -> (repaint: Option<isize>)
        requires
            old(self).wf(),
        ensures
            final(self).wf(),
            match outcome {
                Some(LoadOutcome::Ready(loaded)) => {
                    &&& repaint == Some(old(self).child_hwnd)
                    &&& *final(self) == (ArcThumbPreviewHandler {
                        source: Some(loaded.image),
                        video_bytes: loaded.video_bytes,
                        video_codec: loaded.video_codec,
                        video_state: if loaded.video_bytes is Some {
                            PreviewVideoState::Idle
                        } else {
                            PreviewVideoState::NoVideo
                        },
                        ..*old(self)
                    })
                },
                Some(LoadOutcome::Failed) => {
                    &&& repaint == Some(old(self).child_hwnd)
                    &&& *final(self) == (ArcThumbPreviewHandler {
                        video_state: PreviewVideoState::LoadError,
                        ..*old(self)
                    })
                },
                None => repaint is None && *final(self) == *old(self),
            },
    {
        match outcome {
            Some(LoadOutcome::Ready(loaded)) => {
                self.source = Some(loaded.image);
                self.video_bytes = loaded.video_bytes;
                self.video_codec = loaded.video_codec;
                self.video_state = if self.video_bytes.is_some() {
                    PreviewVideoState::Idle
                } else {
                    PreviewVideoState::NoVideo
                };
                Some(self.child_hwnd)
            },
            Some(LoadOutcome::Failed) => {
                self.video_state = PreviewVideoState::LoadError;
                Some(self.child_hwnd)
            },
            None => None,
        }
    }

    /// Does a click or a key press start a player?
    pub open spec fn starts_player(self) -> bool {
        (self.video_state is Idle || self.video_state is Error) && self.can_play()
    }

    /// Can a player be started? The clip and a window are needed.
    pub open spec fn can_play(self) -> bool {
        self.video_bytes is Some && self.child_hwnd != 0
    }

    /// The handler after a click or a key press. `token` is the one that
    /// a new player would get.
    pub open spec fn toggled(self, token: u32) -> Self {
        match self.video_state {
            PreviewVideoState::Ended => ArcThumbPreviewHandler {
                video_state: PreviewVideoState::Starting,
                ..self
            },
            PreviewVideoState::Idle | PreviewVideoState::Error => if self.can_play() {
                ArcThumbPreviewHandler {
                    video_state: PreviewVideoState::Starting,
                    video_player: None,
                    video_token: token,
                    ..self
                }
            } else {
                ArcThumbPreviewHandler { video_player: None, video_token: 0, ..self }
            },
            _ => self,
        }
    }

    /// What a click or a key press leads to outside.
    pub open spec fn toggle_effect(self, token: u32) -> ToggleEffect<P> {
        let nothing = ToggleEffect { retired: None, repaint: None, order: None, start: None };
        match self.video_state {
            PreviewVideoState::Playing | PreviewVideoState::Paused => ToggleEffect {
                order: if self.video_player is Some {
                    Some(PlayerOrder::Toggle)
                } else {
                    None
                },
                ..nothing
            },
            PreviewVideoState::Ended => ToggleEffect {
                repaint: Some(self.child_hwnd),
                order: if self.video_player is Some {
                    Some(PlayerOrder::Replay)
                } else {
                    None
                },
                ..nothing
            },
            PreviewVideoState::Idle | PreviewVideoState::Error => if self.can_play() {
                ToggleEffect {
                    retired: self.video_player,
                    repaint: Some(self.child_hwnd),
                    order: None,
                    start: Some(
                        PlayerPlan {
                            window: self.child_hwnd,
                            width: self.rect.spec_width() as i32,
                            height: self.rect.spec_height() as i32,
                            token,
                        },
                    ),
                }
            } else {
                ToggleEffect { retired: self.video_player, ..nothing }
            },
            _ => nothing,
        }
    }

    /// A click, the space bar or the return key: plays, pauses or
    /// replays the clip. Where a player has to be started, it gets a
    /// fresh token, and the caller reports the outcome with
    /// `player_started` before anything else.
    pub fn toggle_video(&mut self, counter: &mut u32) -> (effect: ToggleEffect<P>)
        requires
            old(self).wf(),
            old(self).starts_player() ==> old(self).rect.extents_fit(),
        ensures
            effect.start is None ==> final(self).wf(),
            effect.start is Some ==> final(self).awaits_player(),
            *final(self) == old(self).toggled(crate::preview::token::token_at(*old(counter))),
            effect == old(self).toggle_effect(crate::preview::token::token_at(*old(counter))),
            *final(counter) == if effect.start is Some {
                crate::preview::token::counter_after(
                    crate::preview::token::token_at(*old(counter)),
                )
            } else {
                *old(counter)
            },
    {
        match self.video_state {
            PreviewVideoState::Playing | PreviewVideoState::Paused => {
                let order = if self.video_player.is_some() {
                    Some(PlayerOrder::Toggle)
                } else {
                    None
                };
                ToggleEffect { retired: None, repaint: None, order, start: None }
            },
            PreviewVideoState::Ended => {
                self.video_state = PreviewVideoState::Starting;
                let order = if self.video_player.is_some() {
                    Some(PlayerOrder::Replay)
                } else {
                    None
                };
                ToggleEffect { retired: None, repaint: Some(self.child_hwnd), order, start: None }
            },
            PreviewVideoState::Idle | PreviewVideoState::Error => {
                let retired = self.video_player.take();
                self.video_token = 0;
                if self.video_bytes.is_none() || self.child_hwnd == 0 {
                    return ToggleEffect { retired, repaint: None, order: None, start: None };
                }
                self.video_state = PreviewVideoState::Starting;
                let token: u32 = next_player_token(counter);
                self.video_token = token;
                let plan = PlayerPlan {
                    window: self.child_hwnd,
                    width: self.rect.width(),
                    height: self.rect.height(),
                    token,
                };
                ToggleEffect {
                    retired,
                    repaint: Some(self.child_hwnd),
                    order: None,
                    start: Some(plan),
                }
            },
            _ => ToggleEffect { retired: None, repaint: None, order: None, start: None },
        }
    }

    /// Takes the outcome of starting a player and returns the window to
    /// repaint, if there is something new to show.
    pub fn player_started(&mut self, started: Result<P, i32>) -> (repaint: Option<isize>)
        requires
            old(self).awaits_player(),
        ensures
            final(self).wf(),
            match started {
                Ok(player) => {
                    &&& repaint is None
                    &&& *final(self) == (ArcThumbPreviewHandler {
                        video_player: Some(player),
                        ..*old(self)
                    })
                },
                Err(code) => {
                    &&& repaint == Some(old(self).child_hwnd)
                    &&& *final(self) == (ArcThumbPreviewHandler {
                        video_token: 0,
                        video_error: code,
                        video_state: PreviewVideoState::Error,
                        ..*old(self)
                    })
                },
            },
    {
        match started {
            Ok(player) => {
                self.video_player = Some(player);
                None
            },
            Err(code) => {
                self.video_token = 0;
                self.video_error = code;
                self.video_state = PreviewVideoState::Error;
                Some(self.child_hwnd)
            },
        }
    }

    /// The handler after a notice of the current player.
    pub open spec fn noticed(self, notice: Notice) -> Self {
        match notice {
            Notice::Playing => ArcThumbPreviewHandler {
                video_state: PreviewVideoState::Playing,
                ..self
            },
            Notice::Paused => ArcThumbPreviewHandler {
                video_state: PreviewVideoState::Paused,
                ..self
            },
            Notice::Ended => ArcThumbPreviewHandler {
                video_state: PreviewVideoState::Ended,
                ..self
            },
            Notice::Failed(status) => ArcThumbPreviewHandler {
                video_state: PreviewVideoState::Error,
                video_error: status,
                ..self
            },
        }
    }

    /// Takes a notice of a player: the number of the notice and the word
    /// with the player's token and a status code. Notices of other
    /// players and unknown ones are ignored. Returns the window to
    /// repaint: the cover is shown again when the clip has ended or
    /// failed.
    pub fn handle_video_notice(&mut self, number: usize, word: u64) -> (repaint: Option<isize>)
        requires
            old(self).wf(),
        ensures
            final(self).wf(),
            forall|token: u32, status: i32|
                word == #[trigger] crate::preview::video::notice_word(token, status) ==> {
                    let notice = crate::preview::video::notice_from(number, status);
                    if token != 0 && token == old(self).video_token && notice is Some {
                        &&& *final(self) == old(self).noticed(notice->0)
                        &&& repaint == if notice->0 is Ended || notice->0 is Failed {
                            Some(old(self).child_hwnd)
                        } else {
                            None
                        }
                    } else {
                        &&& *final(self) == *old(self)
                        &&& repaint is None
                    }
                },
    {
        let (token, status) = unpack_notice_status(word);
        proof {
            assert forall|t: u32, s: i32|
                word == #[trigger] crate::preview::video::notice_word(t, s) implies t == token && s
                == status by {
                crate::preview::video::notice_word_is_unambiguous(token, status, t, s);
            }
        }
        if token == 0 || token != self.video_token {
            return None;
        }
        match decode_notice(number, status) {
            Some(Notice::Playing) => {
                self.video_state = PreviewVideoState::Playing;
                None
            },
            Some(Notice::Paused) => {
                self.video_state = PreviewVideoState::Paused;
                None
            },
            Some(Notice::Ended) => {
                self.video_state = PreviewVideoState::Ended;
                Some(self.child_hwnd)
            },
            Some(Notice::Failed(code)) => {
                self.video_error = code;
                self.video_state = PreviewVideoState::Error;
                Some(self.child_hwnd)
            },
            None => None,
        }
    }
}

/// Unloading lets go of everything: nothing is left to take down, no
/// late loading job or player is listened to, and nothing is shown or
/// can be played. Doing it again changes nothing.
pub proof fn unloading_lets_go_of_everything<S, T, I, C, V, P, L>(
    handler: ArcThumbPreviewHandler<S, T, I, C, V, P, L>,
)
    requires
        handler.wf(),
    ensures
        handler.unloaded().wf(),
        handler.unloaded().unloaded() == handler.unloaded(),
        handler.unloaded().holdings() == (Teardown::<P, L> {
            player: None,
            load: None,
            window: None,
        }),
        forall|token: u32| !#[trigger] handler.unloaded().waits_for(token),
        handler.unloaded().video_token == 0,
        handler.unloaded().overlay_text() is None,
        !handler.unloaded().can_play(),
{
}

/// A clip that has ended is played again by the same player: none is
/// retired or started, and the player keeps its token.
pub proof fn replay_reuses_the_player<S, T, I, C, V, P, L>(
    handler: ArcThumbPreviewHandler<S, T, I, C, V, P, L>,
    token: u32,
)
    requires
        handler.wf(),
        handler.video_state is Ended,
    ensures
        handler.toggled(token).video_player == handler.video_player,
        handler.toggled(token).video_token == handler.video_token,
        handler.toggle_effect(token).retired is None,
        handler.toggle_effect(token).start is None,
        handler.video_player is Some ==> handler.toggle_effect(token).order == Some(
            PlayerOrder::Replay,
        ),
{
}

/// Clicks do nothing while there is no clip, while a player is being
/// started, and when the preview could not be loaded.
pub proof fn toggling_without_a_clip_does_nothing<S, T, I, C, V, P, L>(
    handler: ArcThumbPreviewHandler<S, T, I, C, V, P, L>,
    token: u32,
)
    requires
        handler.video_state is NoVideo || handler.video_state is Starting || handler.video_state
            is LoadError,
    ensures
        handler.toggled(token) == handler,
        handler.toggle_effect(token) == (ToggleEffect::<P> {
            retired: None,
            repaint: None,
            order: None,
            start: None,
        }),
{
}

/// A player that fails to start leaves the preview where a click tries
/// again: nothing is retired, and a new player gets another token.
pub proof fn failed_start_can_be_retried<S, T, I, C, V, P, L>(
    handler: ArcThumbPreviewHandler<S, T, I, C, V, P, L>,
    first: u32,
    second: u32,
    code: i32,
)
    requires
        handler.wf(),
        handler.video_state is Idle,
        handler.can_play(),
        second != 0,
    ensures
        ({
            let failed = ArcThumbPreviewHandler {
                video_token: 0,
                video_error: code,
                video_state: PreviewVideoState::Error,
                ..handler.toggled(first)
            };
            &&& failed.wf()
            &&& failed.toggle_effect(second).retired is None
            &&& failed.toggle_effect(second).start matches Some(plan) && plan.token == second
            &&& failed.toggled(second).awaits_player()
        }),
{
}

/// Playback is toggled by a press of the space bar or of the return key,
/// and by no other message or key.
pub proof fn toggle_keys(message: u32, key: usize)
    ensures
        is_toggle_key(0x100, 0x20),
        is_toggle_key(0x100, 0x0d),
        message != 0x100 ==> !is_toggle_key(message, key),
        key != 0x20 && key != 0x0d ==> !is_toggle_key(message, key),
{
}

/// The cover is decoded for the longer side of the rectangle, within one
/// pixel and the largest thumbnail.
pub proof fn cover_is_decoded_for_the_longer_side(rect: Rect)
    ensures
        1 <= target_side(rect) <= MAX_THUMBNAIL_SIZE,
        ({
            let width = rect.right - rect.left;
            let height = rect.bottom - rect.top;
            &&& width >= height && 1 <= width <= MAX_THUMBNAIL_SIZE ==> target_side(rect) == width
            &&& height >= width && 1 <= height <= MAX_THUMBNAIL_SIZE ==> target_side(rect)
                == height
            &&& width > MAX_THUMBNAIL_SIZE || height > MAX_THUMBNAIL_SIZE ==> target_side(rect)
                == MAX_THUMBNAIL_SIZE
            &&& width < 1 && height < 1 ==> target_side(rect) == 1
        }),
{
}

/// A window is moved to the corner of the rectangle and gets its size.
pub proof fn windows_follow_the_rectangle(window: isize, rect: Rect)
    requires
        rect.extents_fit(),
    ensures
        move_to(window, rect).window == window,
        move_to(window, rect).x == rect.left,
        move_to(window, rect).y == rect.top,
        move_to(window, rect).width == rect.right - rect.left,
        move_to(window, rect).height == rect.bottom - rect.top,
{
}

/// What is written over the preview: that it loads, as long as there is
/// nothing to show; otherwise what the state of the clip calls for. While
/// the clip plays or is paused, and without one, nothing is.
pub proof fn overlay_texts<S, T, I, C, V, P, L>(
    handler: ArcThumbPreviewHandler<S, T, I, C, V, P, L>,
)
    ensures
        handler.load_slot is Some && handler.source is None ==> (handler.overlay_text()
            matches Some(text) && text@ == "Loading preview..."@),
        handler.load_slot is None || handler.source is Some ==> {
            let text = handler.overlay_text();
            let state = handler.video_state;
            &&& state is Idle || state is Ended ==> (text matches Some(text) && text@
                == "Click or press Space to play Live Photo"@)
            &&& state is Starting ==> (text matches Some(text) && text@
                == "Opening Live Photo video..."@)
            &&& state is LoadError ==> (text matches Some(text) && text@
                == "Preview is unavailable"@)
            &&& state is Error && handler.video_codec is Hevc ==> (text matches Some(text) && text@
                == "H.265 unavailable - install Microsoft HEVC Video Extensions"@)
            &&& state is Error && !(handler.video_codec is Hevc) ==> (text matches Some(text)
                && text@ == "Live Photo video playback is unavailable"@)
            &&& text is None <==> state is NoVideo || state is Playing || state is Paused
        },
{
}

/// What stays of an unloaded handler, and what is handed over to be taken
/// down: the player, the loading job and the window, each if there is
/// one.
pub proof fn unloading_hands_everything_over<S, T, I, C, V, P, L>(
    handler: ArcThumbPreviewHandler<S, T, I, C, V, P, L>,
)
    ensures
        ({
            let after = handler.unloaded();
            &&& after.site == handler.site
            &&& after.parent_hwnd == handler.parent_hwnd
            &&& after.rect == handler.rect
            &&& after.child_hwnd == 0
            &&& after.video_token == 0
            &&& after.video_error == 0
            &&& after.stream is None && after.source is None && after.cache is None
            &&& after.video_bytes is None && after.video_player is None && after.load_slot is None
            &&& after.video_codec is Unknown && after.video_state is NoVideo
        }),
        handler.holdings().player == handler.video_player,
        handler.load_slot is None ==> handler.holdings().load is None,
        handler.load_slot matches Some(load) ==> handler.holdings().load == Some(load.slot),
        handler.child_hwnd == 0 ==> handler.holdings().window is None,
        handler.child_hwnd != 0 ==> handler.holdings().window == Some(handler.child_hwnd),
{
}

/// A click or a key press toggles a player that plays or is paused and
/// replays one whose clip has ended. From the idle state and after a
/// failure it retires whatever player is left, and starts a new one, at
/// the size of the rectangle, if there are a clip and a window.
pub proof fn clicks_by_state<S, T, I, C, V, P, L>(
    handler: ArcThumbPreviewHandler<S, T, I, C, V, P, L>,
    token: u32,
)
    requires
        handler.rect.extents_fit(),
    ensures
        ({
            let state = handler.video_state;
            let after = handler.toggled(token);
            let effect = handler.toggle_effect(token);
            let playable = handler.video_bytes is Some && handler.child_hwnd != 0;
            &&& state is Playing || state is Paused ==> {
                &&& after == handler
                &&& effect.retired is None && effect.repaint is None && effect.start is None
                &&& handler.video_player is Some ==> effect.order == Some(PlayerOrder::Toggle)
                &&& handler.video_player is None ==> effect.order is None
            }
            &&& state is Ended ==> {
                &&& after == (ArcThumbPreviewHandler {
                    video_state: PreviewVideoState::Starting,
                    ..handler
                })
                &&& effect.retired is None && effect.start is None
                &&& effect.repaint == Some(handler.child_hwnd)
                &&& handler.video_player is Some ==> effect.order == Some(PlayerOrder::Replay)
                &&& handler.video_player is None ==> effect.order is None
            }
            &&& (state is Idle || state is Error) && playable ==> {
                &&& after == (ArcThumbPreviewHandler {
                    video_state: PreviewVideoState::Starting,
                    video_player: None,
                    video_token: token,
                    ..handler
                })
                &&& effect.retired == handler.video_player
                &&& effect.repaint == Some(handler.child_hwnd)
                &&& effect.order is None
                &&& effect.start matches Some(plan) && plan.window == handler.child_hwnd
                    && plan.width == handler.rect.right - handler.rect.left && plan.height
                    == handler.rect.bottom - handler.rect.top && plan.token == token
            }
            &&& (state is Idle || state is Error) && !playable ==> {
                &&& after == (ArcThumbPreviewHandler {
                    video_player: None,
                    video_token: 0,
                    ..handler
                })
                &&& effect.retired == handler.video_player
                &&& effect.repaint is None && effect.order is None && effect.start is None
            }
            &&& handler.can_play() <==> playable
            &&& handler.starts_player() <==> (state is Idle || state is Error) && playable
        }),
{
}

/// A notice sets what is shown of the clip; a failure also leaves its
/// status code. Nothing else changes.
pub proof fn notices_set_the_state<S, T, I, C, V, P, L>(
    handler: ArcThumbPreviewHandler<S, T, I, C, V, P, L>,
    status: i32,
)
    ensures
        handler.noticed(Notice::Playing) == (ArcThumbPreviewHandler {
            video_state: PreviewVideoState::Playing,
            ..handler
        }),
        handler.noticed(Notice::Paused) == (ArcThumbPreviewHandler {
            video_state: PreviewVideoState::Paused,
            ..handler
        }),
        handler.noticed(Notice::Ended) == (ArcThumbPreviewHandler {
            video_state: PreviewVideoState::Ended,
            ..handler
        }),
        handler.noticed(Notice::Failed(status)) == (ArcThumbPreviewHandler {
            video_state: PreviewVideoState::Error,
            video_error: status,
            ..handler
        }),
{
}

/// The handler waits for one loading job at most, the one with the token
/// that it keeps.
pub proof fn one_job_is_waited_for<S, T, I, C, V, P, L>(
    handler: ArcThumbPreviewHandler<S, T, I, C, V, P, L>,
    token: u32,
)
    ensures
        handler.load_slot is None ==> !handler.waits_for(token),
        handler.load_slot matches Some(load) ==> (handler.waits_for(token) <==> token
            == load.token),
{
}

} // verus!
