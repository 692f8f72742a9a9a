//! Which player shows a clip, and which one comes next.
//!
//! The system's media pipeline goes first. If it fails, the bundled
//! software decoder is tried. A user whose system decoder misbehaves can
//! ask for the software decoder right away.

use vstd::prelude::*;

use crate::preview::video::{failure_notice, Notice};
use crate::text::same_text;

verus! {

/// How players are chosen.
#[derive(Debug, Clone, Copy, PartialEq, Eq, Structural)]
pub enum VideoBackend {
    /// The system's pipeline first, then the software decoder.
    Automatic,
    /// The software decoder only.
    Software,
}

/// A player for clips.
#[derive(Debug, Clone, Copy, PartialEq, Eq, Structural)]
pub enum Player {
    System,
    Software,
}

/// What follows on the end of a player.
#[derive(Debug, Clone, Copy, PartialEq, Eq, Structural)]
pub enum AfterPlayer {
    /// Try this player on the same clip.
    Try(Player),
    /// Playback is over; the window hears of a failure.
    End(Option<Notice>),
}

/// Name of the environment variable that asks for a player.
pub const BACKEND_VARIABLE: &'static str = "ARCTHUMB_VIDEO_BACKEND";

/// Name of the stored value that asks for a player.
pub const BACKEND_VALUE: &'static str = "VideoBackend";

/// The text that asks for the software decoder.
pub const BACKEND_SOFTWARE: &'static str = "software";

/// What a text asks for. Only one text asks for anything.
pub open spec fn requested(text: Seq<char>) -> VideoBackend {
    if text == BACKEND_SOFTWARE@ {
        VideoBackend::Software
    } else {
        VideoBackend::Automatic
    }
}

/// What the environment variable and the stored value ask for together,
/// each if it is set. The variable takes precedence.
pub open spec fn chosen(variable: Option<Seq<char>>, value: Option<Seq<char>>) -> VideoBackend {
    match (variable, value) {
        (Some(text), _) => requested(text),
        (None, Some(text)) => requested(text),
        (None, None) => VideoBackend::Automatic,
    }
}

/// The view of a text that may be missing.
pub open spec fn text_view(text: Option<&str>) -> Option<Seq<char>> {
    match text {
        Some(text) => Some(text@),
        None => None,
    }
}

fn request_of(text: &str) -> (backend: VideoBackend)
    ensures
        backend == requested(text@),
{
    if same_text(text, BACKEND_SOFTWARE) {
        VideoBackend::Software
    } else {
        VideoBackend::Automatic
    }
}

/// Chooses how players are chosen, from the environment variable and the
/// stored value.
pub fn choose_backend(variable: Option<&str>, value: Option<&str>) -> (backend: VideoBackend)
    ensures
        backend == chosen(text_view(variable), text_view(value)),
{
    match (variable, value) {
        (Some(text), _) => request_of(text),
        (None, Some(text)) => request_of(text),
        (None, None) => VideoBackend::Automatic,
    }
}

/// The player that is tried first.
pub open spec fn first_of(backend: VideoBackend) -> Player {
    match backend {
        VideoBackend::Automatic => Player::System,
        VideoBackend::Software => Player::Software,
    }
}

/// The player that is tried first.
pub fn first_player(backend: VideoBackend) -> (player: Player)
    ensures
        player == first_of(backend),
{
    match backend {
        VideoBackend::Automatic => Player::System,
        VideoBackend::Software => Player::Software,
    }
}

/// What follows when `player` has ended with `result`. The software
/// decoder takes over from the system's pipeline if that has failed and
/// nobody has asked for an end meanwhile.
pub open spec fn follows(player: Player, result: Result<(), i32>, shutdown: bool) -> AfterPlayer {
    match result {
        Err(_) if player is System && !shutdown => AfterPlayer::Try(Player::Software),
        Err(code) => AfterPlayer::End(Some(Notice::Failed(code))),
        Ok(_) => AfterPlayer::End(None),
    }
}

/// Decides what follows on the end of a player. `shutdown` says that the
/// window no longer wants the clip.
pub fn after_player(player: Player, result: Result<(), i32>, shutdown: bool) -> (after: AfterPlayer)
    ensures
        after == follows(player, result, shutdown),
{
    match (player, &result) {
        (Player::System, Err(_)) if !shutdown => AfterPlayer::Try(Player::Software),
        _ => AfterPlayer::End(failure_notice(result)),
    }
}

/// The software decoder is tried exactly if the system's pipeline has
/// failed for a clip that is still wanted, and it is the last resort. A
/// failure is reported only once nothing is left to try.
pub proof fn software_is_the_last_resort(player: Player, result: Result<(), i32>, shutdown: bool)
    ensures
        follows(player, result, shutdown) is Try <==> player is System && result is Err
            && !shutdown,
        follows(player, result, shutdown) matches AfterPlayer::Try(next) ==> next
            == Player::Software,
        follows(Player::Software, result, shutdown) is End,
        follows(player, result, shutdown) matches AfterPlayer::End(notice) ==> (notice is Some
            <==> result is Err),
{
}

/// Asking for the software decoder keeps the system's pipeline out of
/// it, and the environment variable decides alone if it is set.
pub proof fn variable_takes_precedence(variable: Seq<char>, value: Option<Seq<char>>)
    ensures
        chosen(Some(variable), value) == requested(variable),
        requested(BACKEND_SOFTWARE@) == VideoBackend::Software,
        first_of(VideoBackend::Software) == Player::Software,
        chosen(None, None) == VideoBackend::Automatic,
{
}

/// The software decoder is asked for by one word and nothing else: by the
/// environment variable, or by the stored value where there is no such
/// variable.
pub proof fn software_is_asked_for_by_word(variable: Seq<char>, value: Seq<char>)
    ensures
        chosen(Some(variable), Some(value)) is Software <==> variable == "software"@,
        chosen(Some(variable), None) is Software <==> variable == "software"@,
        chosen(None, Some(value)) is Software <==> value == "software"@,
        chosen(None, None) is Automatic,
{
}

/// The system's pipeline goes first unless the software decoder was asked
/// for. Of the two, only a failure of the first that nobody has cut short
/// leads to another try; every other failure is told with its own code.
pub proof fn players_follow_on_each_other(code: i32, shutdown: bool)
    ensures
        first_of(VideoBackend::Automatic) is System,
        first_of(VideoBackend::Software) is Software,
        follows(Player::System, Err(code), false) == AfterPlayer::Try(Player::Software),
        follows(Player::System, Err(code), true) == AfterPlayer::End(Some(Notice::Failed(code))),
        follows(Player::Software, Err(code), shutdown) == AfterPlayer::End(
            Some(Notice::Failed(code)),
        ),
        follows(Player::System, Ok(()), shutdown) == AfterPlayer::End(None),
        follows(Player::Software, Ok(()), shutdown) == AfterPlayer::End(None),
{
}

/// The view of a text that may be missing.
pub proof fn missing_texts_stay_missing(text: &str)
    ensures
        text_view(Some(text)) == Some(text@),
        text_view(None) is None,
{
}

} // verus!
