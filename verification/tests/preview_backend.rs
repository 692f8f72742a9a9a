use arcthumb::preview::backend::{
    after_player, choose_backend, first_player, AfterPlayer, Player, VideoBackend,
    BACKEND_VALUE, BACKEND_VARIABLE,
};
use arcthumb::preview::video::Notice;

#[test]
fn software_has_to_be_asked_for() {
    assert_eq!(choose_backend(None, None), VideoBackend::Automatic);
    assert_eq!(choose_backend(None, Some("software")), VideoBackend::Software);
    assert_eq!(choose_backend(None, Some("Software ")), VideoBackend::Automatic);
    assert_eq!(choose_backend(None, Some("")), VideoBackend::Automatic);
    assert_eq!(BACKEND_VALUE, "VideoBackend");
    assert_eq!(BACKEND_VARIABLE, "ARCTHUMB_VIDEO_BACKEND");
}

#[test]
fn environment_variable_takes_precedence() {
    assert_eq!(choose_backend(Some("software"), None), VideoBackend::Software);
    assert_eq!(choose_backend(Some("software"), Some("auto")), VideoBackend::Software);
    assert_eq!(choose_backend(Some("auto"), Some("software")), VideoBackend::Automatic);
}

#[test]
fn system_player_goes_first_unless_software_is_asked_for() {
    assert_eq!(first_player(VideoBackend::Automatic), Player::System);
    assert_eq!(first_player(VideoBackend::Software), Player::Software);
}

#[test]
fn software_player_takes_over_after_a_failure() {
    assert_eq!(
        after_player(Player::System, Err(-5), false),
        AfterPlayer::Try(Player::Software)
    );
    assert_eq!(
        after_player(Player::System, Err(-5), true),
        AfterPlayer::End(Some(Notice::Failed(-5)))
    );
    assert_eq!(
        after_player(Player::Software, Err(-7), false),
        AfterPlayer::End(Some(Notice::Failed(-7)))
    );
    for player in [Player::System, Player::Software] {
        assert_eq!(after_player(player, Ok(()), false), AfterPlayer::End(None));
    }
}
