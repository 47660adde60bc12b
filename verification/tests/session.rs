use steamos_manager::session::{
    clean_temporary_sessions, is_valid_desktop_session, is_valid_desktop_session_name,
    set_default_session, set_temporary_session, valid_desktop_sessions, DesktopSession,
    InvalidSession, LoginMode, NewlineInSession, RemoveOutcome, SessionEvent, SessionManager,
    SessionManagerMessage, SessionManagerService, SessionManagerState, SessionReaction, UnitReply,
    CONFIG_PATH, TEMPORARY_CONFIG_PATH,
};
use steamos_manager::systemd::{ActiveState, JobMode};

#[test]
fn test_valid_desktop_session_names() {
    assert!(is_valid_desktop_session_name("plasma.desktop"));
    assert!(!is_valid_desktop_session_name(".plasma.desktop"));
    assert!(!is_valid_desktop_session_name("plasma"));
    assert!(!is_valid_desktop_session_name("gamescope.desktop"));
}

#[test]
fn test_valid_desktop_sessions() {
    let names = [
        "plasma.desktop",
        "gamescope.desktop",
        "plasmax11.desktop",
        ".fake.desktop",
        "fake",
    ];
    let mut found: Vec<Option<String>> = names.iter().map(|n| Some(n.to_string())).collect();
    found.push(None);
    assert_eq!(
        valid_desktop_sessions(&found),
        &["plasma.desktop", "plasmax11.desktop"]
    );
}

#[test]
fn test_is_valid_desktop_session() {
    assert!(is_valid_desktop_session(
        "plasma.desktop",
        &vec![true, false]
    ));
    assert!(is_valid_desktop_session(
        "plasmax11.desktop",
        &vec![false, true]
    ));
    assert!(!is_valid_desktop_session(
        "gamescope.desktop",
        &vec![true, false]
    ));
    assert!(!is_valid_desktop_session(
        "doesnotexist.desktop",
        &vec![false, false]
    ));
    assert!(!is_valid_desktop_session(
        ".fake.desktop",
        &vec![false, true]
    ));
    assert!(!is_valid_desktop_session("fake", &vec![false, true]));
}

fn desktop_state() -> SessionManagerState {
    SessionManagerState {
        default_login_mode: LoginMode::Desktop,
        desktop_session: Some(DesktopSession(String::from("plasma.desktop"))),
    }
}

#[test]
fn test_get_state() {
    let manager = SessionManager {};
    assert_eq!(
        manager.default_desktop_session(&desktop_state()),
        "plasma.desktop"
    );
    assert_eq!(
        manager.default_login_mode(&desktop_state()),
        LoginMode::Desktop
    );
}

#[test]
fn test_write_state() {
    let manager = SessionManager {};
    let state = SessionManagerState::default();
    assert_eq!(
        manager.default_desktop_session(&state),
        DesktopSession::default().0
    );
    assert_eq!(manager.default_login_mode(&state), LoginMode::Game);
    assert!(state.desktop_session.is_none());

    let plan = manager.set_default_login_mode(state, LoginMode::Desktop);
    assert_eq!(plan.default_session, Some(DesktopSession::default().0));
    let state = plan.state;
    assert_eq!(manager.default_login_mode(&state), LoginMode::Desktop);
    assert_eq!(
        manager.default_desktop_session(&state),
        DesktopSession::default().0
    );
    assert!(state.desktop_session.is_none());

    let again = SessionManagerState {
        default_login_mode: state.default_login_mode,
        desktop_session: None,
    };
    assert_eq!(
        manager.set_default_desktop_session(again, "city17.desktop", &vec![false, false]),
        Err(InvalidSession)
    );

    let plan = manager
        .set_default_desktop_session(state, "city17.desktop", &vec![false, true])
        .unwrap();
    assert_eq!(plan.default_session, Some(String::from("city17.desktop")));
    assert_eq!(
        manager.default_desktop_session(&plan.state),
        "city17.desktop"
    );
    assert_eq!(
        plan.state.desktop_session,
        Some(DesktopSession(String::from("city17.desktop")))
    );
}

#[test]
fn desktop_session_is_only_kept_in_game_mode() {
    let manager = SessionManager {};
    let plan = manager
        .set_default_desktop_session(SessionManagerState::default(), "a.desktop", &vec![true])
        .unwrap();
    assert_eq!(plan.default_session, None);
    assert_eq!(
        plan.state.desktop_session,
        Some(DesktopSession(String::from("a.desktop")))
    );
    let plan = manager.set_default_login_mode(plan.state, LoginMode::Game);
    assert_eq!(
        plan.default_session,
        Some(String::from("gamescope-wayland.desktop"))
    );
}

#[test]
fn test_temporary_session() {
    let manager = SessionManager {};
    let state = SessionManagerState::default();
    let plan = manager.switch_to_login_mode(&state, LoginMode::Desktop);
    assert_eq!(plan.temporary_session, DesktopSession::default().0);
    assert_eq!(plan.logout, JobMode::Fail);
    let plan = manager.switch_to_login_mode(&state, LoginMode::Game);
    assert_eq!(plan.temporary_session, "gamescope-wayland.desktop");
}

#[test]
fn autologin_files() {
    let file = set_temporary_session("plasma.desktop").unwrap();
    assert_eq!(file.name, TEMPORARY_CONFIG_PATH);
    assert_eq!(file.contents, "[Autologin]\nSession=plasma.desktop\n");
    let file = set_default_session("plasma.desktop").unwrap();
    assert_eq!(file.name, CONFIG_PATH);
    assert_eq!(file.contents, "[Autologin]\nSession=plasma.desktop\n");
    assert_eq!(
        set_temporary_session("a\n[Autologin]"),
        Err(NewlineInSession)
    );
    assert_eq!(set_default_session("\n"), Err(NewlineInSession));
    assert!(clean_temporary_sessions(RemoveOutcome::Removed));
    assert!(clean_temporary_sessions(RemoveOutcome::NotFound));
    assert!(!clean_temporary_sessions(RemoveOutcome::OtherError));
}

#[test]
fn login_mode_spellings() {
    assert_eq!(LoginMode::from_str("game").unwrap(), LoginMode::Game);
    assert_eq!(LoginMode::Desktop.to_string(), "desktop");
    assert!(LoginMode::from_str("kiosk").is_err());
    assert_eq!(LoginMode::default(), LoginMode::Game);
}

#[test]
fn login_mode_follows_the_session() {
    let manager = SessionManager {};
    for (reply, mode) in [
        (
            UnitReply::State(ActiveState::Activating),
            Some(LoginMode::Game),
        ),
        (
            UnitReply::State(ActiveState::Inactive),
            Some(LoginMode::Desktop),
        ),
        (UnitReply::UnknownObject, Some(LoginMode::Desktop)),
        (UnitReply::OtherError, None),
    ] {
        assert_eq!(manager.current_login_mode(reply), mode);
        assert_eq!(manager.create_service(reply).map(|s| s.current_mode), mode);
    }
}

#[test]
fn changes_are_told_once() {
    let mut service = SessionManagerService {
        current_mode: LoginMode::Desktop,
    };
    let told = |mode| SessionReaction::Send(SessionManagerMessage::LoginModeChanged(mode));
    assert_eq!(
        service.run(SessionEvent::Started(Some(ActiveState::Active))),
        told(LoginMode::Game)
    );
    assert_eq!(
        service.run(SessionEvent::Changed(Some(ActiveState::Active))),
        SessionReaction::Wait
    );
    assert_eq!(
        service.run(SessionEvent::Changed(None)),
        SessionReaction::Wait
    );
    assert_eq!(
        service.run(SessionEvent::Changed(Some(ActiveState::Inactive))),
        told(LoginMode::Desktop)
    );
    assert_eq!(service.current_mode, LoginMode::Desktop);
    assert_eq!(service.run(SessionEvent::Ended), SessionReaction::Finish);
}
