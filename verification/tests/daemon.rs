use steamos_manager::daemon::notify::{begin_reload, notify, ready, NotifyStep};
use steamos_manager::daemon::run::{
    Daemon, DaemonAction, DaemonCommand, DaemonError, DaemonEvent, DaemonState,
};
use steamos_manager::daemon::user::{
    create_connections, daemon, AvailableServices, PingAction, UserCommand, UserContext,
    UserReaction, UserService, MAX_PINGS,
};
use steamos_manager::session::{LoginMode, SessionManagerState};

type Event = DaemonEvent<String>;

/// Runs the daemon on some events; gives the actions and what it ended with.
fn run(events: Vec<Event>) -> (Vec<(bool, DaemonAction)>, Option<Result<(), DaemonError<String>>>) {
    let mut d = Daemon::new(2).unwrap();
    let mut actions = Vec::new();
    for event in events {
        let (next, step) = d.run(event);
        actions.push((step.notify_ready, step.action));
        d = next;
    }
    let ended = match d.state {
        DaemonState::Ended(result) => Some(result),
        _ => None,
    };
    (actions, ended)
}

fn failed(text: &str) -> Event {
    DaemonEvent::ServiceEnded(Err(text.to_string()))
}

#[test]
fn notifications() {
    assert_eq!(notify(true, false), NotifyStep::Send);
    assert_eq!(notify(false, true), NotifyStep::ConnectAndSend);
    assert_eq!(notify(false, false), NotifyStep::Skip);
    assert_eq!(ready(), "READY=1\n");
    assert_eq!(
        begin_reload(12, 345_678_901),
        "RELOADING=1\nMONOTONIC_USEC=12345678\n"
    );
}

#[test]
fn daemon_needs_services() {
    let d: Result<Daemon<String>, _> = Daemon::new(0);
    assert_eq!(d.err(), Some(DaemonError::NoServices));
}

#[test]
fn daemon_ends_when_told() {
    for event in [
        DaemonEvent::Interrupted,
        DaemonEvent::Sigterm { came: true },
    ] {
        let (actions, ended) = run(vec![
            event,
            DaemonEvent::ServiceEnded(Ok(())),
            DaemonEvent::NoServiceLeft,
        ]);
        assert_eq!(
            actions,
            vec![
                (false, DaemonAction::Cancel),
                (false, DaemonAction::Join),
                (false, DaemonAction::Return)
            ]
        );
        assert_eq!(ended, Some(Ok(())));
    }
}

#[test]
fn daemon_errors() {
    for (event, error) in [
        (DaemonEvent::Sigquit, DaemonError::GotSigquit),
        (
            DaemonEvent::Sigterm { came: false },
            DaemonError::SigtermBroke,
        ),
        (
            DaemonEvent::Sighup { came: false },
            DaemonError::SighupBroke,
        ),
        (DaemonEvent::SendersClosed, DaemonError::SendersClosed),
        (failed("x"), DaemonError::Service("x".to_string())),
    ] {
        let (_, ended) = run(vec![event, DaemonEvent::NoServiceLeft]);
        assert_eq!(ended, Some(Err(error)));
    }
}

#[test]
fn last_failure_is_returned() {
    let (_, ended) = run(vec![
        DaemonEvent::Interrupted,
        failed("a"),
        failed("b"),
        DaemonEvent::ServiceEnded(Ok(())),
        DaemonEvent::NoServiceLeft,
    ]);
    assert_eq!(ended, Some(Err(DaemonError::Service("b".to_string()))));
}

#[test]
fn reload_is_answered() {
    let (actions, ended) = run(vec![
        DaemonEvent::Sighup { came: true },
        DaemonEvent::ConfigRead { success: true },
        DaemonEvent::ContextDone(Ok(())),
    ]);
    assert_eq!(
        actions,
        vec![
            (false, DaemonAction::NotifyAndReadConfig),
            (false, DaemonAction::Reload),
            (true, DaemonAction::Wait)
        ]
    );
    assert_eq!(ended, None);
    let (actions, ended) = run(vec![
        DaemonEvent::Sighup { came: true },
        DaemonEvent::ConfigRead { success: false },
    ]);
    assert_eq!(actions[1], (true, DaemonAction::Wait));
    assert_eq!(ended, None);
}

#[test]
fn commands() {
    let command = |c| -> Event { DaemonEvent::Command(c) };
    let (actions, _) = run(vec![
        command(DaemonCommand::ReadConfig),
        DaemonEvent::ConfigRead { success: true },
        DaemonEvent::ContextDone(Ok(())),
        command(DaemonCommand::ContextCommand),
        DaemonEvent::ContextDone(Ok(())),
        command(DaemonCommand::WriteState),
    ]);
    assert_eq!(
        actions,
        vec![
            (false, DaemonAction::ReadConfig),
            (false, DaemonAction::Reload),
            (false, DaemonAction::Wait),
            (false, DaemonAction::HandleCommand),
            (false, DaemonAction::Wait),
            (false, DaemonAction::WriteState),
        ]
    );
    let (_, ended) = run(vec![
        command(DaemonCommand::ContextCommand),
        DaemonEvent::ContextDone(Err("c".to_string())),
        DaemonEvent::NoServiceLeft,
    ]);
    assert_eq!(ended, Some(Err(DaemonError::Context("c".to_string()))));
}

#[test]
fn user_services() {
    assert_eq!(
        daemon(AvailableServices {
            screenreader_setup: false,
            session_manager: false,
            tdp_manager: false,
            cecd: false
        }),
        vec![UserService::SignalRelay, UserService::JobManager]
    );
    assert_eq!(
        daemon(AvailableServices {
            screenreader_setup: true,
            session_manager: true,
            tdp_manager: true,
            cecd: true
        }),
        vec![
            UserService::SignalRelay,
            UserService::ScreenReaderSetup,
            UserService::SessionManager,
            UserService::JobManager,
            UserService::TdpManager,
            UserService::Cecd,
        ]
    );
}

#[test]
fn root_manager_is_pinged() {
    assert_eq!(create_connections(0, false), PingAction::Ping);
    assert_eq!(create_connections(1, true), PingAction::Proceed);
    assert_eq!(create_connections(MAX_PINGS, false), PingAction::Proceed);
}

#[test]
fn user_context() {
    let mut context = UserContext {
        session_manager: SessionManagerState::default(),
    };
    let state = SessionManagerState {
        default_login_mode: LoginMode::Desktop,
        desktop_session: None,
    };
    assert_eq!(
        context.handle_command(UserCommand::SetSessionManagerState(state)),
        UserReaction::WriteState
    );
    assert_eq!(
        context.session_manager.default_login_mode,
        LoginMode::Desktop
    );
    assert_eq!(
        context.handle_command(UserCommand::GetSessionManagerState),
        UserReaction::ReplySessionManagerState
    );
}

#[test]
fn failed_start_ends_the_daemon() {
    let daemon: Daemon<String> = Daemon::new(1).unwrap();
    let daemon = daemon.start(Ok(())).unwrap();
    assert_eq!(daemon.state, DaemonState::Running);
    assert_eq!(
        daemon.start(Err("no state".to_string())).unwrap_err(),
        DaemonError::Context("no state".to_string())
    );
}

#[test]
fn daemon_messages() {
    let message = |e: DaemonError<String>| e.message();
    assert_eq!(
        message(DaemonError::NoServices).unwrap(),
        "Can't run a daemon with no services attached."
    );
    assert_eq!(message(DaemonError::Service("x".to_string())), None);
    assert_eq!(message(DaemonError::Context("x".to_string())), None);
    assert_eq!(
        message(DaemonError::SigtermBroke).unwrap(),
        "SIGTERM pipe broke"
    );
    assert_eq!(
        message(DaemonError::SighupBroke).unwrap(),
        "SIGHUP pipe broke"
    );
    assert_eq!(
        message(DaemonError::SendersClosed).unwrap(),
        "All senders have been closed"
    );
    assert_eq!(message(DaemonError::GotSigquit).unwrap(), "Got SIGQUIT");
}
