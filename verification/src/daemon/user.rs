//! The daemon of the user's session.
use crate::session::SessionManagerState;
use vstd::prelude::*;

verus! {

/// A service of the daemon.
#[derive(Clone, Copy, Debug, PartialEq, Eq, Structural)]
pub enum UserService {
    SignalRelay,
    ScreenReaderSetup,
    SessionManager,
    JobManager,
    TdpManager,
    Cecd,
}

/// Which of the services that need something are there.
#[derive(Clone, Copy, Debug, PartialEq, Eq, Structural)]
pub struct AvailableServices {
    pub screenreader_setup: bool,
    pub session_manager: bool,
    pub tdp_manager: bool,
    pub cecd: bool,
}

pub open spec fn one_if(there: bool, service: UserService) -> Seq<UserService> {
    if there {
        seq![service]
    } else {
        Seq::empty()
    }
}

/// The services of the daemon, in the order in which they are added.
pub open spec fn services_of(a: AvailableServices) -> Seq<UserService> {
    seq![UserService::SignalRelay] + one_if(a.screenreader_setup, UserService::ScreenReaderSetup)
        + one_if(a.session_manager, UserService::SessionManager) + seq![UserService::JobManager]
        + one_if(a.tdp_manager, UserService::TdpManager) + one_if(a.cecd, UserService::Cecd)
}

/// The services of the daemon, in the order in which they are added.
pub fn daemon(available: AvailableServices) -> (r: Vec<UserService>)
    ensures
        r@ == services_of(available),
{
    let mut r: Vec<UserService> = Vec::new();
    r.push(UserService::SignalRelay);
    if available.screenreader_setup {
        r.push(UserService::ScreenReaderSetup);
    }
    if available.session_manager {
        r.push(UserService::SessionManager);
    }
    r.push(UserService::JobManager);
    if available.tdp_manager {
        r.push(UserService::TdpManager);
    }
    if available.cecd {
        r.push(UserService::Cecd);
    }
    assert(r@ =~= services_of(available));
    r
}

/// Whatever is missing, the daemon has a service to run, and none twice.
pub proof fn law_daemon_has_services(a: AvailableServices)
    ensures
        services_of(a).len() >= 2,
        services_of(a).no_duplicates(),
        services_of(a)[0] == UserService::SignalRelay,
        services_of(a).contains(UserService::JobManager),
        services_of(a).contains(UserService::TdpManager) == a.tdp_manager,
        services_of(a).contains(UserService::Cecd) == a.cecd,
        services_of(a).contains(UserService::SessionManager) == a.session_manager,
        services_of(a).contains(UserService::ScreenReaderSetup) == a.screenreader_setup,
{
    let s = services_of(a);
    let i = 1 + one_if(a.screenreader_setup, UserService::ScreenReaderSetup).len() + one_if(
        a.session_manager,
        UserService::SessionManager,
    ).len();
    assert(s[i as int] == UserService::JobManager);
    if a.screenreader_setup {
        assert(s[1] == UserService::ScreenReaderSetup);
    }
    if a.session_manager {
        assert(s[i - 1] == UserService::SessionManager);
    }
    if a.tdp_manager {
        assert(s[i as int + 1] == UserService::TdpManager);
    }
    if a.cecd {
        assert(s[s.len() - 1] == UserService::Cecd);
    }
}

/// The services stand in a fixed order: what is missing does not change the order
/// of the others.
pub proof fn law_services_in_order(a: AvailableServices, i: int, j: int)
    requires
        0 <= i < j < services_of(a).len(),
    ensures
        service_rank(services_of(a)[i]) < service_rank(services_of(a)[j]),
{
    let n = one_if(a.screenreader_setup, UserService::ScreenReaderSetup).len();
    let m = one_if(a.session_manager, UserService::SessionManager).len();
    let s = services_of(a);
    assert(s[0] == UserService::SignalRelay);
    if n == 1 {
        assert(s[1] == UserService::ScreenReaderSetup);
    }
    if m == 1 {
        assert(s[n as int + 1] == UserService::SessionManager);
    }
    assert(s[(n + m) as int + 1] == UserService::JobManager);
    if a.tdp_manager {
        assert(s[(n + m) as int + 2] == UserService::TdpManager);
    }
    if a.cecd {
        assert(s[s.len() - 1] == UserService::Cecd);
    }
}

/// The place of a service among all of them.
pub open spec fn service_rank(service: UserService) -> int {
    match service {
        UserService::SignalRelay => 0,
        UserService::ScreenReaderSetup => 1,
        UserService::SessionManager => 2,
        UserService::JobManager => 3,
        UserService::TdpManager => 4,
        UserService::Cecd => 5,
    }
}

/// What is done after the root daemon was pinged.
#[derive(Clone, Copy, Debug, PartialEq, Eq, Structural)]
pub enum PingAction {
    /// Ping again; the daemon is given a second to answer.
    Ping,
    /// Go on, and connect to the session.
    Proceed,
}

/// How often the root daemon is pinged at most.
pub const MAX_PINGS: u32 = 5;

/// What is done after `pings` pings, of which the last one was answered or not:
/// the daemon goes on once the root daemon answers, and in any case after the
/// last ping.
pub fn create_connections(pings: u32, answered: bool) -> (r: PingAction)
    ensures
        r == (if answered || pings >= MAX_PINGS {
            PingAction::Proceed
        } else {
            PingAction::Ping
        }),
{
    if answered || pings >= MAX_PINGS {
        PingAction::Proceed
    } else {
        PingAction::Ping
    }
}

/// A command to the context of the user daemon.
#[derive(Debug, PartialEq, Eq)]
pub enum UserCommand {
    SetSessionManagerState(SessionManagerState),
    GetSessionManagerState,
}

/// What the context does on a command.
#[derive(Debug, PartialEq, Eq)]
pub enum UserReaction {
    /// Send the daemon the command to write its state.
    WriteState,
    /// Answer with the state of the session manager.
    ReplySessionManagerState,
}

/// The context of the user daemon.
#[derive(Debug)]
pub struct UserContext {
    pub session_manager: SessionManagerState,
}

impl UserContext {
    /// What the context does on a command: a new state is kept and written.
    pub fn handle_command(&mut self, command: UserCommand) -> (r: UserReaction)
        ensures
            match command {
                UserCommand::SetSessionManagerState(state) => r == UserReaction::WriteState
                    && final(self).session_manager == state,
                UserCommand::GetSessionManagerState => r == UserReaction::ReplySessionManagerState
                    && final(self).session_manager == old(self).session_manager,
            },
    {
        match command {
            UserCommand::SetSessionManagerState(state) => {
                self.session_manager = state;
                UserReaction::WriteState
            },
            UserCommand::GetSessionManagerState => UserReaction::ReplySessionManagerState,
        }
    }
}

} // verus!
