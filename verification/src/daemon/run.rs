//! The main loop of the daemon. `E` is the type of the errors that services and
//! the daemon's context report.
use crate::text::view_of;
use vstd::prelude::*;

verus! {

/// Why the daemon ends.
#[derive(Debug, PartialEq, Eq)]
pub enum DaemonError<E> {
    /// "Can't run a daemon with no services attached."
    NoServices,
    /// A service failed.
    Service(E),
    /// Starting, reloading, handling a command or writing the state failed.
    Context(E),
    /// "SIGTERM pipe broke".
    SigtermBroke,
    /// "SIGHUP pipe broke".
    SighupBroke,
    /// "All senders have been closed".
    SendersClosed,
    /// "Got SIGQUIT".
    GotSigquit,
}

impl<E> DaemonError<E> {
    /// What is reported, where it is worded here and not by what failed.
    pub open spec fn text(self) -> Option<Seq<char>> {
        match self {
            DaemonError::NoServices => Some("Can't run a daemon with no services attached."@),
            DaemonError::Service(_) => None,
            DaemonError::Context(_) => None,
            DaemonError::SigtermBroke => Some("SIGTERM pipe broke"@),
            DaemonError::SighupBroke => Some("SIGHUP pipe broke"@),
            DaemonError::SendersClosed => Some("All senders have been closed"@),
            DaemonError::GotSigquit => Some("Got SIGQUIT"@),
        }
    }

    /// What is reported, where it is worded here and not by what failed.
    pub fn message(&self) -> (r: Option<String>)
        ensures
            view_of(r) == self.text(),
    {
        match self {
            DaemonError::NoServices => Some(
                "Can't run a daemon with no services attached.".to_owned(),
            ),
            DaemonError::Service(_) => None,
            DaemonError::Context(_) => None,
            DaemonError::SigtermBroke => Some("SIGTERM pipe broke".to_owned()),
            DaemonError::SighupBroke => Some("SIGHUP pipe broke".to_owned()),
            DaemonError::SendersClosed => Some("All senders have been closed".to_owned()),
            DaemonError::GotSigquit => Some("Got SIGQUIT".to_owned()),
        }
    }
}

/// A command to the daemon.
#[derive(Clone, Copy, Debug, PartialEq, Eq, Structural)]
pub enum DaemonCommand {
    /// One for the context.
    ContextCommand,
    ReadConfig,
    WriteState,
}

/// What happens to the daemon.
#[derive(Debug, PartialEq, Eq)]
pub enum DaemonEvent<E> {
    /// A service ended.
    ServiceEnded(Result<(), E>),
    /// Somebody interrupted the daemon.
    Interrupted,
    /// The signal to terminate came, or the pipe of that signal broke.
    Sigterm { came: bool },
    /// The signal to reload came, or the pipe of that signal broke.
    Sighup { came: bool },
    Sigquit,
    Command(DaemonCommand),
    /// Nobody can send a command any more.
    SendersClosed,
    /// The configuration was read, or could not be.
    ConfigRead { success: bool },
    /// What the context was told to do is done.
    ContextDone(Result<(), E>),
    /// There is no service left to wait for.
    NoServiceLeft,
}

/// Where the daemon is.
#[derive(Debug, PartialEq, Eq)]
pub enum DaemonState<E> {
    /// It waits for anything.
    Running,
    /// It waits for the configuration; a signal asked for it, or a command.
    ReadingConfig { signalled: bool },
    /// It waits for the context to take over the configuration.
    Reloading { signalled: bool },
    /// It waits for the context to handle a command, or for the state to be
    /// written.
    Handling,
    /// It waits for the services to end, and ends with this then.
    Draining(Result<(), DaemonError<E>>),
    Ended(Result<(), DaemonError<E>>),
}

/// What the daemon does.
#[derive(Clone, Copy, Debug, PartialEq, Eq, Structural)]
pub enum DaemonAction {
    /// Wait for the next event.
    Wait,
    /// Tell the service manager that the daemon reloads, then read the
    /// configuration.
    NotifyAndReadConfig,
    ReadConfig,
    /// Make the context take over the configuration.
    Reload,
    /// Make the context handle the command.
    HandleCommand,
    WriteState,
    /// Tell the services to end, and wait for the first of them.
    Cancel,
    /// Wait for the next service to end.
    Join,
    /// Return.
    Return,
}

/// What the daemon does next, and whether it tells the service manager before
/// that it is ready again.
#[derive(Clone, Copy, Debug, PartialEq, Eq, Structural)]
pub struct DaemonStep {
    pub notify_ready: bool,
    pub action: DaemonAction,
}

pub open spec fn step_to(action: DaemonAction) -> DaemonStep {
    DaemonStep { notify_ready: false, action }
}

/// The daemon ends: with an error, or because it was told to.
pub open spec fn draining<E>(result: Result<(), DaemonError<E>>) -> (DaemonState<E>, DaemonStep) {
    (DaemonState::Draining(result), step_to(DaemonAction::Cancel))
}

/// What the daemon does on an event while it waits for anything.
pub open spec fn running_step<E>(event: DaemonEvent<E>) -> (DaemonState<E>, DaemonStep) {
    match event {
        DaemonEvent::ServiceEnded(Ok(())) => (DaemonState::Running, step_to(DaemonAction::Wait)),
        DaemonEvent::ServiceEnded(Err(e)) => draining(Err(DaemonError::Service(e))),
        DaemonEvent::Interrupted => draining(Ok(())),
        DaemonEvent::Sigterm { came } => if came {
            draining(Ok(()))
        } else {
            draining(Err(DaemonError::SigtermBroke))
        },
        DaemonEvent::Sighup { came } => if came {
            (
                DaemonState::ReadingConfig { signalled: true },
                step_to(DaemonAction::NotifyAndReadConfig),
            )
        } else {
            draining(Err(DaemonError::SighupBroke))
        },
        DaemonEvent::Sigquit => draining(Err(DaemonError::GotSigquit)),
        DaemonEvent::Command(DaemonCommand::ContextCommand) => (
            DaemonState::Handling,
            step_to(DaemonAction::HandleCommand),
        ),
        DaemonEvent::Command(DaemonCommand::ReadConfig) => (
            DaemonState::ReadingConfig { signalled: false },
            step_to(DaemonAction::ReadConfig),
        ),
        DaemonEvent::Command(DaemonCommand::WriteState) => (
            DaemonState::Handling,
            step_to(DaemonAction::WriteState),
        ),
        DaemonEvent::SendersClosed => draining(Err(DaemonError::SendersClosed)),
        _ => (DaemonState::Running, step_to(DaemonAction::Wait)),
    }
}

/// What the daemon does on an event. An event that it does not wait for changes
/// nothing.
pub open spec fn daemon_step<E>(state: DaemonState<E>, event: DaemonEvent<E>) -> (
    DaemonState<E>,
    DaemonStep,
) {
    match (state, event) {
        (DaemonState::Running, event) => running_step(event),
        (DaemonState::ReadingConfig { signalled }, DaemonEvent::ConfigRead { success }) => {
            if success {
                (DaemonState::Reloading { signalled }, step_to(DaemonAction::Reload))
            } else {
                (
                    DaemonState::Running,
                    DaemonStep { notify_ready: signalled, action: DaemonAction::Wait },
                )
            }
        },
        (DaemonState::Reloading { signalled }, DaemonEvent::ContextDone(result)) => match result {
            Ok(()) => (
                DaemonState::Running,
                DaemonStep { notify_ready: signalled, action: DaemonAction::Wait },
            ),
            Err(e) => (
                DaemonState::Draining(Err(DaemonError::Context(e))),
                DaemonStep { notify_ready: signalled, action: DaemonAction::Cancel },
            ),
        },
        (DaemonState::Handling, DaemonEvent::ContextDone(result)) => match result {
            Ok(()) => (DaemonState::Running, step_to(DaemonAction::Wait)),
            Err(e) => draining(Err(DaemonError::Context(e))),
        },
        (DaemonState::Draining(result), DaemonEvent::ServiceEnded(ended)) => match ended {
            Ok(()) => (DaemonState::Draining(result), step_to(DaemonAction::Join)),
            Err(e) => (
                DaemonState::Draining(Err(DaemonError::Service(e))),
                step_to(DaemonAction::Join),
            ),
        },
        (DaemonState::Draining(result), DaemonEvent::NoServiceLeft) => (
            DaemonState::Ended(result),
            step_to(DaemonAction::Return),
        ),
        (state, _) => (state, step_to(DaemonAction::Wait)),
    }
}

/// The daemon.
#[derive(Debug)]
pub struct Daemon<E> {
    pub state: DaemonState<E>,
}

fn plain<E>(state: DaemonState<E>, action: DaemonAction) -> (r: (DaemonState<E>, DaemonStep))
    ensures
        r == (state, step_to(action)),
{
    (state, DaemonStep { notify_ready: false, action })
}

impl<E> Daemon<E> {
    /// The daemon, which needs a service.
    pub fn new(services: usize) -> (r: Result<Daemon<E>, DaemonError<E>>)
        ensures
            if services == 0 {
                r == Err::<Daemon<E>, DaemonError<E>>(DaemonError::NoServices)
            } else {
                r matches Ok(d) && d.state == DaemonState::<E>::Running
            },
    {
        if services == 0 {
            return Err(DaemonError::NoServices);
        }
        Ok(Daemon { state: DaemonState::Running })
    }

    /// What becomes of the daemon after each step before its loop: reading the
    /// state, reading the configuration, and starting the context. If one fails,
    /// the daemon ends with that error at once, without waiting for services.
    pub fn start(self, step: Result<(), E>) -> (r: Result<Daemon<E>, DaemonError<E>>)
        ensures
            r == match step {
                Ok(()) => Ok::<Daemon<E>, DaemonError<E>>(self),
                Err(e) => Err(DaemonError::Context(e)),
            },
    {
        match step {
            Ok(()) => Ok(self),
            Err(e) => Err(DaemonError::Context(e)),
        }
    }

    fn on_running(event: DaemonEvent<E>) -> (r: (DaemonState<E>, DaemonStep))
        ensures
            r == running_step(event),
    {
        match event {
            DaemonEvent::ServiceEnded(Ok(())) => plain(DaemonState::Running, DaemonAction::Wait),
            DaemonEvent::ServiceEnded(Err(e)) => plain(
                DaemonState::Draining(Err(DaemonError::Service(e))),
                DaemonAction::Cancel,
            ),
            DaemonEvent::Interrupted => plain(
                DaemonState::Draining(Ok(())),
                DaemonAction::Cancel,
            ),
            DaemonEvent::Sigterm { came } => {
                if came {
                    plain(DaemonState::Draining(Ok(())), DaemonAction::Cancel)
                } else {
                    plain(
                        DaemonState::Draining(Err(DaemonError::SigtermBroke)),
                        DaemonAction::Cancel,
                    )
                }
            },
            DaemonEvent::Sighup { came } => {
                if came {
                    plain(
                        DaemonState::ReadingConfig { signalled: true },
                        DaemonAction::NotifyAndReadConfig,
                    )
                } else {
                    plain(
                        DaemonState::Draining(Err(DaemonError::SighupBroke)),
                        DaemonAction::Cancel,
                    )
                }
            },
            DaemonEvent::Sigquit => plain(
                DaemonState::Draining(Err(DaemonError::GotSigquit)),
                DaemonAction::Cancel,
            ),
            DaemonEvent::Command(DaemonCommand::ContextCommand) => plain(
                DaemonState::Handling,
                DaemonAction::HandleCommand,
            ),
            DaemonEvent::Command(DaemonCommand::ReadConfig) => plain(
                DaemonState::ReadingConfig { signalled: false },
                DaemonAction::ReadConfig,
            ),
            DaemonEvent::Command(DaemonCommand::WriteState) => plain(
                DaemonState::Handling,
                DaemonAction::WriteState,
            ),
            DaemonEvent::SendersClosed => plain(
                DaemonState::Draining(Err(DaemonError::SendersClosed)),
                DaemonAction::Cancel,
            ),
            _ => plain(DaemonState::Running, DaemonAction::Wait),
        }
    }

    /// One turn of the daemon: what it does on an event.
    pub fn run(self, event: DaemonEvent<E>) -> (r: (Daemon<E>, DaemonStep))
        ensures
            (r.0.state, r.1) == daemon_step(self.state, event),
    {
        let (state, step) = match (self.state, event) {
            (DaemonState::Running, event) => Daemon::on_running(event),
            (DaemonState::ReadingConfig { signalled }, DaemonEvent::ConfigRead { success }) => {
                if success {
                    plain(DaemonState::Reloading { signalled }, DaemonAction::Reload)
                } else {
                    (
                        DaemonState::Running,
                        DaemonStep { notify_ready: signalled, action: DaemonAction::Wait },
                    )
                }
            },
            (DaemonState::Reloading { signalled }, DaemonEvent::ContextDone(result)) => {
                match result {
                    Ok(()) => (
                        DaemonState::Running,
                        DaemonStep { notify_ready: signalled, action: DaemonAction::Wait },
                    ),
                    Err(e) => (
                        DaemonState::Draining(Err(DaemonError::Context(e))),
                        DaemonStep { notify_ready: signalled, action: DaemonAction::Cancel },
                    ),
                }
            },
            (DaemonState::Handling, DaemonEvent::ContextDone(result)) => match result {
                Ok(()) => plain(DaemonState::Running, DaemonAction::Wait),
                Err(e) => plain(
                    DaemonState::Draining(Err(DaemonError::Context(e))),
                    DaemonAction::Cancel,
                ),
            },
            (DaemonState::Draining(result), DaemonEvent::ServiceEnded(ended)) => match ended {
                Ok(()) => plain(DaemonState::Draining(result), DaemonAction::Join),
                Err(e) => plain(
                    DaemonState::Draining(Err(DaemonError::Service(e))),
                    DaemonAction::Join,
                ),
            },
            (DaemonState::Draining(result), DaemonEvent::NoServiceLeft) => plain(
                DaemonState::Ended(result),
                DaemonAction::Return,
            ),
            (state, _) => plain(state, DaemonAction::Wait),
        };
        (Daemon { state }, step)
    }
}

// ---------------------------------------------------------------------------
// Laws
// ---------------------------------------------------------------------------

/// The state after a row of events.
pub open spec fn after_events<E>(state: DaemonState<E>, events: Seq<DaemonEvent<E>>) -> DaemonState<
    E,
>
    decreases events.len(),
{
    if events.len() == 0 {
        state
    } else {
        daemon_step(after_events(state, events.drop_last()), events.last()).0
    }
}

/// The daemon ends without an error only because somebody interrupted it or told
/// it to terminate.
pub proof fn law_ends_well_only_if_told<E>(state: DaemonState<E>, event: DaemonEvent<E>)
    requires
        !(state is Draining) && !(state is Ended),
        daemon_step(state, event).0 == DaemonState::Draining(Ok::<(), DaemonError<E>>(())),
    ensures
        state is Running,
        event is Interrupted || event == (DaemonEvent::<E>::Sigterm { came: true }),
{
}

/// Every error that ends the main loop makes the daemon end with it.
pub proof fn law_errors_end_the_daemon<E>(error: E, signalled: bool)
    ensures
        daemon_step(DaemonState::Running, DaemonEvent::ServiceEnded(Err(error))).0
            == DaemonState::Draining(Err::<(), DaemonError<E>>(DaemonError::Service(error))),
        daemon_step(DaemonState::Handling, DaemonEvent::ContextDone(Err(error))).0
            == DaemonState::Draining(Err::<(), DaemonError<E>>(DaemonError::Context(error))),
        daemon_step(
            DaemonState::Reloading { signalled },
            DaemonEvent::ContextDone(Err(error)),
        ).0 == DaemonState::Draining(Err::<(), DaemonError<E>>(DaemonError::Context(error))),
{
}

/// A configuration that cannot be read does not end the daemon.
pub proof fn law_bad_config_is_survived<E>(signalled: bool)
    ensures
        daemon_step(
            DaemonState::<E>::ReadingConfig { signalled },
            DaemonEvent::ConfigRead { success: false },
        ).0 == DaemonState::<E>::Running,
{
}

/// A reload that a signal asked for, of which the service manager was told, is
/// followed by the message that the daemon is ready, however it ends.
pub proof fn law_reload_is_answered<E>(state: DaemonState<E>, event: DaemonEvent<E>)
    requires
        state == (DaemonState::<E>::ReadingConfig { signalled: true }) || state == (DaemonState::<
            E,
        >::Reloading { signalled: true }),
    ensures
        ({
            let (next, step) = daemon_step(state, event);
            step.notify_ready || next == state || next == (DaemonState::<E>::Reloading {
                signalled: true,
            })
        }),
{
}

/// Once the daemon drains it waits for nothing but its services.
pub proof fn law_draining_only_drains<E>(
    result: Result<(), DaemonError<E>>,
    events: Seq<DaemonEvent<E>>,
)
    ensures
        ({
            let s = after_events(DaemonState::Draining(result), events);
            s is Draining || s is Ended
        }),
    decreases events.len(),
{
    if events.len() > 0 {
        law_draining_only_drains(result, events.drop_last());
    }
}

/// What a row of ends of services makes of a result: the last failure counts.
pub open spec fn last_failure<E>(
    result: Result<(), DaemonError<E>>,
    ends: Seq<Result<(), E>>,
) -> Result<(), DaemonError<E>>
    decreases ends.len(),
{
    if ends.len() == 0 {
        result
    } else {
        match ends.last() {
            Ok(()) => last_failure(result, ends.drop_last()),
            Err(e) => Err(DaemonError::Service(e)),
        }
    }
}

pub open spec fn service_ends<E>(ends: Seq<Result<(), E>>) -> Seq<DaemonEvent<E>> {
    ends.map_values(|end: Result<(), E>| DaemonEvent::ServiceEnded(end))
}

/// The daemon returns the last failure of its services while it drains, or else
/// what made it drain.
pub proof fn law_last_failure_is_returned<E>(
    result: Result<(), DaemonError<E>>,
    ends: Seq<Result<(), E>>,
)
    ensures
        after_events(DaemonState::Draining(result), service_ends(ends)) == DaemonState::Draining(
            last_failure(result, ends),
        ),
        daemon_step(
            after_events(DaemonState::Draining(result), service_ends(ends)),
            DaemonEvent::NoServiceLeft,
        ) == (DaemonState::Ended(last_failure(result, ends)), step_to(DaemonAction::Return)),
    decreases ends.len(),
{
    if ends.len() > 0 {
        law_last_failure_is_returned(result, ends.drop_last());
        assert(service_ends(ends).drop_last() =~= service_ends(ends.drop_last()));
    }
}

/// Whether the daemon goes on without ending.
pub open spec fn goes_on<E>(state: DaemonState<E>) -> bool {
    !(state is Draining) && !(state is Ended)
}

/// While it waits, the daemon ends for a failed service, an interrupt, a broken
/// pipe, the signals to terminate and to quit, and a lost sender; each has its own
/// result, and the services are told to end. Nothing else ends it.
pub proof fn law_what_ends_the_daemon<E>(event: DaemonEvent<E>)
    ensures
        ({
            let (next, step) = daemon_step(DaemonState::Running, event);
            &&& (next is Draining <==> step.action == DaemonAction::Cancel)
            &&& !(next is Ended)
            &&& !step.notify_ready
            &&& (goes_on(next) <==> match event {
                DaemonEvent::ServiceEnded(r) => r is Ok,
                DaemonEvent::Interrupted => false,
                DaemonEvent::Sigterm { .. } => false,
                DaemonEvent::Sighup { came } => came,
                DaemonEvent::Sigquit => false,
                DaemonEvent::SendersClosed => false,
                _ => true,
            })
            &&& (event == (DaemonEvent::<E>::Sigterm { came: false }) <==> next
                == DaemonState::Draining(Err::<(), DaemonError<E>>(DaemonError::SigtermBroke)))
            &&& (event == (DaemonEvent::<E>::Sighup { came: false }) <==> next
                == DaemonState::Draining(Err::<(), DaemonError<E>>(DaemonError::SighupBroke)))
            &&& (event is Sigquit <==> next == DaemonState::Draining(
                Err::<(), DaemonError<E>>(DaemonError::GotSigquit),
            ))
            &&& (event is SendersClosed <==> next == DaemonState::Draining(
                Err::<(), DaemonError<E>>(DaemonError::SendersClosed),
            ))
            &&& (event is Interrupted || event == (DaemonEvent::<E>::Sigterm { came: true })
                <==> next == DaemonState::Draining(Ok::<(), DaemonError<E>>(())))
        }),
{
}

/// Each command leads to its own action, and only a signal to reload is told to
/// the service manager.
pub proof fn law_requests_lead_to_actions<E>(event: DaemonEvent<E>)
    ensures
        ({
            let (next, step) = daemon_step(DaemonState::Running, event);
            &&& (next == (DaemonState::<E>::ReadingConfig { signalled: true }) <==> event == (
            DaemonEvent::<E>::Sighup { came: true }))
            &&& (next == (DaemonState::<E>::ReadingConfig { signalled: false }) <==> event
                == DaemonEvent::<E>::Command(DaemonCommand::ReadConfig))
            &&& (next is Handling <==> step.action == DaemonAction::HandleCommand || step.action
                == DaemonAction::WriteState)
            &&& !(next is Reloading)
            &&& (step.action == DaemonAction::HandleCommand <==> event == DaemonEvent::<E>::Command(
                DaemonCommand::ContextCommand,
            ))
            &&& (step.action == DaemonAction::WriteState <==> event == DaemonEvent::<E>::Command(
                DaemonCommand::WriteState,
            ))
            &&& (step.action == DaemonAction::ReadConfig <==> event == DaemonEvent::<E>::Command(
                DaemonCommand::ReadConfig,
            ))
            &&& (step.action == DaemonAction::NotifyAndReadConfig <==> event == (DaemonEvent::<
                E,
            >::Sighup { came: true }))
            &&& step.action != DaemonAction::Reload
            &&& step.action != DaemonAction::Join
            &&& step.action != DaemonAction::Return
        }),
{
}

/// Reading the configuration leads to the context taking it over, and that back
/// to waiting; it stays known whether a signal asked for it. The service manager
/// is told that the daemon is ready at the end of such a reload, and at no other
/// time.
pub proof fn law_reload_goes_through<E>(state: DaemonState<E>, event: DaemonEvent<E>)
    ensures
        ({
            let (next, step) = daemon_step(state, event);
            &&& (next is Reloading && !(state is Reloading) ==> state is ReadingConfig && event == (
            DaemonEvent::<E>::ConfigRead { success: true }) && step.action == DaemonAction::Reload
                && next->Reloading_signalled == state->ReadingConfig_signalled)
            &&& (step.notify_ready ==> goes_on(state) && (next is Running || next is Draining) && (
            state == (DaemonState::<E>::ReadingConfig { signalled: true }) || state
                == (DaemonState::<E>::Reloading { signalled: true })))
            &&& (state is ReadingConfig && event == (DaemonEvent::<E>::ConfigRead { success: true })
                ==> next is Reloading)
            &&& (state is Reloading && event == DaemonEvent::ContextDone(Ok::<(), E>(()))
                ==> next is Running)
            &&& (state is Handling && event == DaemonEvent::ContextDone(Ok::<(), E>(())) ==> next
                is Running)
        }),
{
}

/// An event that is not waited for changes nothing: while the daemon reads,
/// reloads or handles a command it looks at nothing but the answer, and once it
/// ended nothing matters.
pub proof fn law_other_events_change_nothing<E>(state: DaemonState<E>, event: DaemonEvent<E>)
    ensures
        state is ReadingConfig && !(event is ConfigRead) ==> daemon_step(state, event) == (
            state,
            step_to(DaemonAction::Wait),
        ),
        (state is Reloading || state is Handling) && !(event is ContextDone) ==> daemon_step(
            state,
            event,
        ) == (state, step_to(DaemonAction::Wait)),
        state is Draining && !(event is ServiceEnded) && !(event is NoServiceLeft) ==> daemon_step(
            state,
            event,
        ) == (state, step_to(DaemonAction::Wait)),
        state is Ended ==> daemon_step(state, event).0 == state,
        daemon_step(state, event).0 is Ended && !(state is Ended) ==> state is Draining && event
            is NoServiceLeft,
        state is Draining && event is ServiceEnded ==> daemon_step(state, event).1.action
            == DaemonAction::Join,
{
}

} // verus!
