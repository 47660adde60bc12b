//! Login modes and desktop sessions.
use crate::enums::{or_not_found, VariantNotFound};
use crate::systemd::{ActiveState, JobMode};
use crate::text::{
    concat, contains, ends_with, has_no, has_part, has_prefix, has_suffix, lemma_lines_cons,
    lemma_lines_empty, lines_of, same_text, starts_with, texts,
};
use vstd::prelude::*;

verus! {

/// What a login starts.
#[derive(Clone, Copy, Debug, PartialEq, Eq, Structural, Hash)]
pub enum LoginMode {
    Game,
    Desktop,
}

impl LoginMode {
    /// How the value is written.
    pub open spec fn spelling(self) -> Seq<char> {
        match self {
            LoginMode::Game => "game"@,
            LoginMode::Desktop => "desktop"@,
        }
    }

    /// The value that a text stands for.
    pub open spec fn spelled(s: Seq<char>) -> Option<LoginMode> {
        if s == "game"@ {
            Some(LoginMode::Game)
        } else if s == "desktop"@ {
            Some(LoginMode::Desktop)
        } else {
            None
        }
    }

    /// The text of the value.
    pub fn to_string(&self) -> (r: String)
        ensures
            r@ == self.spelling(),
    {
        match self {
            LoginMode::Game => "game".to_owned(),
            LoginMode::Desktop => "desktop".to_owned(),
        }
    }

    /// Reads a value.
    pub fn from_str(s: &str) -> (r: Result<LoginMode, VariantNotFound>)
        ensures
            r == or_not_found(LoginMode::spelled(s@)),
    {
        if same_text(s, "game") {
            Ok(LoginMode::Game)
        } else if same_text(s, "desktop") {
            Ok(LoginMode::Desktop)
        } else {
            Err(VariantNotFound)
        }
    }

    /// A value is read only from its own text.
    pub proof fn law_only_spelling_reads(self, s: Seq<char>)
        ensures
            LoginMode::spelled(s) == Some(self) ==> s == self.spelling(),
    {
    }

    /// What is written reads back as the same value.
    pub proof fn law_spelling_reads_back(self)
        ensures
            LoginMode::spelled(self.spelling()) == Some(self),
    {
        reveal_strlit("game");
        reveal_strlit("desktop");
        assert("game"@.len() == 4);
        assert("desktop"@.len() == 7);
    }
}

impl Default for LoginMode {
    fn default() -> (r: Self)
        ensures
            r == LoginMode::Game,
    {
        LoginMode::Game
    }
}

/// The file name of a desktop session.
#[derive(Debug, PartialEq, Eq)]
pub struct DesktopSession(pub String);

impl Default for DesktopSession {
    fn default() -> (r: DesktopSession)
        ensures
            r.0@ == "plasma.desktop"@,
    {
        DesktopSession("plasma.desktop".to_owned())
    }
}

// ---------------------------------------------------------------------------
// Which sessions there are
// ---------------------------------------------------------------------------

/// A visible desktop file that is not of the game mode.
pub open spec fn is_session_name(name: Seq<char>) -> bool {
    &&& !has_prefix(name, "."@)
    &&& has_suffix(name, ".desktop"@)
    &&& !has_part(name, "gamescope"@)
}

/// Whether a file name can be that of a desktop session.
pub fn is_valid_desktop_session_name(path: &str) -> (r: bool)
    ensures
        r == is_session_name(path@),
{
    if starts_with(path, ".") {
        return false;
    }
    if !ends_with(path, ".desktop") {
        return false;
    }
    if contains(path, "gamescope") {
        return false;
    }
    true
}

/// The sessions among some file names, in their order.
pub open spec fn sessions_in(names: Seq<Option<String>>) -> Seq<Seq<char>>
    decreases names.len(),
{
    if names.len() == 0 {
        Seq::empty()
    } else {
        let before = sessions_in(names.drop_last());
        match names.last() {
            Some(name) => if is_session_name(name@) {
                before.push(name@)
            } else {
                before
            },
            None => before,
        }
    }
}

/// The sessions among the entries of the session directories; an entry is `None`
/// if its name is no text.
pub fn valid_desktop_sessions(names: &Vec<Option<String>>) -> (r: Vec<String>)
    ensures
        texts(r@) == sessions_in(names@),
{
    let mut r: Vec<String> = Vec::new();
    assert(names@.take(0) =~= Seq::<Option<String>>::empty());
    assert(texts(r@) =~= Seq::<Seq<char>>::empty());
    for i in 0..names.len()
        invariant
            texts(r@) == sessions_in(names@.take(i as int)),
    {
        assert(names@.take(i + 1).drop_last() =~= names@.take(i as int));
        match &names[i] {
            Some(name) => {
                if is_valid_desktop_session_name(name.as_str()) {
                    let ghost before = r@;
                    r.push(name.clone());
                    assert(texts(r@) =~= texts(before).push(name@));
                }
            },
            None => {},
        }
    }
    assert(names@.take(names@.len() as int) =~= names@);
    r
}

/// Whether a session can be chosen: its name is one, and one of the session
/// directories has it; `found` tells of each directory whether it does.
pub fn is_valid_desktop_session(session: &str, found: &Vec<bool>) -> (r: bool)
    ensures
        r == (is_session_name(session@) && found@.contains(true)),
{
    if !is_valid_desktop_session_name(session) {
        return false;
    }
    for i in 0..found.len()
        invariant
            is_session_name(session@),
            forall|j: int| 0 <= j < i ==> !#[trigger] found@[j],
    {
        if found[i] {
            assert(found@[i as int]);
            return true;
        }
    }
    false
}

// ---------------------------------------------------------------------------
// The session manager
// ---------------------------------------------------------------------------

/// What is remembered of the user's choice.
#[derive(Debug, PartialEq, Eq)]
pub struct SessionManagerState {
    pub default_login_mode: LoginMode,
    pub desktop_session: Option<DesktopSession>,
}

impl Default for SessionManagerState {
    fn default() -> (r: SessionManagerState)
        ensures
            r.default_login_mode == LoginMode::Game,
            r.desktop_session is None,
    {
        SessionManagerState { default_login_mode: LoginMode::Game, desktop_session: None }
    }
}

pub open spec fn desktop_session_of(state: SessionManagerState) -> Seq<char> {
    match state.desktop_session {
        Some(session) => session.0@,
        None => "plasma.desktop"@,
    }
}

/// The session that a mode starts.
pub open spec fn session_of_mode(state: SessionManagerState, mode: LoginMode) -> Seq<char> {
    match mode {
        LoginMode::Game => "gamescope-wayland.desktop"@,
        LoginMode::Desktop => desktop_session_of(state),
    }
}

/// What the service manager answers about a unit.
#[derive(Clone, Copy, Debug, PartialEq, Eq, Structural)]
pub enum UnitReply {
    State(ActiveState),
    /// There is no such unit.
    UnknownObject,
    OtherError,
}

/// Whether a unit runs: `None` if the answer does not tell. A unit that does not
/// exist does not run.
pub open spec fn runs(reply: UnitReply) -> Option<bool> {
    match reply {
        UnitReply::State(state) => Some(
            state == ActiveState::Active || state == ActiveState::Activating || state
                == ActiveState::Reloading || state == ActiveState::Refreshing,
        ),
        UnitReply::UnknownObject => Some(false),
        UnitReply::OtherError => None,
    }
}

/// What is done to switch to a mode now: set the session of the next login, and
/// stop `graphical-session.target`.
#[derive(Debug, PartialEq, Eq)]
pub struct SwitchPlan {
    pub temporary_session: String,
    pub logout: JobMode,
}

/// What is done to change the defaults: the default session is set first, if it
/// has to be, then the state is written.
#[derive(Debug, PartialEq, Eq)]
pub struct DefaultsPlan {
    pub default_session: Option<String>,
    pub state: SessionManagerState,
}

/// The default session once a plan is carried out, if it was `before`.
pub open spec fn session_after(before: Seq<char>, plan: DefaultsPlan) -> Seq<char> {
    match plan.default_session {
        Some(session) => session@,
        None => before,
    }
}

/// Whether carrying out a plan keeps the default session that of the default
/// mode.
pub open spec fn keeps_session(state: SessionManagerState, plan: DefaultsPlan) -> bool {
    session_after(session_of_mode(state, state.default_login_mode), plan) == session_of_mode(
        plan.state,
        plan.state.default_login_mode,
    )
}

/// "Invalid desktop session ...".
#[derive(Clone, Copy, Debug, PartialEq, Eq, Structural)]
pub struct InvalidSession;

/// The manager of login modes and sessions.
#[derive(Debug)]
pub struct SessionManager {}

impl SessionManager {
    /// Whether a unit runs, from what the service manager answers.
    pub fn unit_is_active(&self, reply: UnitReply) -> (r: Option<bool>)
        ensures
            r == runs(reply),
    {
        match reply {
            UnitReply::State(state) => Some(state.is_active()),
            UnitReply::UnknownObject => Some(false),
            UnitReply::OtherError => None,
        }
    }

    /// The current mode, from what the service manager answers about
    /// `gamescope-session.service`.
    pub fn current_login_mode(&self, gamescope: UnitReply) -> (r: Option<LoginMode>)
        ensures
            r == match runs(gamescope) {
                Some(true) => Some(LoginMode::Game),
                Some(false) => Some(LoginMode::Desktop),
                None => None,
            },
    {
        match self.unit_is_active(gamescope) {
            Some(true) => Some(LoginMode::Game),
            Some(false) => Some(LoginMode::Desktop),
            None => None,
        }
    }

    /// The service, in the current mode.
    pub fn create_service(&self, gamescope: UnitReply) -> (r: Option<SessionManagerService>)
        ensures
            match runs(gamescope) {
                Some(true) => r matches Some(s) && s.current_mode == LoginMode::Game,
                Some(false) => r matches Some(s) && s.current_mode == LoginMode::Desktop,
                None => r is None,
            },
    {
        match self.current_login_mode(gamescope) {
            Some(current_mode) => Some(SessionManagerService { current_mode }),
            None => None,
        }
    }

    pub fn default_desktop_session(&self, state: &SessionManagerState) -> (r: String)
        ensures
            r@ == desktop_session_of(*state),
    {
        match &state.desktop_session {
            Some(session) => session.0.clone(),
            None => DesktopSession::default().0,
        }
    }

    pub fn default_login_mode(&self, state: &SessionManagerState) -> (r: LoginMode)
        ensures
            r == state.default_login_mode,
    {
        state.default_login_mode
    }

    /// The session that a mode starts.
    pub fn session_for_mode(&self, state: &SessionManagerState, mode: LoginMode) -> (r: String)
        ensures
            r@ == session_of_mode(*state, mode),
    {
        match mode {
            LoginMode::Game => "gamescope-wayland.desktop".to_owned(),
            LoginMode::Desktop => self.default_desktop_session(state),
        }
    }

    /// What is done to switch to a mode now.
    pub fn switch_to_login_mode(&self, state: &SessionManagerState, mode: LoginMode) -> (r:
        SwitchPlan)
        ensures
            r.temporary_session@ == session_of_mode(*state, mode),
            r.logout == JobMode::Fail,
    {
        SwitchPlan {
            temporary_session: self.session_for_mode(state, mode),
            logout: JobMode::Fail,
        }
    }

    /// Chooses the desktop session. It becomes the default session at once if
    /// the desktop is the default mode; `found` tells of each session directory
    /// whether it has the session.
    pub fn set_default_desktop_session(
        &self,
        state: SessionManagerState,
        session: &str,
        found: &Vec<bool>,
    ) -> (r: Result<DefaultsPlan, InvalidSession>)
        ensures
            if is_session_name(session@) && found@.contains(true) {
                &&& r matches Ok(plan)
                &&& plan.state.default_login_mode == state.default_login_mode
                &&& plan.state.desktop_session matches Some(s) && s.0@ == session@
                &&& if state.default_login_mode == LoginMode::Desktop {
                    plan.default_session matches Some(s) && s@ == session@
                } else {
                    plan.default_session is None
                }
                &&& keeps_session(state, plan)
            } else {
                r is Err
            },
    {
        if !is_valid_desktop_session(session, found) {
            return Err(InvalidSession);
        }
        let default_session: Option<String> = match state.default_login_mode {
            LoginMode::Desktop => Some(session.to_owned()),
            LoginMode::Game => None,
        };
        Ok(
            DefaultsPlan {
                default_session,
                state: SessionManagerState {
                    default_login_mode: state.default_login_mode,
                    desktop_session: Some(DesktopSession(session.to_owned())),
                },
            },
        )
    }

    /// Chooses the mode that a login starts, and sets its session.
    pub fn set_default_login_mode(&self, state: SessionManagerState, mode: LoginMode) -> (r:
        DefaultsPlan)
        ensures
            r.default_session matches Some(s) && s@ == session_of_mode(state, mode),
            r.state.default_login_mode == mode,
            r.state.desktop_session == state.desktop_session,
            keeps_session(state, r),
    {
        let session: String = self.session_for_mode(&state, mode);
        DefaultsPlan {
            default_session: Some(session),
            state: SessionManagerState {
                default_login_mode: mode,
                desktop_session: state.desktop_session,
            },
        }
    }
}

// ---------------------------------------------------------------------------
// The display manager's configuration
// ---------------------------------------------------------------------------

pub const CONFIG_PREFIX: &'static str = "/etc/sddm.conf.d";

pub const SESSION_CHECK_PATH: &'static str = "steamos.conf";

pub const CONFIG_PATH: &'static str = "zz-steamos-autologin.conf";

pub const TEMPORARY_CONFIG_PATH: &'static str = "zzt-steamos-temp-login.conf";

/// "Session name cannot contain newlines".
#[derive(Clone, Copy, Debug, PartialEq, Eq, Structural)]
pub struct NewlineInSession;

/// A file of the display manager.
#[derive(Debug, PartialEq, Eq)]
pub struct SessionFile {
    /// Its name in the configuration directory.
    pub name: String,
    pub contents: String,
}

/// The configuration that logs into a session.
pub open spec fn autologin(session: Seq<char>) -> Seq<char> {
    "[Autologin]\nSession="@ + session + "\n"@
}

proof fn lemma_newline_is_part(s: Seq<char>)
    ensures
        has_part(s, "\n"@) == !has_no(s, '\n'),
{
    reveal_strlit("\n");
    let p = "\n"@;
    if has_part(s, p) {
        let i = choose|i: int|
            0 <= i && i + p.len() <= s.len() && #[trigger] s.subrange(i, i + p.len()) == p;
        assert(s.subrange(i, i + p.len())[0] == s[i]);
        assert(s[i] == '\n');
    }
    if !has_no(s, '\n') {
        let i = choose|i: int| 0 <= i < s.len() && #[trigger] s[i] == '\n';
        assert(s.subrange(i, i + p.len()) =~= p);
    }
}

fn autologin_file(name: &str, session: &str) -> (r: Result<SessionFile, NewlineInSession>)
    ensures
        if has_no(session@, '\n') {
            r matches Ok(f) && f.name@ == name@ && f.contents@ == autologin(session@)
        } else {
            r is Err
        },
{
    proof {
        lemma_newline_is_part(session@);
    }
    if contains(session, "\n") {
        return Err(NewlineInSession);
    }
    let contents: String = concat(concat("[Autologin]\nSession=", session).as_str(), "\n");
    Ok(SessionFile { name: name.to_owned(), contents })
}

/// The file that makes the next login start a session.
pub fn set_temporary_session(session: &str) -> (r: Result<SessionFile, NewlineInSession>)
    ensures
        if has_no(session@, '\n') {
            r matches Ok(f) && f.name@ == TEMPORARY_CONFIG_PATH@ && f.contents@ == autologin(
                session@,
            )
        } else {
            r is Err
        },
{
    autologin_file(TEMPORARY_CONFIG_PATH, session)
}

/// The file that makes every login start a session.
pub fn set_default_session(session: &str) -> (r: Result<SessionFile, NewlineInSession>)
    ensures
        if has_no(session@, '\n') {
            r matches Ok(f) && f.name@ == CONFIG_PATH@ && f.contents@ == autologin(session@)
        } else {
            r is Err
        },
{
    autologin_file(CONFIG_PATH, session)
}

/// What came of removing a file.
#[derive(Clone, Copy, Debug, PartialEq, Eq, Structural)]
pub enum RemoveOutcome {
    Removed,
    NotFound,
    OtherError,
}

/// Whether the temporary file is gone after it was removed: that it was not
/// there is no error.
pub fn clean_temporary_sessions(outcome: RemoveOutcome) -> (r: bool)
    ensures
        r == (outcome != RemoveOutcome::OtherError),
{
    match outcome {
        RemoveOutcome::Removed => true,
        RemoveOutcome::NotFound => true,
        RemoveOutcome::OtherError => false,
    }
}

/// The configuration of a session is a section and one setting, the session,
/// and nothing that a session's name holds adds to it.
pub proof fn law_autologin_lines(session: Seq<char>)
    requires
        has_no(session, '\n'),
        session.len() > 0 ==> session.last() != '\r',
    ensures
        lines_of(autologin(session)) == seq!["[Autologin]"@, "Session="@ + session],
{
    reveal_strlit("[Autologin]\nSession=");
    reveal_strlit("[Autologin]");
    reveal_strlit("Session=");
    reveal_strlit("\n");
    let first = "[Autologin]"@;
    let second = "Session="@ + session;
    let none = Seq::<char>::empty();
    assert(autologin(session) =~= first.push('\n') + (second.push('\n') + none));
    assert forall|i: int| 0 <= i < second.len() implies #[trigger] second[i] != '\n' by {
        if i >= 8 {
            assert(second[i] == session[i - 8]);
        }
    }
    assert(second.last() != '\r') by {
        if session.len() > 0 {
            assert(second.last() == session.last());
        } else {
            assert(second =~= "Session="@);
        }
    }
    lemma_lines_cons(first, second.push('\n') + none);
    lemma_lines_cons(second, none);
    lemma_lines_empty();
    assert(lines_of(autologin(session)) =~= seq![first, second]);
}

/// Setting the default mode and choosing a desktop session go together: in the
/// desktop mode the session that a login starts is always the chosen one.
pub proof fn law_default_session_is_chosen(state: SessionManagerState, session: DesktopSession)
    ensures
        session_of_mode(
            SessionManagerState { desktop_session: Some(session), ..state },
            LoginMode::Desktop,
        ) == session.0@,
        session_of_mode(state, LoginMode::Game) == "gamescope-wayland.desktop"@,
{
}

// ---------------------------------------------------------------------------
// The service
// ---------------------------------------------------------------------------

/// What the service tells its listeners.
#[derive(Clone, Copy, Debug, PartialEq, Eq, Structural)]
pub enum SessionManagerMessage {
    LoginModeChanged(LoginMode),
}

/// What the service hears of `gamescope-session.service`.
#[derive(Clone, Copy, Debug, PartialEq, Eq, Structural)]
pub enum SessionEvent {
    /// The service starts; the state of the unit, if it could be read.
    Started(Option<ActiveState>),
    /// The state changed, to this if it is one that is known.
    Changed(Option<ActiveState>),
    /// There are no more changes to hear of.
    Ended,
}

/// What the service does then.
#[derive(Clone, Copy, Debug, PartialEq, Eq, Structural)]
pub enum SessionReaction {
    Send(SessionManagerMessage),
    Wait,
    Finish,
}

/// The mode that a state of the unit stands for, if it stands for one.
pub open spec fn mode_of(state: ActiveState) -> Option<LoginMode> {
    match state {
        ActiveState::Active => Some(LoginMode::Game),
        ActiveState::Inactive => Some(LoginMode::Desktop),
        ActiveState::Deactivating => Some(LoginMode::Desktop),
        ActiveState::Failed => Some(LoginMode::Desktop),
        _ => None,
    }
}

/// The mode after an event, and what is done.
pub open spec fn session_step(mode: LoginMode, event: SessionEvent) -> (
    LoginMode,
    SessionReaction,
) {
    match event {
        SessionEvent::Started(state) => {
            let now = if state == Some(ActiveState::Active) {
                LoginMode::Game
            } else {
                LoginMode::Desktop
            };
            (now, SessionReaction::Send(SessionManagerMessage::LoginModeChanged(now)))
        },
        SessionEvent::Changed(None) => (mode, SessionReaction::Wait),
        SessionEvent::Changed(Some(state)) => match mode_of(state) {
            Some(now) => if now == mode {
                (mode, SessionReaction::Wait)
            } else {
                (now, SessionReaction::Send(SessionManagerMessage::LoginModeChanged(now)))
            },
            None => (mode, SessionReaction::Wait),
        },
        SessionEvent::Ended => (mode, SessionReaction::Finish),
    }
}

/// The service that tells of changes of the login mode.
#[derive(Debug)]
pub struct SessionManagerService {
    pub current_mode: LoginMode,
}

impl SessionManagerService {
    fn change_to(&mut self, mode: LoginMode) -> (r: SessionReaction)
        ensures
            final(self).current_mode == mode,
            r == (if old(self).current_mode == mode {
                SessionReaction::Wait
            } else {
                SessionReaction::Send(SessionManagerMessage::LoginModeChanged(mode))
            }),
    {
        if self.current_mode == mode {
            return SessionReaction::Wait;
        }
        self.current_mode = mode;
        SessionReaction::Send(SessionManagerMessage::LoginModeChanged(mode))
    }

    /// What the service does on an event.
    pub fn run(&mut self, event: SessionEvent) -> (r: SessionReaction)
        ensures
            (final(self).current_mode, r) == session_step(old(self).current_mode, event),
    {
        match event {
            SessionEvent::Started(state) => {
                self.current_mode = match state {
                    Some(ActiveState::Active) => LoginMode::Game,
                    _ => LoginMode::Desktop,
                };
                SessionReaction::Send(SessionManagerMessage::LoginModeChanged(self.current_mode))
            },
            SessionEvent::Changed(None) => SessionReaction::Wait,
            SessionEvent::Changed(Some(state)) => match state {
                ActiveState::Active => self.change_to(LoginMode::Game),
                ActiveState::Inactive => self.change_to(LoginMode::Desktop),
                ActiveState::Deactivating => self.change_to(LoginMode::Desktop),
                ActiveState::Failed => self.change_to(LoginMode::Desktop),
                _ => SessionReaction::Wait,
            },
            SessionEvent::Ended => SessionReaction::Finish,
        }
    }
}

/// Once the service has started, listeners that remember the last message know
/// the mode: a message is sent exactly when the mode changes, and tells it.
pub proof fn law_messages_tell_mode(mode: LoginMode, event: SessionEvent)
    requires
        !(event is Started),
    ensures
        (session_step(mode, event).0 != mode) <==> (session_step(mode, event).1 is Send),
        session_step(mode, event).1 matches SessionReaction::Send(
            SessionManagerMessage::LoginModeChanged(told),
        ) ==> told == session_step(mode, event).0,
{
}

/// When the service starts, the mode that it keeps and tells is the game mode
/// exactly if the unit of that mode is active.
pub proof fn law_start_tells_mode(mode: LoginMode, state: Option<ActiveState>)
    ensures
        session_step(mode, SessionEvent::Started(state)).0 == LoginMode::Game <==> state == Some(
            ActiveState::Active,
        ),
        session_step(mode, SessionEvent::Started(state)).1 == SessionReaction::Send(
            SessionManagerMessage::LoginModeChanged(
                session_step(mode, SessionEvent::Started(state)).0,
            ),
        ),
{
}

/// A change of the unit's state moves to the game mode if the unit is active, to
/// the desktop if it is inactive, stopping or failed, and else changes nothing.
/// Nothing is told of a mode that is not new.
pub proof fn law_changes_follow_unit(mode: LoginMode, state: ActiveState)
    ensures
        ({
            let (now, reaction) = session_step(mode, SessionEvent::Changed(Some(state)));
            &&& state == ActiveState::Active ==> now == LoginMode::Game
            &&& state == ActiveState::Inactive || state == ActiveState::Deactivating || state
                == ActiveState::Failed ==> now == LoginMode::Desktop
            &&& state != ActiveState::Active && state != ActiveState::Inactive && state
                != ActiveState::Deactivating && state != ActiveState::Failed ==> now == mode
            &&& reaction == SessionReaction::Wait <==> now == mode
            &&& now != mode ==> reaction == SessionReaction::Send(
                SessionManagerMessage::LoginModeChanged(now),
            )
        }),
        session_step(mode, SessionEvent::Changed(None)) == (mode, SessionReaction::Wait),
        session_step(mode, SessionEvent::Ended) == (mode, SessionReaction::Finish),
{
}

/// A unit that is known runs if it is active or on its way to it or reloading,
/// and does not if it is inactive, stopping or failed; one that does not exist
/// does not run.
pub proof fn law_unit_runs(state: ActiveState)
    ensures
        runs(UnitReply::State(ActiveState::Active)) == Some(true),
        runs(UnitReply::State(state)) == Some(true) <==> state == ActiveState::Active || state
            == ActiveState::Activating || state == ActiveState::Reloading || state
            == ActiveState::Refreshing,
        state == ActiveState::Inactive || state == ActiveState::Failed || state
            == ActiveState::Deactivating ==> runs(UnitReply::State(state)) == Some(false),
        runs(UnitReply::State(state)) is Some,
        runs(UnitReply::UnknownObject) == Some(false),
        runs(UnitReply::OtherError) is None,
{
}

/// The session of the game mode does not depend on what was chosen, that of the
/// desktop is the chosen one, and Plasma if none was.
pub proof fn law_session_of_mode(state: SessionManagerState)
    ensures
        session_of_mode(state, LoginMode::Game) == "gamescope-wayland.desktop"@,
        state.desktop_session matches Some(s) ==> session_of_mode(state, LoginMode::Desktop)
            == s.0@,
        state.desktop_session is None ==> session_of_mode(state, LoginMode::Desktop)
            == "plasma.desktop"@,
{
}

/// No session of the game mode, no hidden file and nothing but desktop files can
/// be chosen.
pub proof fn law_session_names(name: Seq<char>)
    ensures
        name.len() > 0 && name[0] == '.' ==> !is_session_name(name),
        is_session_name(name) ==> name.len() >= 8 && name.skip(name.len() - 8) == ".desktop"@,
        forall|i: int|
            0 <= i && i + 9 <= name.len() && #[trigger] name.subrange(i, i + 9) == "gamescope"@
                ==> !is_session_name(name),
        !is_session_name("gamescope-wayland.desktop"@),
        is_session_name(name) <==> !(name.len() > 0 && name[0] == '.') && name.len() >= 8
            && name.skip(name.len() - 8) == ".desktop"@ && !has_part(name, "gamescope"@),
{
    reveal_strlit(".");
    reveal_strlit(".desktop");
    reveal_strlit("gamescope");
    reveal_strlit("gamescope-wayland.desktop");
    if name.len() > 0 && name[0] == '.' {
        assert(name.take(1) =~= "."@);
    }
    if has_prefix(name, "."@) {
        assert(name.take(1)[0] == '.');
    }
    let game = "gamescope-wayland.desktop"@;
    assert(game.subrange(0, 0 + "gamescope"@.len() as int) =~= "gamescope"@);
}

/// The sessions that are offered are the names that can be chosen, each as often
/// as it was found, in the order in which they were found.
pub proof fn law_sessions_are_valid_names(names: Seq<Option<String>>, more: Seq<Option<String>>)
    ensures
        sessions_in(names + more) == sessions_in(names) + sessions_in(more),
        forall|i: int|
            0 <= i < sessions_in(names).len() ==> is_session_name(#[trigger] sessions_in(names)[i]),
        names.len() == 1 ==> sessions_in(names) == (match names[0] {
            Some(name) => if is_session_name(name@) {
                seq![name@]
            } else {
                Seq::empty()
            },
            None => Seq::empty(),
        }),
    decreases more.len() + names.len(),
{
    if more.len() > 0 {
        law_sessions_are_valid_names(names, more.drop_last());
        assert((names + more).drop_last() =~= names + more.drop_last());
        assert(sessions_in(names + more) =~= sessions_in(names) + sessions_in(more));
    } else {
        assert(names + more =~= names);
        assert(sessions_in(names + more) =~= sessions_in(names) + sessions_in(more));
        if names.len() > 0 {
            law_sessions_are_valid_names(names.drop_last(), more);
        }
    }
    if names.len() == 1 {
        assert(names.drop_last().len() == 0);
        assert(sessions_in(names) =~= (match names[0] {
            Some(name) => if is_session_name(name@) {
                seq![name@]
            } else {
                Seq::empty()
            },
            None => Seq::empty(),
        }));
    }
}

} // verus!
