//! Download mode: while downloads hold handles, the power limit is lowered and
//! the fan runs at a fixed speed; when the last handle is closed, both are put
//! back.
use crate::hardware::{FanControlState, FanSpeedConfig, TdpLimitConfig};
use crate::power::tdp::{manager_for, tdp_limit_manager, TdpError, TdpLimitManager};
use crate::text::same_text;
use vstd::prelude::*;

verus! {

// ---------------------------------------------------------------------------
// Handles
// ---------------------------------------------------------------------------

/// How many handles each identifier holds.
#[derive(Debug)]
pub struct Handles {
    entries: Vec<(String, u32)>,
}

pub open spec fn key_at(s: Seq<(String, u32)>, i: int, k: Seq<char>) -> bool {
    0 <= i < s.len() && s[i].0@ == k
}

pub open spec fn counts(s: Seq<(String, u32)>) -> Map<Seq<char>, u32> {
    Map::new(
        |k: Seq<char>| exists|i: int| key_at(s, i, k),
        |k: Seq<char>| s[choose|i: int| key_at(s, i, k)].1,
    )
}

/// No identifier stands twice.
pub open spec fn distinct_ids(s: Seq<(String, u32)>) -> bool {
    forall|a: int, b: int|
        0 <= a < b < s.len() ==> (#[trigger] s[a]).0@ != (#[trigger] s[b]).0@
}

impl View for Handles {
    type V = Map<Seq<char>, u32>;

    closed spec fn view(&self) -> Map<Seq<char>, u32> {
        counts(self.entries@)
    }
}

/// The counts after one more handle for `k`.
pub open spec fn opened(m: Map<Seq<char>, u32>, k: Seq<char>) -> Map<Seq<char>, u32> {
    m.insert(k, if m.contains_key(k) { (m[k] + 1) as u32 } else { 1 })
}

/// The counts after one handle less for `k`.
pub open spec fn closed(m: Map<Seq<char>, u32>, k: Seq<char>) -> Map<Seq<char>, u32> {
    if !m.contains_key(k) {
        m
    } else if m[k] == 1 {
        m.remove(k)
    } else {
        m.insert(k, (m[k] - 1) as u32)
    }
}

proof fn lemma_counts(s: Seq<(String, u32)>, i: int)
    requires
        0 <= i < s.len(),
        distinct_ids(s),
    ensures
        counts(s).contains_key(s[i].0@),
        counts(s)[s[i].0@] == s[i].1,
{
    let k = s[i].0@;
    assert(key_at(s, i, k));
    let j = choose|j: int| key_at(s, j, k);
    assert(key_at(s, j, k));
    if i < j {
        assert(s[i].0@ != s[j].0@);
    }
    if j < i {
        assert(s[j].0@ != s[i].0@);
    }
}

impl Handles {
    /// No identifier stands twice, and each that stands holds a handle.
    pub closed spec fn wf(self) -> bool {
        &&& distinct_ids(self.entries@)
        &&& forall|a: int| 0 <= a < self.entries@.len() ==> (#[trigger] self.entries@[a]).1 >= 1
    }

    /// Each identifier that stands in the table holds at least one handle.
    pub proof fn lemma_positive(self, k: Seq<char>)
        requires
            self.wf(),
            self@.contains_key(k),
        ensures
            self@[k] >= 1,
    {
        let i = choose|i: int| key_at(self.entries@, i, k);
        lemma_counts(self.entries@, i);
    }

    pub fn new() -> (r: Handles)
        ensures
            r.wf(),
            r@ == Map::<Seq<char>, u32>::empty(),
    {
        let r = Handles { entries: Vec::new() };
        assert(r@ =~= Map::<Seq<char>, u32>::empty());
        r
    }

    pub fn is_empty(&self) -> (r: bool)
        requires
            self.wf(),
        ensures
            r == (self@ == Map::<Seq<char>, u32>::empty()),
    {
        if self.entries.len() == 0 {
            assert(self@ =~= Map::<Seq<char>, u32>::empty());
            true
        } else {
            proof {
                lemma_counts(self.entries@, 0);
            }
            false
        }
    }

    fn find(&self, id: &str) -> (r: Option<usize>)
        requires
            self.wf(),
        ensures
            match r {
                Some(i) => key_at(self.entries@, i as int, id@),
                None => !self@.contains_key(id@) && forall|j: int|
                    0 <= j < self.entries@.len() ==> (#[trigger] self.entries@[j]).0@ != id@,
            },
    {
        for i in 0..self.entries.len()
            invariant
                forall|j: int| 0 <= j < i ==> (#[trigger] self.entries@[j]).0@ != id@,
        {
            if same_text(self.entries[i].0.as_str(), id) {
                return Some(i);
            }
        }
        None
    }

    /// The number of handles of `id`, if it holds any.
    pub fn count(&self, id: &str) -> (r: Option<u32>)
        requires
            self.wf(),
        ensures
            r == (if self@.contains_key(id@) { Some(self@[id@]) } else { None }),
    {
        match self.find(id) {
            Some(i) => {
                proof {
                    lemma_counts(self.entries@, i as int);
                }
                Some(self.entries[i].1)
            },
            None => None,
        }
    }

    /// Counts one more handle for `id`.
    pub fn open(&mut self, id: &str)
        requires
            old(self).wf(),
            old(self)@.contains_key(id@) ==> old(self)@[id@] < u32::MAX,
        ensures
            final(self).wf(),
            final(self)@ == opened(old(self)@, id@),
    {
        let ghost before = self.entries@;
        match self.find(id) {
            Some(i) => {
                proof {
                    lemma_counts(before, i as int);
                }
                let key: String = self.entries[i].0.clone();
                let n: u32 = self.entries[i].1;
                self.entries.set(i, (key, n + 1));
                let ghost after = self.entries@;
                assert(after =~= before.update(i as int, (key, (n + 1) as u32)));
                assert forall|k: Seq<char>| #[trigger] counts(after).contains_key(k)
                    == counts(before).contains_key(k) by {
                    if counts(before).contains_key(k) {
                        let j = choose|j: int| key_at(before, j, k);
                        assert(key_at(after, j, k));
                    }
                    if counts(after).contains_key(k) {
                        let j = choose|j: int| key_at(after, j, k);
                        assert(key_at(before, j, k));
                    }
                }
                assert forall|k: Seq<char>|
                    counts(before).contains_key(k) && k != id@ implies #[trigger] counts(after)[k]
                    == counts(before)[k] by {
                    let j = choose|j: int| key_at(before, j, k);
                    lemma_counts(before, j);
                    lemma_counts(after, j);
                }
                proof {
                    lemma_counts(after, i as int);
                }
                assert(self@ =~= opened(old(self)@, id@));
            },
            None => {
                self.entries.push((id.to_owned(), 1));
                let ghost after = self.entries@;
                let ghost n = before.len() as int;
                assert forall|k: Seq<char>| #[trigger] counts(after).contains_key(k) == (k == id@
                    || counts(before).contains_key(k)) by {
                    if counts(before).contains_key(k) {
                        let j = choose|j: int| key_at(before, j, k);
                        assert(key_at(after, j, k));
                    }
                    if k == id@ {
                        assert(key_at(after, n, k));
                    }
                    if counts(after).contains_key(k) && k != id@ {
                        let j = choose|j: int| key_at(after, j, k);
                        assert(key_at(before, j, k));
                    }
                }
                assert forall|k: Seq<char>|
                    counts(before).contains_key(k) implies #[trigger] counts(after)[k] == counts(
                    before,
                )[k] by {
                    let j = choose|j: int| key_at(before, j, k);
                    lemma_counts(before, j);
                    lemma_counts(after, j);
                    assert(after[j] == before[j]);
                }
                proof {
                    lemma_counts(after, n);
                }
                assert(self@ =~= opened(old(self)@, id@));
            },
        }
    }

    /// Counts one handle less for `id`; tells whether it was its last one.
    pub fn close(&mut self, id: &str) -> (last: bool)
        requires
            old(self).wf(),
        ensures
            final(self).wf(),
            final(self)@ == closed(old(self)@, id@),
            last == (old(self)@.contains_key(id@) && old(self)@[id@] == 1),
    {
        let ghost before = self.entries@;
        match self.find(id) {
            Some(i) => {
                proof {
                    lemma_counts(before, i as int);
                }
                let n: u32 = self.entries[i].1;
                if n == 1 {
                    self.entries.remove(i);
                    let ghost after = self.entries@;
                    assert(after =~= before.remove(i as int));
                    assert forall|k: Seq<char>|
                        #[trigger] counts(after).contains_key(k) == (k != id@ && counts(
                        before,
                    ).contains_key(k)) by {
                        if counts(before).contains_key(k) && k != id@ {
                            let j = choose|j: int| key_at(before, j, k);
                            let j2 = if j < i { j } else { j - 1 };
                            assert(after[j2] == before[j]);
                            assert(key_at(after, j2, k));
                        }
                        if counts(after).contains_key(k) {
                            let j = choose|j: int| key_at(after, j, k);
                            let j2 = if j < i { j } else { j + 1 };
                            assert(after[j] == before[j2]);
                            assert(key_at(before, j2, k));
                            if j2 < i {
                                assert(before[j2].0@ != before[i as int].0@);
                            } else {
                                assert(before[i as int].0@ != before[j2].0@);
                            }
                        }
                    }
                    assert forall|a: int, b: int|
                        0 <= a < b < after.len() implies (#[trigger] after[a]).0@ != (
                    #[trigger] after[b]).0@ by {
                        let a2 = if a < i { a } else { a + 1 };
                        let b2 = if b < i { b } else { b + 1 };
                        assert(before[a2].0@ != before[b2].0@);
                    }
                    assert forall|a: int|
                        0 <= a < after.len() implies (#[trigger] after[a]).1 >= 1 by {
                        let a2 = if a < i { a } else { a + 1 };
                        assert(before[a2].1 >= 1);
                    }
                    assert forall|k: Seq<char>|
                        counts(after).contains_key(k) implies #[trigger] counts(after)[k] == counts(
                        before,
                    )[k] by {
                        let j = choose|j: int| key_at(after, j, k);
                        let j2 = if j < i { j } else { j + 1 };
                        assert(after[j] == before[j2]);
                        lemma_counts(after, j);
                        lemma_counts(before, j2);
                    }
                    assert(self@ =~= closed(old(self)@, id@));
                    true
                } else {
                    let key: String = self.entries[i].0.clone();
                    self.entries.set(i, (key, n - 1));
                    let ghost after = self.entries@;
                    assert(after =~= before.update(i as int, (key, (n - 1) as u32)));
                    assert forall|k: Seq<char>| #[trigger] counts(after).contains_key(k)
                        == counts(before).contains_key(k) by {
                        if counts(before).contains_key(k) {
                            let j = choose|j: int| key_at(before, j, k);
                            assert(key_at(after, j, k));
                        }
                        if counts(after).contains_key(k) {
                            let j = choose|j: int| key_at(after, j, k);
                            assert(key_at(before, j, k));
                        }
                    }
                    assert forall|k: Seq<char>|
                        counts(before).contains_key(k) && k != id@ implies #[trigger] counts(
                        after,
                    )[k] == counts(before)[k] by {
                        let j = choose|j: int| key_at(before, j, k);
                        lemma_counts(before, j);
                        lemma_counts(after, j);
                    }
                    proof {
                        lemma_counts(after, i as int);
                    }
                    assert(self@ =~= closed(old(self)@, id@));
                    false
                }
            },
            None => {
                assert(self@ =~= closed(old(self)@, id@));
                false
            },
        }
    }

    /// The identifiers with their counts.
    pub fn list(&self) -> (r: Vec<(String, u32)>)
        requires
            self.wf(),
        ensures
            counts(r@) == self@,
            distinct_ids(r@),
    {
        let mut r: Vec<(String, u32)> = Vec::new();
        for i in 0..self.entries.len()
            invariant
                r@ == self.entries@.take(i as int),
        {
            r.push((self.entries[i].0.clone(), self.entries[i].1));
        }
        assert(r@ =~= self.entries@);
        r
    }
}

/// Closing a handle that was just opened leaves the handles as they were.
pub proof fn law_close_undoes_open(m: Map<Seq<char>, u32>, k: Seq<char>)
    requires
        m.contains_key(k) ==> 1 <= m[k] < u32::MAX,
    ensures
        closed(opened(m, k), k) == m,
{
    assert(closed(opened(m, k), k) =~= m);
}

/// What happens to a handle of an identifier.
pub enum HandleEvent {
    Opened(Seq<char>),
    Closed(Seq<char>),
}

/// The counts after some openings and closings, from none.
pub open spec fn counts_after(events: Seq<HandleEvent>) -> Map<Seq<char>, u32>
    decreases events.len(),
{
    if events.len() == 0 {
        Map::empty()
    } else {
        let before = counts_after(events.drop_last());
        match events.last() {
            HandleEvent::Opened(k) => opened(before, k),
            HandleEvent::Closed(k) => closed(before, k),
        }
    }
}

/// How many handles of `k` are open after some openings and closings; where none
/// is open, none can be closed.
pub open spec fn open_handles(events: Seq<HandleEvent>, k: Seq<char>) -> int
    decreases events.len(),
{
    if events.len() == 0 {
        0
    } else {
        let before = open_handles(events.drop_last(), k);
        match events.last() {
            HandleEvent::Opened(id) => if id == k {
                before + 1
            } else {
                before
            },
            HandleEvent::Closed(id) => if id == k && before > 0 {
                before - 1
            } else {
                before
            },
        }
    }
}

/// After any row of openings and closings each identifier with open handles is
/// counted with their number, and no other identifier is counted.
pub proof fn law_counts_are_open_handles(events: Seq<HandleEvent>, k: Seq<char>)
    requires
        events.len() <= u32::MAX,
    ensures
        0 <= open_handles(events, k) <= events.len(),
        counts_after(events).contains_key(k) <==> open_handles(events, k) > 0,
        counts_after(events).contains_key(k) ==> counts_after(events)[k] == open_handles(events, k),
    decreases events.len(),
{
    if events.len() > 0 {
        law_counts_are_open_handles(events.drop_last(), k);
    }
}

// ---------------------------------------------------------------------------
// Updating the device
// ---------------------------------------------------------------------------

/// What an update of the download mode depends on and keeps.
pub struct DownloadMode {
    /// The limit while downloads hold handles, if there is a download mode.
    pub limit: Option<u32>,
    /// The fan speed meanwhile, if one is set.
    pub fan_speed: Option<u32>,
    /// The limit to put back, while the mode is entered.
    pub previous: Option<u32>,
    /// Whether the fan control service has to be started again.
    pub restart_fan: bool,
    /// Whether any download holds a handle.
    pub held: bool,
    /// Whether setting the limit takes the root manager.
    pub root: bool,
}

/// Where an update stands: what it waits for.
#[derive(Clone, Copy, Debug, PartialEq, Eq, Structural)]
pub enum UpdateStep {
    AskActive,
    AskLimit,
    RestoreLimit,
    RestartFan,
    LowerLimit,
    AskFanState,
    StopFan,
    SetFanSpeed,
}

/// What an update asks of the device.
#[derive(Clone, Copy, Debug, PartialEq, Eq, Structural)]
pub enum UpdateRequest {
    IsActive,
    GetTdpLimit,
    SetTdpLimit { limit: u32, root: bool },
    GetFanControlState,
    SetFanControlState(FanControlState),
    SetFanSpeed(u32),
}

/// What the device answers.
#[derive(Clone, Copy, Debug, PartialEq, Eq, Structural)]
pub enum UpdateReply {
    Active(bool),
    Limit(u32),
    FanState(u32),
    Done,
    Failed,
}

/// How an update goes on.
#[derive(Clone, Copy, Debug, PartialEq, Eq, Structural)]
pub enum UpdateProgress {
    Ask(UpdateStep, UpdateRequest),
    Finished { success: bool },
}

pub open spec fn finished(success: bool) -> UpdateProgress {
    UpdateProgress::Finished { success }
}

/// On leaving: start the fan control service again if it was stopped.
pub open spec fn restart_fan_if_stopped(m: DownloadMode) -> UpdateProgress {
    if m.restart_fan {
        UpdateProgress::Ask(
            UpdateStep::RestartFan,
            UpdateRequest::SetFanControlState(FanControlState::Os),
        )
    } else {
        finished(true)
    }
}

/// On entering: look at the fan if a speed is set for it.
pub open spec fn look_at_fan(m: DownloadMode) -> UpdateProgress {
    if m.fan_speed is Some {
        UpdateProgress::Ask(UpdateStep::AskFanState, UpdateRequest::GetFanControlState)
    } else {
        finished(true)
    }
}

/// On entering: run the fan at its speed.
pub open spec fn run_fan(m: DownloadMode) -> UpdateProgress {
    match m.fan_speed {
        Some(rpm) => UpdateProgress::Ask(UpdateStep::SetFanSpeed, UpdateRequest::SetFanSpeed(rpm)),
        None => finished(true),
    }
}

/// An update once the current limit is known: a limit of 0 says that limiting
/// does not work now, and nothing is done.
pub open spec fn after_limit(m: DownloadMode, current: u32) -> (DownloadMode, UpdateProgress) {
    if current == 0 || m.limit is None {
        (m, finished(true))
    } else if !m.held {
        match m.previous {
            Some(previous) => (
                m,
                UpdateProgress::Ask(
                    UpdateStep::RestoreLimit,
                    UpdateRequest::SetTdpLimit { limit: previous, root: m.root },
                ),
            ),
            None => (m, restart_fan_if_stopped(m)),
        }
    } else {
        let entered = if m.previous is None {
            DownloadMode { previous: Some(current), ..m }
        } else {
            m
        };
        if m.limit != Some(current) {
            (
                entered,
                UpdateProgress::Ask(
                    UpdateStep::LowerLimit,
                    UpdateRequest::SetTdpLimit { limit: m.limit->0, root: m.root },
                ),
            )
        } else {
            (entered, look_at_fan(entered))
        }
    }
}

/// One step of an update. An answer that does not belong to the step counts as
/// a failure.
pub open spec fn update_step(m: DownloadMode, step: UpdateStep, reply: UpdateReply) -> (
    DownloadMode,
    UpdateProgress,
) {
    match (step, reply) {
        (UpdateStep::AskActive, UpdateReply::Active(active)) => if active && m.limit is Some {
            (m, UpdateProgress::Ask(UpdateStep::AskLimit, UpdateRequest::GetTdpLimit))
        } else {
            (m, finished(true))
        },
        (UpdateStep::AskLimit, UpdateReply::Limit(current)) => after_limit(m, current),
        (UpdateStep::RestoreLimit, UpdateReply::Done) => {
            let left = DownloadMode { previous: None, ..m };
            (left, restart_fan_if_stopped(left))
        },
        (UpdateStep::RestartFan, UpdateReply::Done | UpdateReply::Failed) => (
            DownloadMode { restart_fan: false, ..m },
            finished(true),
        ),
        (UpdateStep::LowerLimit, UpdateReply::Done) => (m, look_at_fan(m)),
        (UpdateStep::AskFanState, UpdateReply::FanState(state)) => if state
            == FanControlState::Os.number() {
            (
                m,
                UpdateProgress::Ask(
                    UpdateStep::StopFan,
                    UpdateRequest::SetFanControlState(FanControlState::Bios),
                ),
            )
        } else {
            (m, run_fan(m))
        },
        (UpdateStep::StopFan, UpdateReply::Done) => {
            let stopped = DownloadMode { restart_fan: true, ..m };
            (stopped, run_fan(stopped))
        },
        (UpdateStep::SetFanSpeed, UpdateReply::Done) => (m, finished(true)),
        _ => (m, finished(false)),
    }
}

// ---------------------------------------------------------------------------
// The service
// ---------------------------------------------------------------------------

/// What the service is told to do.
#[derive(Debug, PartialEq, Eq)]
pub enum TdpManagerCommand {
    SetTdpLimit(u32),
    GetTdpLimit,
    GetTdpLimitRange,
    IsActive,
    UpdateDownloadMode,
    EnterDownloadMode(String),
    ListDownloadModeHandles,
    SetProxy { present: bool },
}

/// What the service waits for.
#[derive(Debug, PartialEq, Eq)]
pub enum ServiceInput {
    /// The channel of commands gave one.
    Command(TdpManagerCommand),
    /// The channel of commands is closed.
    ChannelClosed,
    /// The holder of a handle closed it.
    HandleClosed(String),
    /// A handle was lost with its identifier.
    HandleLost,
    /// There was no handle to wait for.
    NoHandle,
}

/// What the service does then.
#[derive(Debug, PartialEq, Eq)]
pub enum ServiceAction {
    /// Wait for the next input.
    Wait,
    /// Set the limit, through the root manager or not, and announce the change.
    SetTdpLimit { limit: u32, root: bool },
    ReplyTdpLimit,
    ReplyTdpLimitRange,
    ReplyIsActive,
    /// Run an update, and log its failure.
    Update,
    /// Make a handle; if that succeeds, count it, wait on it and run an update;
    /// answer with the handle if both succeed.
    OpenHandle(String),
    /// Answer that there is no download mode.
    ReplyNoDownloadMode,
    ReplyHandles,
    SetProxy { present: bool },
    /// End with the error that the channel broke.
    Stop,
}

/// The manager of power limits and of the download mode.
#[derive(Debug)]
pub struct TdpManagerService {
    handles: Handles,
    download_mode_limit: Option<u32>,
    download_mode_fan_speed: Option<u32>,
    previous_limit: Option<u32>,
    restart_fan_control_service: bool,
    manager: TdpLimitManager,
}

pub open spec fn not_zero(n: Option<u32>) -> bool {
    n matches Some(v) ==> v != 0
}

/// What the service does with a command.
pub open spec fn action_for(command: TdpManagerCommand, m: DownloadMode) -> ServiceAction {
    match command {
        TdpManagerCommand::SetTdpLimit(limit) => if m.held {
            ServiceAction::Wait
        } else {
            ServiceAction::SetTdpLimit { limit, root: m.root }
        },
        TdpManagerCommand::GetTdpLimit => ServiceAction::ReplyTdpLimit,
        TdpManagerCommand::GetTdpLimitRange => ServiceAction::ReplyTdpLimitRange,
        TdpManagerCommand::IsActive => ServiceAction::ReplyIsActive,
        TdpManagerCommand::UpdateDownloadMode => ServiceAction::Update,
        TdpManagerCommand::EnterDownloadMode(id) => if m.limit is Some {
            ServiceAction::OpenHandle(id)
        } else {
            ServiceAction::ReplyNoDownloadMode
        },
        TdpManagerCommand::ListDownloadModeHandles => ServiceAction::ReplyHandles,
        TdpManagerCommand::SetProxy { present } => ServiceAction::SetProxy { present },
    }
}

impl TdpManagerService {
    /// The handles are well formed and no limit or speed is 0.
    pub closed spec fn wf(self) -> bool {
        &&& self.handles.wf()
        &&& not_zero(self.download_mode_limit)
        &&& not_zero(self.download_mode_fan_speed)
        &&& not_zero(self.previous_limit)
    }

    /// How many handles each identifier holds.
    pub closed spec fn held(self) -> Map<Seq<char>, u32> {
        self.handles@
    }

    pub closed spec fn limits(self) -> TdpLimitManager {
        self.manager
    }

    /// The download mode of the service.
    pub closed spec fn mode(self) -> DownloadMode {
        DownloadMode {
            limit: self.download_mode_limit,
            fan_speed: self.download_mode_fan_speed,
            previous: self.previous_limit,
            restart_fan: self.restart_fan_control_service,
            held: self.handles@ != Map::<Seq<char>, u32>::empty(),
            root: !(self.manager is RemoteInterface),
        }
    }

    /// No limit to put back and no speed is ever 0, and the mode knows whether
    /// handles are held.
    pub proof fn law_service_invariant(self)
        requires
            self.wf(),
        ensures
            not_zero(self.mode().limit),
            not_zero(self.mode().fan_speed),
            not_zero(self.mode().previous),
            self.mode().held == (self.held() != Map::<Seq<char>, u32>::empty()),
            self.mode().root == !(self.limits() is RemoteInterface),
            forall|k: Seq<char>| #[trigger] self.held().contains_key(k) ==> self.held()[k] >= 1,
    {
        assert forall|k: Seq<char>| #[trigger] self.held().contains_key(k) implies self.held()[k]
            >= 1 by {
            self.handles.lemma_positive(k);
        }
    }

    /// The service of a device, which holds no handle yet. A configured limit
    /// or fan speed is not 0.
    pub fn new(
        tdp_limit: &Option<TdpLimitConfig>,
        fan_speed: &Option<FanSpeedConfig>,
    ) -> (r: Result<TdpManagerService, TdpError>)
        requires
            tdp_limit matches Some(c) ==> not_zero(c.download_mode_limit),
            fan_speed matches Some(c) ==> not_zero(c.download_mode_fan_speed),
        ensures
            match manager_for(*tdp_limit) {
                Err(e) => r matches Err(f) && f == e,
                Ok(manager) => {
                    &&& r matches Ok(s)
                    &&& s.wf()
                    &&& s.limits() == manager
                    &&& s.held() == Map::<Seq<char>, u32>::empty()
                    &&& s.mode() == (DownloadMode {
                        limit: match *tdp_limit {
                            Some(c) => c.download_mode_limit,
                            None => None,
                        },
                        fan_speed: match *fan_speed {
                            Some(c) => c.download_mode_fan_speed,
                            None => None,
                        },
                        previous: None,
                        restart_fan: false,
                        held: false,
                        root: !(manager is RemoteInterface),
                    })
                },
            },
    {
        let download_mode_limit: Option<u32> = match tdp_limit {
            Some(c) => c.download_mode_limit,
            None => None,
        };
        let download_mode_fan_speed: Option<u32> = match fan_speed {
            Some(c) => c.download_mode_fan_speed,
            None => None,
        };
        match tdp_limit_manager(tdp_limit) {
            Err(e) => Err(e),
            Ok(manager) => Ok(
                TdpManagerService {
                    handles: Handles::new(),
                    download_mode_limit,
                    download_mode_fan_speed,
                    previous_limit: None,
                    restart_fan_control_service: false,
                    manager,
                },
            ),
        }
    }

    /// The manager of power limits.
    pub fn manager(&self) -> (r: &TdpLimitManager)
        ensures
            *r == self.limits(),
    {
        &self.manager
    }

    /// The identifiers that hold handles, with their counts.
    pub fn download_mode_handles(&self) -> (r: Vec<(String, u32)>)
        requires
            self.wf(),
        ensures
            counts(r@) == self.held(),
            distinct_ids(r@),
    {
        self.handles.list()
    }

    fn restart_fan_if_stopped(&self) -> (r: UpdateProgress)
        ensures
            r == restart_fan_if_stopped(self.mode()),
    {
        if self.restart_fan_control_service {
            UpdateProgress::Ask(
                UpdateStep::RestartFan,
                UpdateRequest::SetFanControlState(FanControlState::Os),
            )
        } else {
            UpdateProgress::Finished { success: true }
        }
    }

    fn look_at_fan(&self) -> (r: UpdateProgress)
        ensures
            r == look_at_fan(self.mode()),
    {
        match self.download_mode_fan_speed {
            Some(_) => UpdateProgress::Ask(
                UpdateStep::AskFanState,
                UpdateRequest::GetFanControlState,
            ),
            None => UpdateProgress::Finished { success: true },
        }
    }

    fn run_fan(&self) -> (r: UpdateProgress)
        ensures
            r == run_fan(self.mode()),
    {
        match self.download_mode_fan_speed {
            Some(rpm) => UpdateProgress::Ask(
                UpdateStep::SetFanSpeed,
                UpdateRequest::SetFanSpeed(rpm),
            ),
            None => UpdateProgress::Finished { success: true },
        }
    }

    fn after_limit(&mut self, current: u32) -> (r: UpdateProgress)
        requires
            old(self).wf(),
        ensures
            final(self).wf(),
            final(self).held() == old(self).held(),
            final(self).limits() == old(self).limits(),
            (final(self).mode(), r) == after_limit(old(self).mode(), current),
    {
        let limit: u32 = match self.download_mode_limit {
            Some(limit) => limit,
            None => return UpdateProgress::Finished { success: true },
        };
        if current == 0 {
            return UpdateProgress::Finished { success: true };
        }
        let root: bool = self.manager.needs_root();
        if self.handles.is_empty() {
            match self.previous_limit {
                Some(previous) => UpdateProgress::Ask(
                    UpdateStep::RestoreLimit,
                    UpdateRequest::SetTdpLimit { limit: previous, root },
                ),
                None => self.restart_fan_if_stopped(),
            }
        } else {
            if self.previous_limit.is_none() {
                self.previous_limit = Some(current);
            }
            if current != limit {
                UpdateProgress::Ask(
                    UpdateStep::LowerLimit,
                    UpdateRequest::SetTdpLimit { limit, root },
                )
            } else {
                self.look_at_fan()
            }
        }
    }

    /// How an update of the download mode begins.
    pub fn begin_update_download_mode(&self) -> (r: UpdateProgress)
        ensures
            r == UpdateProgress::Ask(UpdateStep::AskActive, UpdateRequest::IsActive),
    {
        UpdateProgress::Ask(UpdateStep::AskActive, UpdateRequest::IsActive)
    }

    /// Goes on with an update of the download mode: `reply` is the answer to
    /// the request that came with `step`.
    pub fn update_download_mode(&mut self, step: UpdateStep, reply: UpdateReply) -> (r:
        UpdateProgress)
        requires
            old(self).wf(),
        ensures
            final(self).wf(),
            final(self).held() == old(self).held(),
            final(self).limits() == old(self).limits(),
            (final(self).mode(), r) == update_step(old(self).mode(), step, reply),
    {
        match (step, reply) {
            (UpdateStep::AskActive, UpdateReply::Active(active)) => {
                if active && self.download_mode_limit.is_some() {
                    UpdateProgress::Ask(UpdateStep::AskLimit, UpdateRequest::GetTdpLimit)
                } else {
                    UpdateProgress::Finished { success: true }
                }
            },
            (UpdateStep::AskLimit, UpdateReply::Limit(current)) => self.after_limit(current),
            (UpdateStep::RestoreLimit, UpdateReply::Done) => {
                self.previous_limit = None;
                self.restart_fan_if_stopped()
            },
            (UpdateStep::RestartFan, UpdateReply::Done) => {
                self.restart_fan_control_service = false;
                UpdateProgress::Finished { success: true }
            },
            (UpdateStep::RestartFan, UpdateReply::Failed) => {
                self.restart_fan_control_service = false;
                UpdateProgress::Finished { success: true }
            },
            (UpdateStep::LowerLimit, UpdateReply::Done) => self.look_at_fan(),
            (UpdateStep::AskFanState, UpdateReply::FanState(state)) => {
                if state == FanControlState::Os.to_u32() {
                    UpdateProgress::Ask(
                        UpdateStep::StopFan,
                        UpdateRequest::SetFanControlState(FanControlState::Bios),
                    )
                } else {
                    self.run_fan()
                }
            },
            (UpdateStep::StopFan, UpdateReply::Done) => {
                self.restart_fan_control_service = true;
                self.run_fan()
            },
            (UpdateStep::SetFanSpeed, UpdateReply::Done) => {
                UpdateProgress::Finished { success: true }
            },
            _ => UpdateProgress::Finished { success: false },
        }
    }

    /// What a command makes the service do. While handles are held, setting the
    /// limit is ignored.
    pub fn handle_command(&self, command: TdpManagerCommand) -> (r: ServiceAction)
        requires
            self.wf(),
        ensures
            r == action_for(command, self.mode()),
    {
        match command {
            TdpManagerCommand::SetTdpLimit(limit) => {
                if self.handles.is_empty() {
                    ServiceAction::SetTdpLimit { limit, root: self.manager.needs_root() }
                } else {
                    ServiceAction::Wait
                }
            },
            TdpManagerCommand::GetTdpLimit => ServiceAction::ReplyTdpLimit,
            TdpManagerCommand::GetTdpLimitRange => ServiceAction::ReplyTdpLimitRange,
            TdpManagerCommand::IsActive => ServiceAction::ReplyIsActive,
            TdpManagerCommand::UpdateDownloadMode => ServiceAction::Update,
            TdpManagerCommand::EnterDownloadMode(id) => {
                if self.download_mode_limit.is_some() {
                    ServiceAction::OpenHandle(id)
                } else {
                    ServiceAction::ReplyNoDownloadMode
                }
            },
            TdpManagerCommand::ListDownloadModeHandles => ServiceAction::ReplyHandles,
            TdpManagerCommand::SetProxy { present } => ServiceAction::SetProxy { present },
        }
    }

    /// Counts a handle that was made for `id`; an update of the download mode
    /// follows, which begins with what is returned.
    pub fn get_download_mode_handle(&mut self, id: &str) -> (r: UpdateProgress)
        requires
            old(self).wf(),
            old(self).held().contains_key(id@) ==> old(self).held()[id@] < u32::MAX,
        ensures
            final(self).wf(),
            final(self).held() == opened(old(self).held(), id@),
            final(self).limits() == old(self).limits(),
            final(self).mode() == (DownloadMode { held: true, ..old(self).mode() }),
            r == UpdateProgress::Ask(UpdateStep::AskActive, UpdateRequest::IsActive),
    {
        self.handles.open(id);
        assert(self.held().contains_key(id@));
        self.begin_update_download_mode()
    }

    /// One turn of the service: what it does on an input.
    pub fn run(&mut self, input: ServiceInput) -> (r: ServiceAction)
        requires
            old(self).wf(),
        ensures
            final(self).wf(),
            final(self).limits() == old(self).limits(),
            match input {
                ServiceInput::HandleClosed(id) => {
                    let left = closed(old(self).held(), id@);
                    let was_last = old(self).held().contains_key(id@) && old(self).held()[id@] == 1;
                    &&& final(self).held() == left
                    &&& final(self).mode() == (DownloadMode {
                        held: left != Map::<Seq<char>, u32>::empty(),
                        ..old(self).mode()
                    })
                    &&& r == (if was_last && left == Map::<Seq<char>, u32>::empty() {
                        ServiceAction::Update
                    } else {
                        ServiceAction::Wait
                    })
                },
                ServiceInput::Command(command) => *final(self) == *old(self) && r == action_for(
                    command,
                    old(self).mode(),
                ),
                ServiceInput::ChannelClosed => *final(self) == *old(self) && r
                    == ServiceAction::Stop,
                _ => *final(self) == *old(self) && r == ServiceAction::Wait,
            },
    {
        match input {
            ServiceInput::Command(command) => self.handle_command(command),
            ServiceInput::ChannelClosed => ServiceAction::Stop,
            ServiceInput::HandleClosed(id) => {
                let last: bool = self.handles.close(id.as_str());
                if last && self.handles.is_empty() {
                    ServiceAction::Update
                } else {
                    ServiceAction::Wait
                }
            },
            ServiceInput::HandleLost => ServiceAction::Wait,
            ServiceInput::NoHandle => ServiceAction::Wait,
        }
    }
}

// ---------------------------------------------------------------------------
// Laws
// ---------------------------------------------------------------------------

/// A device that does what it is asked.
pub struct Device {
    pub active: bool,
    pub limit: u32,
    pub fan_state: u32,
    pub fan_speed: u32,
}

pub open spec fn answer(d: Device, request: UpdateRequest) -> (Device, UpdateReply) {
    match request {
        UpdateRequest::IsActive => (d, UpdateReply::Active(d.active)),
        UpdateRequest::GetTdpLimit => (d, UpdateReply::Limit(d.limit)),
        UpdateRequest::SetTdpLimit { limit, root } => (Device { limit, ..d }, UpdateReply::Done),
        UpdateRequest::GetFanControlState => (d, UpdateReply::FanState(d.fan_state)),
        UpdateRequest::SetFanControlState(state) => (
            Device { fan_state: state.number(), ..d },
            UpdateReply::Done,
        ),
        UpdateRequest::SetFanSpeed(rpm) => (Device { fan_speed: rpm, ..d }, UpdateReply::Done),
    }
}

/// What an update comes to on such a device, in at most `turns` turns.
pub open spec fn update_run(m: DownloadMode, d: Device, at: UpdateProgress, turns: nat) -> (
    DownloadMode,
    Device,
    UpdateProgress,
)
    decreases turns,
{
    match at {
        UpdateProgress::Finished { success } => (m, d, at),
        UpdateProgress::Ask(step, request) => if turns == 0 {
            (m, d, at)
        } else {
            let (d2, reply) = answer(d, request);
            let (m2, next) = update_step(m, step, reply);
            update_run(m2, d2, next, (turns - 1) as nat)
        },
    }
}

/// A whole update on a device that does what it is asked.
pub open spec fn updated(m: DownloadMode, d: Device) -> (DownloadMode, Device, UpdateProgress) {
    update_run(m, d, UpdateProgress::Ask(UpdateStep::AskActive, UpdateRequest::IsActive), 7)
}

/// An update with handles held lowers the limit, remembers the limit found the
/// first time, and runs the fan at its speed with the service stopped.
pub proof fn law_update_enters(m: DownloadMode, d: Device)
    requires
        m.held,
        m.limit is Some,
        m.limit->0 != 0,
        d.active,
        d.limit != 0,
    ensures
        updated(m, d).2 == finished(true),
        updated(m, d).1.limit == m.limit->0,
        updated(m, d).0.previous == (if m.previous is None { Some(d.limit) } else { m.previous }),
        m.fan_speed matches Some(rpm) ==> {
            &&& updated(m, d).1.fan_speed == rpm
            &&& updated(m, d).1.fan_state != FanControlState::Os.number()
            &&& updated(m, d).0.restart_fan == (m.restart_fan || d.fan_state
                == FanControlState::Os.number())
        },
        m.fan_speed is None ==> updated(m, d).1.fan_state == d.fan_state
            && updated(m, d).0.restart_fan == m.restart_fan,
{
    reveal_with_fuel(update_run, 8);
}

/// An update with no handle held puts the remembered limit back and starts the
/// fan control service again if it was stopped.
pub proof fn law_update_leaves(m: DownloadMode, d: Device)
    requires
        !m.held,
        m.limit is Some,
        d.active,
        d.limit != 0,
    ensures
        updated(m, d).2 == finished(true),
        updated(m, d).1.limit == (match m.previous {
            Some(previous) => previous,
            None => d.limit,
        }),
        updated(m, d).0.previous is None,
        updated(m, d).1.fan_state == (if m.restart_fan {
            FanControlState::Os.number()
        } else {
            d.fan_state
        }),
        !updated(m, d).0.restart_fan,
{
    reveal_with_fuel(update_run, 8);
}

/// Entering the mode and leaving it again gives the device back its limit, its
/// fan control and the service its state.
pub proof fn law_leaving_undoes_entering(m: DownloadMode, d: Device)
    requires
        !m.held,
        m.limit is Some,
        m.limit->0 != 0,
        m.previous is None,
        !m.restart_fan,
        d.active,
        d.limit != 0,
    ensures
        ({
            let (entered, lowered, _) = updated(DownloadMode { held: true, ..m }, d);
            let (left, restored, end) = updated(DownloadMode { held: false, ..entered }, lowered);
            &&& end == finished(true)
            &&& restored.limit == d.limit
            &&& restored.fan_state == d.fan_state
            &&& left == m
        }),
{
    let held = DownloadMode { held: true, ..m };
    law_update_enters(held, d);
    let (entered, lowered, _) = updated(held, d);
    assert(entered.limit == m.limit && entered.fan_speed == m.fan_speed && entered.root == m.root
        && lowered.active) by {
        reveal_with_fuel(update_run, 8);
    }
    let released = DownloadMode { held: false, ..entered };
    law_update_leaves(released, lowered);
    assert(updated(released, lowered).0 == m) by {
        reveal_with_fuel(update_run, 8);
    }
    assert(m.fan_speed is Some && d.fan_state != FanControlState::Os.number()
        ==> lowered.fan_state == d.fan_state) by {
        reveal_with_fuel(update_run, 8);
    }
}

/// The mode after updates with handles held, on the device as each met it.
pub open spec fn kept(m: DownloadMode, met: Seq<Device>) -> DownloadMode
    decreases met.len(),
{
    if met.len() == 0 {
        m
    } else {
        updated(kept(m, met.drop_last()), met.last()).0
    }
}

proof fn lemma_kept(m: DownloadMode, met: Seq<Device>)
    requires
        m.held,
        m.limit is Some,
        m.limit->0 != 0,
        m.previous is None,
        met.len() > 0,
        forall|i: int| 0 <= i < met.len() ==> (#[trigger] met[i]).active && met[i].limit != 0,
    ensures
        kept(m, met).held,
        kept(m, met).limit == m.limit,
        kept(m, met).previous == Some(met[0].limit),
    decreases met.len(),
{
    let before = met.drop_last();
    reveal_with_fuel(update_run, 8);
    if before.len() > 0 {
        assert forall|i: int| 0 <= i < before.len() implies (#[trigger] before[i]).active
            && before[i].limit != 0 by {
            assert(before[i] == met[i]);
        }
        lemma_kept(m, before);
        law_update_enters(kept(m, before), met.last());
    } else {
        assert(kept(m, before) == m);
        law_update_enters(m, met.last());
    }
}

/// However many updates are made with handles held, one or more, and whatever
/// limits they met: the first update without handles puts back the limit that
/// the first of them met.
pub proof fn law_leaving_restores_first_limit(m: DownloadMode, met: Seq<Device>, d: Device)
    requires
        m.held,
        m.limit is Some,
        m.limit->0 != 0,
        m.previous is None,
        met.len() > 0,
        forall|i: int| 0 <= i < met.len() ==> (#[trigger] met[i]).active && met[i].limit != 0,
        d.active,
        d.limit != 0,
    ensures
        ({
            let (left, restored, end) = updated(DownloadMode { held: false, ..kept(m, met) }, d);
            &&& end == finished(true)
            &&& restored.limit == met[0].limit
            &&& left.previous is None
        }),
{
    lemma_kept(m, met);
    law_update_leaves(DownloadMode { held: false, ..kept(m, met) }, d);
}

/// No update sets anything on a device where limiting is not active, where it
/// reports a limit of 0, or without a download mode.
pub proof fn law_update_without_effect(m: DownloadMode, d: Device)
    requires
        !d.active || d.limit == 0 || m.limit is None,
    ensures
        updated(m, d) == (m, d, finished(true)),
{
    reveal_with_fuel(update_run, 8);
}

/// The limit to put back is neither lost nor changed while handles are held,
/// whatever the device answers.
pub proof fn law_held_keeps_previous(m: DownloadMode, step: UpdateStep, reply: UpdateReply)
    requires
        m.held,
        m.previous is Some,
        step != UpdateStep::RestoreLimit,
    ensures
        update_step(m, step, reply).0.previous == m.previous,
        update_step(m, step, reply).1 matches UpdateProgress::Ask(next, _) ==> next
            != UpdateStep::RestoreLimit,
{
}

/// Every request to set a limit goes through the root manager exactly if that is
/// needed. With handles held it lowers the limit to that of the download mode;
/// without, it puts back the limit from before.
pub proof fn law_limit_requests(m: DownloadMode, step: UpdateStep, reply: UpdateReply)
    ensures
        update_step(m, step, reply).1 matches UpdateProgress::Ask(
            next,
            UpdateRequest::SetTdpLimit { limit, root },
        ) ==> {
            &&& root == m.root
            &&& m.held ==> next == UpdateStep::LowerLimit && m.limit == Some(limit)
            &&& !m.held ==> next == UpdateStep::RestoreLimit && m.previous == Some(limit)
            &&& reply matches UpdateReply::Limit(current) && current != 0
            &&& m.held ==> (reply matches UpdateReply::Limit(current) ==> current != limit)
        },
{
}

/// The fan is only touched so: its speed is set to the one of the download mode;
/// the service that controls it is stopped if it runs, which is remembered, and
/// started again only if that is remembered.
pub proof fn law_fan_requests(m: DownloadMode, step: UpdateStep, reply: UpdateReply)
    ensures
        update_step(m, step, reply).1 matches UpdateProgress::Ask(
            _,
            UpdateRequest::SetFanSpeed(rpm),
        ) ==> m.fan_speed == Some(rpm),
        update_step(m, step, reply).1 matches UpdateProgress::Ask(
            next,
            UpdateRequest::SetFanControlState(state),
        ) ==> if next == UpdateStep::StopFan {
            state == FanControlState::Bios && reply == UpdateReply::FanState(
                FanControlState::Os.number(),
            )
        } else {
            next == UpdateStep::RestartFan && state == FanControlState::Os && m.restart_fan && (
            m.held ==> step == UpdateStep::RestoreLimit)
        },
        update_step(m, step, reply).0.restart_fan && !m.restart_fan ==> step
            == UpdateStep::StopFan && reply == UpdateReply::Done,
        step == UpdateStep::StopFan && reply == UpdateReply::Done ==> update_step(
            m,
            step,
            reply,
        ).0.restart_fan,
        step == UpdateStep::AskFanState ==> (reply matches UpdateReply::FanState(state) ==> (state
            == FanControlState::Os.number() <==> (update_step(m, step, reply).1
            matches UpdateProgress::Ask(next, _) && next == UpdateStep::StopFan))),
{
    assert(FanControlState::Os.number() != FanControlState::Bios.number());
}

/// An update fails at the first request that fails, and leaves the limit to put
/// back as it was; only starting the fan control service again may fail.
pub proof fn law_failures_end_updates(m: DownloadMode, step: UpdateStep)
    requires
        step != UpdateStep::RestartFan,
    ensures
        update_step(m, step, UpdateReply::Failed).1 == (UpdateProgress::Finished {
            success: false,
        }),
        update_step(m, step, UpdateReply::Failed).0 == m,
{
}

/// Whether an answer is one that a step can have.
pub open spec fn belongs(step: UpdateStep, reply: UpdateReply) -> bool {
    match reply {
        UpdateReply::Active(_) => step == UpdateStep::AskActive,
        UpdateReply::Limit(_) => step == UpdateStep::AskLimit,
        UpdateReply::FanState(_) => step == UpdateStep::AskFanState,
        UpdateReply::Done => !(step is AskActive) && !(step is AskLimit) && !(step is AskFanState),
        UpdateReply::Failed => step == UpdateStep::RestartFan,
    }
}

/// An update fails exactly if a step gets an answer that it cannot have.
pub proof fn law_foreign_answers_fail(m: DownloadMode, step: UpdateStep, reply: UpdateReply)
    ensures
        belongs(step, reply) <==> update_step(m, step, reply).1 != finished(false),
        !belongs(step, reply) ==> update_step(m, step, reply).0 == m,
        finished(false) == (UpdateProgress::Finished { success: false }),
{
}

/// A failure to start the fan control service again fails no update, and it is
/// not tried twice.
pub proof fn law_fan_restart_may_fail(m: DownloadMode)
    ensures
        update_step(m, UpdateStep::RestartFan, UpdateReply::Failed).1 == (
        UpdateProgress::Finished { success: true }),
        !update_step(m, UpdateStep::RestartFan, UpdateReply::Failed).0.restart_fan,
        update_step(m, UpdateStep::RestartFan, UpdateReply::Failed).0.previous == m.previous,
{
}

/// An update changes what it keeps and nothing else: the download mode itself,
/// the handles and the manager stay. The limit to put back is noted when the
/// limit is first read with handles held, as it was read, and forgotten only
/// once it is put back.
pub proof fn law_updates_keep_the_mode(m: DownloadMode, step: UpdateStep, reply: UpdateReply)
    ensures
        update_step(m, step, reply).0.limit == m.limit,
        update_step(m, step, reply).0.fan_speed == m.fan_speed,
        update_step(m, step, reply).0.held == m.held,
        update_step(m, step, reply).0.root == m.root,
        update_step(m, step, reply).0.previous != m.previous ==> {
            ||| m.held && m.previous is None && (reply matches UpdateReply::Limit(current)
                && update_step(m, step, reply).0.previous == Some(current))
            ||| step == UpdateStep::RestoreLimit && reply == UpdateReply::Done
                && update_step(m, step, reply).0.previous is None
        },
        step == UpdateStep::AskLimit && m.held && m.limit is Some && m.previous is None ==> (reply
            matches UpdateReply::Limit(current) ==> current != 0 ==> update_step(
            m,
            step,
            reply,
        ).0.previous == Some(current)),
        step == UpdateStep::RestoreLimit && reply == UpdateReply::Done ==> update_step(
            m,
            step,
            reply,
        ).0.previous is None,
{
}

/// A limit that is set by a command is the one that was asked for, through the
/// root manager exactly if that is needed; a handle is opened for the identifier
/// that asked, if there is a download mode.
pub proof fn law_commands_are_obeyed(command: TdpManagerCommand, m: DownloadMode)
    ensures
        action_for(command, m) matches ServiceAction::SetTdpLimit { limit, root } ==> root == m.root
            && command == TdpManagerCommand::SetTdpLimit(limit) && !m.held,
        command matches TdpManagerCommand::EnterDownloadMode(id) ==> if m.limit is Some {
            action_for(command, m) == ServiceAction::OpenHandle(id)
        } else {
            action_for(command, m) == ServiceAction::ReplyNoDownloadMode
        },
        action_for(command, m) == ServiceAction::ReplyTdpLimit <==> command
            == TdpManagerCommand::GetTdpLimit,
        action_for(command, m) == ServiceAction::ReplyTdpLimitRange <==> command
            == TdpManagerCommand::GetTdpLimitRange,
        action_for(command, m) == ServiceAction::ReplyIsActive <==> command
            == TdpManagerCommand::IsActive,
        action_for(command, m) == ServiceAction::Update <==> command
            == TdpManagerCommand::UpdateDownloadMode,
        action_for(command, m) == ServiceAction::ReplyHandles <==> command
            == TdpManagerCommand::ListDownloadModeHandles,
        forall|present: bool|
            action_for(command, m) == (ServiceAction::SetProxy { present }) <==> command == (
            #[trigger] set_proxy(present)),
        action_for(command, m) != ServiceAction::Stop,
{
}

pub open spec fn set_proxy(present: bool) -> TdpManagerCommand {
    TdpManagerCommand::SetProxy { present }
}

/// Opening and closing handles of one identifier changes no other, and what is
/// counted never falls to 0.
pub proof fn law_handles_are_apart(m: Map<Seq<char>, u32>, k: Seq<char>, other: Seq<char>)
    requires
        other != k,
        m.contains_key(k) ==> 1 <= m[k] < u32::MAX,
    ensures
        opened(m, k).contains_key(k),
        opened(m, k)[k] == (if m.contains_key(k) {
            m[k] + 1
        } else {
            1
        }),
        opened(m, k).contains_key(other) == m.contains_key(other),
        m.contains_key(other) ==> opened(m, k)[other] == m[other],
        closed(m, k).contains_key(other) == m.contains_key(other),
        m.contains_key(other) ==> closed(m, k)[other] == m[other],
        closed(m, k).contains_key(k) <==> m.contains_key(k) && m[k] > 1,
        closed(m, k).contains_key(k) ==> closed(m, k)[k] + 1 == m[k],
{
}

/// Setting the limit is ignored while handles are held, and only then.
pub proof fn law_set_limit_ignored_while_held(m: DownloadMode, limit: u32)
    ensures
        action_for(TdpManagerCommand::SetTdpLimit(limit), m) == ServiceAction::Wait <==> m.held,
{
}

} // verus!
