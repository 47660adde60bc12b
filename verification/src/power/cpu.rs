//! The CPU: frequency governors, schedulers and boost.
use crate::enums::{or_not_found, VariantNotFound};
use crate::power::values::{CPUBoostState, CPUScalingGovernor, CpuScheduler};
use crate::systemd::{EnableState, JobMode};
use crate::text::{
    has_prefix, has_suffix, is_white, law_one_word, law_words_cut, lowered, same_text,
    split_whitespace, starts_with, texts, trim, trimmed, words_of,
};
use vstd::prelude::*;

verus! {

// ---------------------------------------------------------------------------
// Governors
// ---------------------------------------------------------------------------

/// The governors among some words, in their order; other words are passed over.
pub open spec fn governors_in(words: Seq<Seq<char>>) -> Seq<CPUScalingGovernor>
    decreases words.len(),
{
    if words.len() == 0 {
        Seq::empty()
    } else {
        let before = governors_in(words.drop_last());
        match CPUScalingGovernor::spelled(words.last()) {
            Some(governor) => before.push(governor),
            None => before,
        }
    }
}

/// The governors that the kernel lists.
pub fn get_available_cpu_scaling_governors(contents: &str) -> (r: Vec<CPUScalingGovernor>)
    ensures
        r@ == governors_in(words_of(contents@)),
{
    let words: Vec<String> = split_whitespace(contents);
    let mut r: Vec<CPUScalingGovernor> = Vec::new();
    for i in 0..words.len()
        invariant
            r@ == governors_in(texts(words@).take(i as int)),
    {
        assert(texts(words@).take(i + 1).drop_last() =~= texts(words@).take(i as int));
        assert(texts(words@).take(i + 1).last() == words@[i as int]@);
        match CPUScalingGovernor::from_str(words[i].as_str()) {
            Ok(governor) => {
                r.push(governor);
            },
            Err(_) => {},
        }
    }
    assert(texts(words@).take(words@.len() as int) =~= texts(words@));
    r
}

/// The governor that the kernel names.
pub fn get_cpu_scaling_governor(contents: &str) -> (r: Result<CPUScalingGovernor, VariantNotFound>)
    ensures
        r == or_not_found(CPUScalingGovernor::spelled(trimmed(contents@))),
{
    CPUScalingGovernor::from_str(trim(contents).as_str())
}

/// Why a governor was not set on every CPU.
#[derive(Clone, Copy, Debug, PartialEq, Eq, Structural)]
pub enum GovernorError {
    /// "Unable to convert path to string".
    BadName,
    /// "No data written, unable to find any policyX sysfs paths".
    NothingWritten,
}

/// The policy directories among the names, in their order, up to the first
/// name that is no text.
pub open spec fn policies_in(names: Seq<Option<String>>) -> Seq<Seq<char>>
    decreases names.len(),
{
    if names.len() == 0 {
        Seq::empty()
    } else {
        match names[0] {
            None => Seq::empty(),
            Some(name) => {
                let rest = policies_in(names.skip(1));
                if has_prefix(name@, "policy"@) {
                    seq![name@] + rest
                } else {
                    rest
                }
            },
        }
    }
}

/// What is written to set a governor on every CPU, and how it ends.
#[derive(Debug, PartialEq, Eq)]
pub struct GovernorWrites {
    /// The directories to write to, in this order.
    pub policies: Vec<String>,
    pub contents: String,
    pub result: Result<(), GovernorError>,
}

/// Sets `governor`: `names` are the entries of the directory of CPU policies,
/// `None` for one whose name is no text.
pub fn set_cpu_scaling_governor(governor: CPUScalingGovernor, names: &Vec<Option<String>>) -> (r:
    GovernorWrites)
    ensures
        r.contents@ == governor.spelling(),
        texts(r.policies@) == policies_in(names@),
        r.result == (if exists|i: int| 0 <= i < names@.len() && names@[i] is None {
            Err::<(), GovernorError>(GovernorError::BadName)
        } else if policies_in(names@).len() == 0 {
            Err(GovernorError::NothingWritten)
        } else {
            Ok(())
        }),
{
    let mut policies: Vec<String> = Vec::new();
    let mut i: usize = 0;
    assert(names@.skip(0) =~= names@);
    assert(texts(policies@) + policies_in(names@) =~= policies_in(names@));
    while i < names.len()
        invariant
            i <= names@.len(),
            texts(policies@) + policies_in(names@.skip(i as int)) == policies_in(names@),
            forall|j: int| 0 <= j < i ==> !(names@[j] is None),
        decreases names@.len() - i,
    {
        assert(names@.skip(i as int).skip(1) =~= names@.skip(i + 1));
        match &names[i] {
            None => {
                assert(texts(policies@) =~= texts(policies@) + Seq::<Seq<char>>::empty());
                return GovernorWrites {
                    policies,
                    contents: governor.to_string(),
                    result: Err(GovernorError::BadName),
                };
            },
            Some(name) => {
                if starts_with(name.as_str(), "policy") {
                    let ghost before = policies@;
                    policies.push(name.clone());
                    assert(texts(policies@) =~= texts(before).push(name@));
                    assert(texts(policies@) + policies_in(names@.skip(i + 1)) =~= texts(before)
                        + policies_in(names@.skip(i as int)));
                }
            },
        }
        i = i + 1;
    }
    assert(names@.skip(i as int) =~= Seq::<Option<String>>::empty());
    assert(texts(policies@) =~= policies_in(names@));
    let result: Result<(), GovernorError> = if policies.len() == 0 {
        Err(GovernorError::NothingWritten)
    } else {
        Ok(())
    };
    GovernorWrites { policies, contents: governor.to_string(), result }
}

proof fn lemma_spelling_not_trimmed(governor: CPUScalingGovernor)
    ensures
        trimmed(governor.spelling()) == governor.spelling(),
{
    reveal_strlit("conservative");
    reveal_strlit("ondemand");
    reveal_strlit("userspace");
    reveal_strlit("powersave");
    reveal_strlit("performance");
    reveal_strlit("schedutil");
    let s = governor.spelling();
    assert(!is_white(s[0]));
    assert(!is_white(s.last()));
}

/// The governor that was set is the governor that is read.
pub proof fn law_governor_reads_back(governor: CPUScalingGovernor)
    ensures
        CPUScalingGovernor::spelled(trimmed(governor.spelling())) == Some(governor),
{
    lemma_spelling_not_trimmed(governor);
    governor.law_spelling_reads_back();
}

// ---------------------------------------------------------------------------
// Schedulers
// ---------------------------------------------------------------------------

/// What is done to `scx.service` to change the scheduler.
#[derive(Clone, Copy, Debug, PartialEq, Eq, Structural)]
pub enum SchedulerAction {
    Nothing,
    Stop(JobMode),
    Start(JobMode),
}

/// The scheduler in use once an action is done.
pub open spec fn scheduler_after(current: CpuScheduler, action: SchedulerAction) -> CpuScheduler {
    match action {
        SchedulerAction::Nothing => current,
        SchedulerAction::Stop(_) => CpuScheduler::Kernel,
        SchedulerAction::Start(_) => CpuScheduler::LAVD,
    }
}

/// "Cannot set CPU scheduler to LAVD; scx.service not installed".
#[derive(Clone, Copy, Debug, PartialEq, Eq, Structural)]
pub struct SchedulerNotInstalled;

/// The CPU scheduler of the device.
#[derive(Debug)]
pub struct CpuSchedulerManager {
    installed: bool,
    current: CpuScheduler,
}

impl CpuSchedulerManager {
    /// A scheduler that is not installed is not the current one.
    pub closed spec fn wf(self) -> bool {
        self.current == CpuScheduler::LAVD ==> self.installed
    }

    pub closed spec fn is_installed(self) -> bool {
        self.installed
    }

    pub closed spec fn scheduler(self) -> CpuScheduler {
        self.current
    }

    /// The manager, from what is known of `scx.service`: `None` if there is no
    /// such unit, else the state of its file, if that could be read.
    pub fn new(scx_unit: Option<Option<EnableState>>) -> (r: CpuSchedulerManager)
        ensures
            r.wf(),
            r.is_installed() == (scx_unit is Some),
            r.scheduler() == (if scx_unit == Some(Some(EnableState::Enabled)) {
                CpuScheduler::LAVD
            } else {
                CpuScheduler::Kernel
            }),
    {
        match scx_unit {
            None => CpuSchedulerManager { installed: false, current: CpuScheduler::Kernel },
            Some(Some(EnableState::Enabled)) => CpuSchedulerManager {
                installed: true,
                current: CpuScheduler::LAVD,
            },
            Some(_) => CpuSchedulerManager { installed: true, current: CpuScheduler::Kernel },
        }
    }

    /// Schedulers are supported where the loader of LAVD exists.
    pub fn is_supported(scx_lavd_exists: bool) -> (r: bool)
        ensures
            r == scx_lavd_exists,
    {
        scx_lavd_exists
    }

    pub fn get_available_cpu_schedulers(&self) -> (r: Vec<CpuScheduler>)
        ensures
            r@ == (if self.is_installed() {
                seq![CpuScheduler::Kernel, CpuScheduler::LAVD]
            } else {
                seq![CpuScheduler::Kernel]
            }),
    {
        let mut list: Vec<CpuScheduler> = Vec::new();
        list.push(CpuScheduler::Kernel);
        if self.installed {
            list.push(CpuScheduler::LAVD);
        }
        list
    }

    pub fn get_cpu_scheduler(&self) -> (r: CpuScheduler)
        ensures
            r == self.scheduler(),
    {
        self.current
    }

    /// What has to be done to change to `scheduler`.
    pub fn set_cpu_scheduler(&self, scheduler: CpuScheduler) -> (r: Result<
        SchedulerAction,
        SchedulerNotInstalled,
    >)
        requires
            self.wf(),
        ensures
            r == (if self.scheduler() == scheduler {
                Ok::<SchedulerAction, SchedulerNotInstalled>(SchedulerAction::Nothing)
            } else if scheduler == CpuScheduler::Kernel {
                Ok(SchedulerAction::Stop(JobMode::Fail))
            } else if self.is_installed() {
                Ok(SchedulerAction::Start(JobMode::Fail))
            } else {
                Err(SchedulerNotInstalled)
            }),
            r matches Ok(action) ==> scheduler_after(self.scheduler(), action) == scheduler,
            r is Err <==> scheduler == CpuScheduler::LAVD && !self.is_installed(),
    {
        if self.current == scheduler {
            return Ok(SchedulerAction::Nothing);
        }
        match scheduler {
            CpuScheduler::Kernel => Ok(SchedulerAction::Stop(JobMode::Fail)),
            CpuScheduler::LAVD => {
                if self.installed {
                    Ok(SchedulerAction::Start(JobMode::Fail))
                } else {
                    Err(SchedulerNotInstalled)
                }
            },
        }
    }

    /// Notes that the action for `scheduler` was done; `success` tells whether
    /// it went well. If not, the scheduler stays what it was.
    pub fn cpu_scheduler_set(&mut self, scheduler: CpuScheduler, success: bool)
        requires
            old(self).wf(),
            scheduler == CpuScheduler::LAVD ==> old(self).is_installed(),
        ensures
            final(self).wf(),
            final(self).is_installed() == old(self).is_installed(),
            final(self).scheduler() == (if success {
                scheduler
            } else {
                old(self).scheduler()
            }),
    {
        if success {
            self.current = scheduler;
        }
    }
}

// ---------------------------------------------------------------------------
// Boost
// ---------------------------------------------------------------------------

/// Which driver of the kernel controls boost.
#[derive(Clone, Copy, Debug, PartialEq, Eq, Structural)]
pub enum CpuBoostDriver {
    IntelPstate,
    CpuFreq,
}

impl CpuBoostDriver {
    /// The file that holds the setting.
    pub open spec fn file(self) -> Seq<char> {
        match self {
            CpuBoostDriver::CpuFreq => "/sys/devices/system/cpu/cpufreq/boost"@,
            CpuBoostDriver::IntelPstate => "/sys/devices/system/cpu/intel_pstate/no_turbo"@,
        }
    }

    pub fn path(self) -> (r: String)
        ensures
            r@ == self.file(),
    {
        match self {
            CpuBoostDriver::CpuFreq => "/sys/devices/system/cpu/cpufreq/boost".to_owned(),
            CpuBoostDriver::IntelPstate =>
                "/sys/devices/system/cpu/intel_pstate/no_turbo".to_owned(),
        }
    }

    /// What the file holds in each state. The setting of `intel_pstate` says
    /// that there is no boost, so it is inverted.
    pub open spec fn contents(self, state: CPUBoostState) -> Seq<char> {
        match (self, state) {
            (CpuBoostDriver::CpuFreq, CPUBoostState::Enabled) => "1"@,
            (CpuBoostDriver::CpuFreq, CPUBoostState::Disabled) => "0"@,
            (CpuBoostDriver::IntelPstate, CPUBoostState::Enabled) => "0"@,
            (CpuBoostDriver::IntelPstate, CPUBoostState::Disabled) => "1"@,
        }
    }

    /// The state that the contents of the file stand for.
    pub open spec fn state_in(self, contents: Seq<char>) -> Option<CPUBoostState> {
        if trimmed(contents) == self.contents(CPUBoostState::Enabled) {
            Some(CPUBoostState::Enabled)
        } else if trimmed(contents) == self.contents(CPUBoostState::Disabled) {
            Some(CPUBoostState::Disabled)
        } else {
            None
        }
    }
}

/// The driver whose file exists, `cpufreq` before `intel_pstate`; else there is
/// no boost: "Could not find CPU boost sysfs path".
pub fn find_cpu_boost_driver(cpufreq_exists: bool, intel_pstate_exists: bool) -> (r: Option<
    CpuBoostDriver,
>)
    ensures
        r == (if cpufreq_exists {
            Some(CpuBoostDriver::CpuFreq)
        } else if intel_pstate_exists {
            Some(CpuBoostDriver::IntelPstate)
        } else {
            None
        }),
{
    if cpufreq_exists {
        Some(CpuBoostDriver::CpuFreq)
    } else if intel_pstate_exists {
        Some(CpuBoostDriver::IntelPstate)
    } else {
        None
    }
}

/// The boost state that the driver's file holds, if it is one.
pub fn get_cpu_boost_state(driver: CpuBoostDriver, contents: &str) -> (r: Option<CPUBoostState>)
    ensures
        r == driver.state_in(contents@),
{
    let value: String = trim(contents);
    match driver {
        CpuBoostDriver::CpuFreq => {
            if same_text(value.as_str(), "1") {
                Some(CPUBoostState::Enabled)
            } else if same_text(value.as_str(), "0") {
                Some(CPUBoostState::Disabled)
            } else {
                None
            }
        },
        CpuBoostDriver::IntelPstate => {
            if same_text(value.as_str(), "0") {
                Some(CPUBoostState::Enabled)
            } else if same_text(value.as_str(), "1") {
                Some(CPUBoostState::Disabled)
            } else {
                None
            }
        },
    }
}

/// What is written to the driver's file to set `state`.
pub fn set_cpu_boost_state(driver: CpuBoostDriver, state: CPUBoostState) -> (r: String)
    ensures
        r@ == driver.contents(state),
{
    match (driver, state) {
        (CpuBoostDriver::CpuFreq, CPUBoostState::Enabled) => "1".to_owned(),
        (CpuBoostDriver::CpuFreq, CPUBoostState::Disabled) => "0".to_owned(),
        (CpuBoostDriver::IntelPstate, CPUBoostState::Enabled) => "0".to_owned(),
        (CpuBoostDriver::IntelPstate, CPUBoostState::Disabled) => "1".to_owned(),
    }
}

/// The boost state that was set is the one that is read, with either driver.
pub proof fn law_boost_state_reads_back(driver: CpuBoostDriver, state: CPUBoostState)
    ensures
        driver.state_in(driver.contents(state)) == Some(state),
{
    reveal_strlit("0");
    reveal_strlit("1");
    let s = driver.contents(state);
    assert(!is_white(s[0]));
    assert(!is_white(s.last()));
    assert("0"@[0] == '0');
    assert("1"@[0] == '1');
}

/// A governor is read from each word that names one; other words are passed over,
/// and the order stays.
pub proof fn law_governors_of_words(a: Seq<Seq<char>>, word: Seq<char>)
    ensures
        CPUScalingGovernor::spelled(word) matches Some(g) ==> governors_in(a.push(word))
            == governors_in(a).push(g),
        CPUScalingGovernor::spelled(word) is None ==> governors_in(a.push(word)) == governors_in(a),
        governors_in(Seq::empty()).len() == 0,
{
    assert(a.push(word).drop_last() =~= a);
    assert(a.push(word).last() == word);
}

/// The governors that are written down, with a blank behind each, are the
/// governors that are read.
pub proof fn law_governors_read_back(governors: Seq<CPUScalingGovernor>)
    ensures
        governors_in(words_of(governor_words(governors))) == governors,
    decreases governors.len(),
{
    if governors.len() == 0 {
        law_one_word(governor_words(governors));
        assert(governors_in(words_of(governor_words(governors))) =~= governors);
    } else {
        let before = governors.drop_last();
        let g = governors.last();
        law_governors_read_back(before);
        let e = Seq::<char>::empty();
        let a = governor_words(before) + g.spelling();
        assert(governor_words(governors) =~= a.push(' ') + e);
        law_words_cut(a, ' ', e);
        law_one_word(e);
        lemma_word_behind_blank(before, g);
        assert(words_of(governor_words(governors)) =~= words_of(governor_words(before)).push(
            g.spelling(),
        ));
        g.law_spelling_reads_back();
        law_governors_of_words(words_of(governor_words(before)), g.spelling());
        assert(governors_in(words_of(governor_words(governors))) =~= governors);
    }
}

/// The spellings of some governors, with a blank behind each.
pub open spec fn governor_words(governors: Seq<CPUScalingGovernor>) -> Seq<char>
    decreases governors.len(),
{
    if governors.len() == 0 {
        Seq::empty()
    } else {
        governor_words(governors.drop_last()) + governors.last().spelling() + seq![' ']
    }
}

proof fn lemma_spelling_is_word(g: CPUScalingGovernor)
    ensures
        words_of(g.spelling()) == seq![g.spelling()],
{
    reveal_strlit("conservative");
    reveal_strlit("ondemand");
    reveal_strlit("userspace");
    reveal_strlit("powersave");
    reveal_strlit("performance");
    reveal_strlit("schedutil");
    let s = g.spelling();
    assert forall|i: int| 0 <= i < s.len() implies !is_white(#[trigger] s[i]) by {}
    law_one_word(s);
}

proof fn lemma_word_behind_blank(before: Seq<CPUScalingGovernor>, g: CPUScalingGovernor)
    ensures
        words_of(governor_words(before) + g.spelling()) == words_of(governor_words(before)).push(
            g.spelling(),
        ),
{
    lemma_spelling_is_word(g);
    let s = g.spelling();
    let w = governor_words(before);
    if before.len() == 0 {
        law_one_word(w);
        assert(w + s =~= s);
        assert(words_of(w + s) =~= words_of(w).push(s));
    } else {
        let a = governor_words(before.drop_last()) + before.last().spelling();
        let e = Seq::<char>::empty();
        assert(w =~= a.push(' ') + e);
        assert(w + s =~= a.push(' ') + s);
        law_words_cut(a, ' ', s);
        law_words_cut(a, ' ', e);
        law_one_word(e);
        assert(words_of(w) =~= words_of(a));
        assert(words_of(w + s) =~= words_of(w).push(s));
    }
}

/// Without a bad name, the directories that are written to are those, and all of
/// those, whose names start with `policy`, in their order. Nothing behind a bad
/// name is written to.
pub proof fn law_policies_of_names(a: Seq<Option<String>>, name: Option<String>)
    requires
        forall|i: int| 0 <= i < a.len() ==> (#[trigger] a[i]) is Some,
    ensures
        name matches Some(n) ==> policies_in(a.push(name)) == (if has_prefix(n@, "policy"@) {
            policies_in(a).push(n@)
        } else {
            policies_in(a)
        }),
        name is None ==> forall|rest: Seq<Option<String>>| #[trigger]
            policies_in(a.push(name) + rest) == policies_in(a),
    decreases a.len(),
{
    let e = Seq::<Option<String>>::empty();
    if a.len() == 0 {
        let one = a.push(name);
        assert(one.skip(1) =~= e);
        assert(policies_in(e) =~= Seq::<Seq<char>>::empty());
        if name is Some {
            assert(policies_in(one) =~= (if has_prefix(name->0@, "policy"@) {
                policies_in(a).push(name->0@)
            } else {
                policies_in(a)
            }));
        } else {
            assert forall|rest: Seq<Option<String>>| #[trigger]
                policies_in(one + rest) == policies_in(a) by {
                assert((one + rest)[0] == name);
            }
        }
    } else {
        let t = a.skip(1);
        assert(a[0] is Some);
        assert forall|i: int| 0 <= i < t.len() implies (#[trigger] t[i]) is Some by {
            assert(t[i] == a[i + 1]);
        }
        law_policies_of_names(t, name);
        assert(a.push(name).skip(1) =~= t.push(name));
        assert(a.push(name)[0] == a[0]);
        if name is Some {
            assert(policies_in(a.push(name)) =~= (if has_prefix(name->0@, "policy"@) {
                policies_in(a).push(name->0@)
            } else {
                policies_in(a)
            }));
        } else {
            assert forall|rest: Seq<Option<String>>| #[trigger]
                policies_in(a.push(name) + rest) == policies_in(a) by {
                assert((a.push(name) + rest).skip(1) =~= t.push(name) + rest);
                assert((a.push(name) + rest)[0] == a[0]);
                assert(policies_in(t.push(name) + rest) == policies_in(t));
            }
        }
    }
}

/// With `cpufreq` a 1 is boost and a 0 is none; `intel_pstate` holds the opposite.
/// Nothing else is a state.
pub proof fn law_boost_is_inverted(state: CPUBoostState, other: CPUBoostState, s: Seq<char>)
    requires
        state != other,
    ensures
        CPUBoostState::spelled(CpuBoostDriver::CpuFreq.contents(state)) == Some(state),
        CpuBoostDriver::IntelPstate.contents(state) == CpuBoostDriver::CpuFreq.contents(other),
        CpuBoostDriver::IntelPstate.state_in(s) == Some(state)
            <==> CpuBoostDriver::CpuFreq.state_in(s) == Some(other),
        CpuBoostDriver::CpuFreq.state_in(s) is Some <==> trimmed(s) == "0"@ || trimmed(s) == "1"@,
{
    reveal_strlit("0");
    reveal_strlit("1");
    assert("0"@[0] != "1"@[0]);
    assert(lowered("0"@) =~= "0"@);
    assert(lowered("1"@) =~= "1"@);
    state.law_only_spelling_reads("0"@);
    state.law_only_spelling_reads("1"@);
}

/// The file of `cpufreq` is named for boost, that of `intel_pstate` for having
/// none, which is why they are inverted. Both belong to the CPUs.
pub proof fn law_boost_files()
    ensures
        has_suffix(CpuBoostDriver::CpuFreq.file(), "/cpufreq/boost"@),
        has_suffix(CpuBoostDriver::IntelPstate.file(), "/intel_pstate/no_turbo"@),
        has_prefix(CpuBoostDriver::CpuFreq.file(), "/sys/devices/system/cpu/"@),
        has_prefix(CpuBoostDriver::IntelPstate.file(), "/sys/devices/system/cpu/"@),
{
    reveal_strlit("/sys/devices/system/cpu/");
    reveal_strlit("/cpufreq/boost");
    reveal_strlit("/intel_pstate/no_turbo");
    reveal_strlit("/sys/devices/system/cpu/cpufreq/boost");
    reveal_strlit("/sys/devices/system/cpu/intel_pstate/no_turbo");
    let a = CpuBoostDriver::CpuFreq.file();
    let b = CpuBoostDriver::IntelPstate.file();
    assert(a.skip(a.len() - 14) =~= "/cpufreq/boost"@);
    assert(b.skip(b.len() - 22) =~= "/intel_pstate/no_turbo"@);
    assert(a.take(24) =~= "/sys/devices/system/cpu/"@);
    assert(b.take(24) =~= "/sys/devices/system/cpu/"@);
}

} // verus!
