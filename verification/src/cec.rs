//! HDMI-CEC: what it is used for, and the hardware that wakes the device.
use crate::enums::{or_unknown, UnknownNumber};
use crate::numbers::{decimal, lemma_decimal, parse_u16, parse_u8, to_decimal, u16_of, u8_of};
use crate::systemd::{EnableState, JobMode};
use crate::text::{
    cut_once, has_no, has_prefix, is_ascii_text, is_digit, lemma_cut_once, lemma_one_line, lines,
    lines_of, lowered, same_text, split_once, starts_with, texts, to_lowercase, unicode_lowered,
    view_of,
};
use vstd::prelude::*;

verus! {

/// What HDMI-CEC is used for.
#[derive(Clone, Copy, Debug, PartialEq, Eq, Structural, Hash)]
pub enum HdmiCecState {
    /// Nothing.
    Disabled,
    /// The television's remote control.
    ControlOnly,
    /// That, and waking the television.
    ControlAndWake,
}

impl HdmiCecState {
    /// The number of the value.
    pub open spec fn number(self) -> u32 {
        match self {
            HdmiCecState::Disabled => 0,
            HdmiCecState::ControlOnly => 1,
            HdmiCecState::ControlAndWake => 2,
        }
    }

    /// The value with a given number.
    pub open spec fn numbered(n: u32) -> Option<HdmiCecState> {
        if n == 0 {
            Some(HdmiCecState::Disabled)
        } else if n == 1 {
            Some(HdmiCecState::ControlOnly)
        } else if n == 2 {
            Some(HdmiCecState::ControlAndWake)
        } else {
            None
        }
    }

    /// The number of the value.
    pub fn to_u32(self) -> (r: u32)
        ensures
            r == self.number(),
    {
        match self {
            HdmiCecState::Disabled => 0,
            HdmiCecState::ControlOnly => 1,
            HdmiCecState::ControlAndWake => 2,
        }
    }

    /// The value with the number `n`.
    pub fn try_from(n: u32) -> (r: Result<HdmiCecState, UnknownNumber>)
        ensures
            r == or_unknown(HdmiCecState::numbered(n), n as i64),
    {
        if n == 0 {
            Ok(HdmiCecState::Disabled)
        } else if n == 1 {
            Ok(HdmiCecState::ControlOnly)
        } else if n == 2 {
            Ok(HdmiCecState::ControlAndWake)
        } else {
            Err(UnknownNumber { number: n as i64 })
        }
    }

    /// The number of a value gives the value back, and no other number does.
    pub proof fn law_number_reads_back(self, n: u32)
        ensures
            HdmiCecState::numbered(n) == Some(self) <==> n == self.number(),
    {
    }
}

/// "No enum match for value", with the lower case of what was given.
#[derive(Debug, PartialEq, Eq)]
pub struct NoEnumMatch {
    pub value: String,
}

impl HdmiCecState {
    /// The value that a text in lower case stands for.
    pub open spec fn spelled(l: Seq<char>) -> Option<HdmiCecState> {
        if l == "disable"@ || l == "disabled"@ || l == "off"@ {
            Some(HdmiCecState::Disabled)
        } else if l == "control-only"@ || l == "controlonly"@ {
            Some(HdmiCecState::ControlOnly)
        } else if l == "control-wake"@ || l == "control-and-wake"@ || l == "controlandwake"@ {
            Some(HdmiCecState::ControlAndWake)
        } else {
            None
        }
    }

    pub open spec fn spelling(self) -> Seq<char> {
        match self {
            HdmiCecState::Disabled => "Disabled"@,
            HdmiCecState::ControlOnly => "ControlOnly"@,
            HdmiCecState::ControlAndWake => "ControlAndWake"@,
        }
    }

    pub open spec fn human_spelling(self) -> Seq<char> {
        match self {
            HdmiCecState::Disabled => "disabled"@,
            HdmiCecState::ControlOnly => "control-only"@,
            HdmiCecState::ControlAndWake => "control-and-wake"@,
        }
    }

    /// Reads a value from a text that is in lower case.
    pub fn from_lowercase(lower: &str) -> (r: Option<HdmiCecState>)
        ensures
            r == HdmiCecState::spelled(lower@),
    {
        if same_text(lower, "disable") || same_text(lower, "disabled") || same_text(lower, "off") {
            Some(HdmiCecState::Disabled)
        } else if same_text(lower, "control-only") || same_text(lower, "controlonly") {
            Some(HdmiCecState::ControlOnly)
        } else if same_text(lower, "control-wake") || same_text(lower, "control-and-wake")
            || same_text(lower, "controlandwake") {
            Some(HdmiCecState::ControlAndWake)
        } else {
            None
        }
    }

    /// Reads a value, in upper or lower case.
    pub fn from_str(input: &str) -> (r: Result<HdmiCecState, NoEnumMatch>)
        ensures
            match HdmiCecState::spelled(unicode_lowered(input@)) {
                Some(state) => r matches Ok(s) && s == state,
                None => r matches Err(e) && e.value@ == unicode_lowered(input@),
            },
            is_ascii_text(input@) ==> match HdmiCecState::spelled(lowered(input@)) {
                Some(state) => r matches Ok(s) && s == state,
                None => r matches Err(e) && e.value@ == lowered(input@),
            },
    {
        let lower: String = to_lowercase(input);
        match HdmiCecState::from_lowercase(lower.as_str()) {
            Some(state) => Ok(state),
            None => Err(NoEnumMatch { value: lower }),
        }
    }

    pub fn to_string(&self) -> (r: String)
        ensures
            r@ == self.spelling(),
    {
        match self {
            HdmiCecState::Disabled => "Disabled".to_owned(),
            HdmiCecState::ControlOnly => "ControlOnly".to_owned(),
            HdmiCecState::ControlAndWake => "ControlAndWake".to_owned(),
        }
    }

    /// The value as it is shown to people.
    #[must_use]
    pub fn to_human_readable(&self) -> (r: &'static str)
        ensures
            r@ == self.human_spelling(),
    {
        match self {
            HdmiCecState::Disabled => "disabled",
            HdmiCecState::ControlOnly => "control-only",
            HdmiCecState::ControlAndWake => "control-and-wake",
        }
    }

    /// Both ways of writing a value read back as the value.
    pub proof fn law_spellings_read_back(self)
        ensures
            is_ascii_text(self.spelling()),
            is_ascii_text(self.human_spelling()),
            HdmiCecState::spelled(lowered(self.spelling())) == Some(self),
            HdmiCecState::spelled(lowered(self.human_spelling())) == Some(self),
    {
        reveal_strlit("Disabled");
        reveal_strlit("ControlOnly");
        reveal_strlit("ControlAndWake");
        reveal_strlit("disable");
        reveal_strlit("disabled");
        reveal_strlit("off");
        reveal_strlit("control-only");
        reveal_strlit("controlonly");
        reveal_strlit("control-wake");
        reveal_strlit("control-and-wake");
        reveal_strlit("controlandwake");
        assert(lowered("Disabled"@) =~= "disabled"@);
        assert(lowered("ControlOnly"@) =~= "controlonly"@);
        assert(lowered("ControlAndWake"@) =~= "controlandwake"@);
        assert(lowered("disabled"@) =~= "disabled"@);
        assert(lowered("control-only"@) =~= "control-only"@);
        assert(lowered("control-and-wake"@) =~= "control-and-wake"@);
        assert("control-only"@.len() == 12);
        assert("control-wake"@.len() == 12);
        assert("controlonly"@.len() == 11);
        assert("controlandwake"@.len() == 14);
        assert("control-and-wake"@.len() == 16);
    }
}

/// Hardware that wakes the device on a message of the television.
#[derive(Clone, Copy, Debug, PartialEq, Eq, Structural)]
pub enum HdmiCecHardware {
    /// The embedded controller of a Chromebook, at one of its ports.
    CrosEc { port: u8 },
}

impl HdmiCecHardware {
    pub fn to_string(&self) -> (r: String)
        ensures
            r@ == "cros_ec"@,
    {
        match self {
            HdmiCecHardware::CrosEc { .. } => "cros_ec".to_owned(),
        }
    }
}

// ---------------------------------------------------------------------------
// Turning CEC on and off
// ---------------------------------------------------------------------------

/// Who handles CEC.
#[derive(Clone, Copy, Debug, PartialEq, Eq, Structural)]
pub enum HdmiCecBackend {
    /// Two services of the desktop.
    Legacy,
    /// The CEC daemon.
    Cecd,
}

/// A service of the desktop.
#[derive(Clone, Copy, Debug, PartialEq, Eq, Structural)]
pub enum CecUnit {
    PlasmaRc,
    Wakehook,
}

impl CecUnit {
    pub fn name(self) -> (r: &'static str)
        ensures
            r@ == match self {
                CecUnit::PlasmaRc => "plasma-remotecontrollers.service"@,
                CecUnit::Wakehook => "wakehook.service"@,
            },
    {
        match self {
            CecUnit::PlasmaRc => "plasma-remotecontrollers.service",
            CecUnit::Wakehook => "wakehook.service",
        }
    }
}

/// What is written to the configuration of the daemon.
#[derive(Clone, Copy, Debug, PartialEq, Eq, Structural)]
pub struct CecdConfigFragment {
    pub wake_tv: bool,
    pub uinput: bool,
}

/// One thing to do; if it fails, those behind it are not done.
#[derive(Clone, Copy, Debug, PartialEq, Eq, Structural)]
pub enum CecAction {
    Mask(CecUnit),
    Unmask(CecUnit),
    Stop(CecUnit, JobMode),
    Start(CecUnit, JobMode),
    DaemonReload,
    /// Write the fragment to the configuration directory of the user.
    WriteConfig(CecdConfigFragment),
    /// Make the daemon read its configuration.
    ReloadCecd,
}

/// What is known when the state is asked for.
#[derive(Clone, Copy, Debug, PartialEq, Eq, Structural)]
pub enum CecStatus {
    /// The state of both unit files; that of the second need not be asked for
    /// if the first one is off.
    Legacy { plasma_rc: EnableState, wakehook: Option<EnableState> },
    Cecd { wake_tv: bool, uinput: bool },
}

pub open spec fn is_on(state: EnableState) -> bool {
    state == EnableState::Enabled || state == EnableState::Static
}

/// The state that a status stands for: `None` if the second unit file has to be
/// asked for and was not.
pub open spec fn state_of(status: CecStatus) -> Option<HdmiCecState> {
    match status {
        CecStatus::Legacy { plasma_rc, wakehook } => if !is_on(plasma_rc) {
            Some(HdmiCecState::Disabled)
        } else {
            match wakehook {
                Some(w) => if is_on(w) {
                    Some(HdmiCecState::ControlAndWake)
                } else {
                    Some(HdmiCecState::ControlOnly)
                },
                None => None,
            }
        },
        CecStatus::Cecd { wake_tv, uinput } => if !uinput {
            Some(HdmiCecState::Disabled)
        } else if wake_tv {
            Some(HdmiCecState::ControlAndWake)
        } else {
            Some(HdmiCecState::ControlOnly)
        },
    }
}

/// The actions that set a state.
pub open spec fn actions_for(backend: HdmiCecBackend, state: HdmiCecState) -> Seq<CecAction> {
    match backend {
        HdmiCecBackend::Legacy => match state {
            HdmiCecState::Disabled => seq![
                CecAction::Mask(CecUnit::PlasmaRc),
                CecAction::Stop(CecUnit::PlasmaRc, JobMode::Fail),
                CecAction::Mask(CecUnit::Wakehook),
                CecAction::Stop(CecUnit::Wakehook, JobMode::Fail),
                CecAction::DaemonReload,
            ],
            HdmiCecState::ControlOnly => seq![
                CecAction::Mask(CecUnit::Wakehook),
                CecAction::Stop(CecUnit::Wakehook, JobMode::Fail),
                CecAction::Unmask(CecUnit::PlasmaRc),
                CecAction::DaemonReload,
                CecAction::Start(CecUnit::PlasmaRc, JobMode::Fail),
            ],
            HdmiCecState::ControlAndWake => seq![
                CecAction::Unmask(CecUnit::PlasmaRc),
                CecAction::Unmask(CecUnit::Wakehook),
                CecAction::DaemonReload,
                CecAction::Start(CecUnit::PlasmaRc, JobMode::Fail),
                CecAction::Start(CecUnit::Wakehook, JobMode::Fail),
            ],
        },
        HdmiCecBackend::Cecd => seq![
            CecAction::WriteConfig(
                CecdConfigFragment {
                    wake_tv: state == HdmiCecState::ControlAndWake,
                    uinput: state != HdmiCecState::Disabled,
                },
            ),
            CecAction::ReloadCecd,
        ],
    }
}

/// What the daemon is told of the device.
#[derive(Debug, PartialEq, Eq)]
pub enum CecdSystemConfig {
    /// Remove the system fragment; that there is none is no error.
    Remove,
    /// Write the name to show and the vendor's identifier, as far as known.
    Write { osd_name: Option<String>, vendor_id: Option<(u8, u8, u8)> },
}

/// The control of CEC.
#[derive(Debug)]
pub struct HdmiCecControl {
    pub backend: HdmiCecBackend,
}

impl HdmiCecControl {
    /// The control; the daemon is preferred if it answers.
    pub fn new(cecd_answers: bool) -> (r: HdmiCecControl)
        ensures
            r.backend == (if cecd_answers {
                HdmiCecBackend::Cecd
            } else {
                HdmiCecBackend::Legacy
            }),
    {
        if cecd_answers {
            HdmiCecControl { backend: HdmiCecBackend::Cecd }
        } else {
            HdmiCecControl { backend: HdmiCecBackend::Legacy }
        }
    }

    /// What is done to the system fragment of the daemon, from what is known of
    /// the device.
    pub fn configure_cecd(friendly_name: Option<String>, oui: Option<(u8, u8, u8)>) -> (r:
        CecdSystemConfig)
        ensures
            r == (if friendly_name is Some || oui is Some {
                CecdSystemConfig::Write { osd_name: friendly_name, vendor_id: oui }
            } else {
                CecdSystemConfig::Remove
            }),
    {
        if friendly_name.is_some() || oui.is_some() {
            CecdSystemConfig::Write { osd_name: friendly_name, vendor_id: oui }
        } else {
            CecdSystemConfig::Remove
        }
    }

    /// The state that a status stands for.
    pub fn get_enabled_state(status: CecStatus) -> (r: Option<HdmiCecState>)
        ensures
            r == state_of(status),
    {
        match status {
            CecStatus::Legacy { plasma_rc, wakehook } => {
                match plasma_rc {
                    EnableState::Enabled => {},
                    EnableState::Static => {},
                    _ => {
                        return Some(HdmiCecState::Disabled);
                    },
                }
                match wakehook {
                    Some(EnableState::Enabled) => Some(HdmiCecState::ControlAndWake),
                    Some(EnableState::Static) => Some(HdmiCecState::ControlAndWake),
                    Some(_) => Some(HdmiCecState::ControlOnly),
                    None => None,
                }
            },
            CecStatus::Cecd { wake_tv, uinput } => match (uinput, wake_tv) {
                (true, true) => Some(HdmiCecState::ControlAndWake),
                (true, false) => Some(HdmiCecState::ControlOnly),
                (false, _) => Some(HdmiCecState::Disabled),
            },
        }
    }

    /// What has to be done, in this order, to set a state.
    pub fn set_enabled_state(&self, state: HdmiCecState) -> (r: Vec<CecAction>)
        ensures
            r@ == actions_for(self.backend, state),
    {
        let mut r: Vec<CecAction> = Vec::new();
        match self.backend {
            HdmiCecBackend::Legacy => match state {
                HdmiCecState::Disabled => {
                    r.push(CecAction::Mask(CecUnit::PlasmaRc));
                    r.push(CecAction::Stop(CecUnit::PlasmaRc, JobMode::Fail));
                    r.push(CecAction::Mask(CecUnit::Wakehook));
                    r.push(CecAction::Stop(CecUnit::Wakehook, JobMode::Fail));
                    r.push(CecAction::DaemonReload);
                },
                HdmiCecState::ControlOnly => {
                    r.push(CecAction::Mask(CecUnit::Wakehook));
                    r.push(CecAction::Stop(CecUnit::Wakehook, JobMode::Fail));
                    r.push(CecAction::Unmask(CecUnit::PlasmaRc));
                    r.push(CecAction::DaemonReload);
                    r.push(CecAction::Start(CecUnit::PlasmaRc, JobMode::Fail));
                },
                HdmiCecState::ControlAndWake => {
                    r.push(CecAction::Unmask(CecUnit::PlasmaRc));
                    r.push(CecAction::Unmask(CecUnit::Wakehook));
                    r.push(CecAction::DaemonReload);
                    r.push(CecAction::Start(CecUnit::PlasmaRc, JobMode::Fail));
                    r.push(CecAction::Start(CecUnit::Wakehook, JobMode::Fail));
                },
            },
            HdmiCecBackend::Cecd => {
                r.push(
                    CecAction::WriteConfig(
                        CecdConfigFragment {
                            wake_tv: state == HdmiCecState::ControlAndWake,
                            uinput: state != HdmiCecState::Disabled,
                        },
                    ),
                );
                r.push(CecAction::ReloadCecd);
            },
        }
        r
    }
}

/// The files of both units, masked or not, and the configuration of the daemon.
pub struct CecFiles {
    pub plasma_rc: EnableState,
    pub wakehook: EnableState,
    pub plasma_rc_masked: bool,
    pub wakehook_masked: bool,
    pub cecd: CecdConfigFragment,
}

/// What an action does to the files.
pub open spec fn acted(f: CecFiles, action: CecAction) -> CecFiles {
    match action {
        CecAction::Mask(CecUnit::PlasmaRc) => CecFiles { plasma_rc_masked: true, ..f },
        CecAction::Mask(CecUnit::Wakehook) => CecFiles { wakehook_masked: true, ..f },
        CecAction::Unmask(CecUnit::PlasmaRc) => CecFiles { plasma_rc_masked: false, ..f },
        CecAction::Unmask(CecUnit::Wakehook) => CecFiles { wakehook_masked: false, ..f },
        CecAction::WriteConfig(fragment) => CecFiles { cecd: fragment, ..f },
        _ => f,
    }
}

pub open spec fn acted_all(f: CecFiles, actions: Seq<CecAction>) -> CecFiles
    decreases actions.len(),
{
    if actions.len() == 0 {
        f
    } else {
        acted(acted_all(f, actions.drop_last()), actions.last())
    }
}

/// The status that the files give.
pub open spec fn status_of(backend: HdmiCecBackend, f: CecFiles) -> CecStatus {
    match backend {
        HdmiCecBackend::Legacy => CecStatus::Legacy {
            plasma_rc: if f.plasma_rc_masked { EnableState::Masked } else { f.plasma_rc },
            wakehook: Some(if f.wakehook_masked { EnableState::Masked } else { f.wakehook }),
        },
        HdmiCecBackend::Cecd => CecStatus::Cecd { wake_tv: f.cecd.wake_tv, uinput: f.cecd.uinput },
    }
}

/// The state that was set is the one that is read, with either backend, if the
/// unit files are enabled where they are not masked.
pub proof fn law_state_reads_back(backend: HdmiCecBackend, f: CecFiles, state: HdmiCecState)
    requires
        is_on(f.plasma_rc),
        is_on(f.wakehook),
    ensures
        state_of(status_of(backend, acted_all(f, actions_for(backend, state)))) == Some(state),
{
    reveal_with_fuel(acted_all, 6);
    let a = actions_for(backend, state);
    if backend == HdmiCecBackend::Legacy {
        assert(a.drop_last().drop_last().drop_last().drop_last().drop_last().len() == 0);
    } else {
        assert(a.drop_last().drop_last().len() == 0);
    }
}

/// Whether a unit runs after the actions, if it ran before them as told.
pub open spec fn runs_after(actions: Seq<CecAction>, unit: CecUnit, before: bool) -> bool
    decreases actions.len(),
{
    if actions.len() == 0 {
        before
    } else {
        match actions.last() {
            CecAction::Start(u, _) if u == unit => true,
            CecAction::Stop(u, _) if u == unit => false,
            _ => runs_after(actions.drop_last(), unit, before),
        }
    }
}

/// Whether the file of a unit is masked after the actions, if it was before them
/// as told.
pub open spec fn masked_after(actions: Seq<CecAction>, unit: CecUnit, before: bool) -> bool
    decreases actions.len(),
{
    if actions.len() == 0 {
        before
    } else {
        match actions.last() {
            CecAction::Mask(u) if u == unit => true,
            CecAction::Unmask(u) if u == unit => false,
            _ => masked_after(actions.drop_last(), unit, before),
        }
    }
}

/// Whether a state uses a unit: the remote control unless CEC is off, the waking
/// only if it is asked for.
pub open spec fn uses_unit(state: HdmiCecState, unit: CecUnit) -> bool {
    match unit {
        CecUnit::PlasmaRc => state != HdmiCecState::Disabled,
        CecUnit::Wakehook => state == HdmiCecState::ControlAndWake,
    }
}

/// With the services of the desktop, each unit runs after the actions exactly if
/// the state uses it, and is masked exactly if the state does not, whatever was
/// before. A unit is started only when its file is not masked and the service
/// manager has reloaded since. No job replaces another.
pub proof fn law_units_follow_state(state: HdmiCecState, unit: CecUnit, ran: bool, masked: bool)
    ensures
        ({
            let actions = actions_for(HdmiCecBackend::Legacy, state);
            &&& runs_after(actions, unit, ran) == uses_unit(state, unit)
            &&& masked_after(actions, unit, masked) == !uses_unit(state, unit)
            &&& actions.contains(CecAction::DaemonReload)
            &&& forall|i: int, mode: JobMode|
                0 <= i < actions.len() && #[trigger] actions[i] == #[trigger] start_of(unit, mode)
                    ==> mode == JobMode::Fail && !masked_after(actions.take(i), unit, masked)
                    && actions[i - 1] != CecAction::Unmask(unit) && actions.take(i).contains(
                    CecAction::DaemonReload,
                )
            &&& forall|i: int, mode: JobMode|
                0 <= i < actions.len() && #[trigger] actions[i] == #[trigger] stop_of(unit, mode)
                    ==> mode == JobMode::Fail
            &&& forall|i: int|
                0 <= i < actions.len() ==> !(#[trigger] actions[i] is WriteConfig)
                    && !(actions[i] is ReloadCecd)
        }),
{
    reveal_with_fuel(runs_after, 6);
    reveal_with_fuel(masked_after, 6);
    let a = actions_for(HdmiCecBackend::Legacy, state);
    assert(a.len() == 5);
    let a4 = a.drop_last();
    let a3 = a4.drop_last();
    let a2 = a3.drop_last();
    let a1 = a2.drop_last();
    assert(a1.drop_last().len() == 0);
    assert(a.take(4) =~= a4);
    assert(a.take(3) =~= a3);
    assert(a.take(2) =~= a2);
    assert(a.take(1) =~= a1);
    assert(a.take(0) =~= a1.drop_last());
    match state {
        HdmiCecState::Disabled => {
            assert(a[4] == CecAction::DaemonReload);
        },
        HdmiCecState::ControlOnly => {
            assert(a[3] == CecAction::DaemonReload);
            assert(a4[3] == CecAction::DaemonReload);
        },
        HdmiCecState::ControlAndWake => {
            assert(a[2] == CecAction::DaemonReload);
            assert(a3[2] == CecAction::DaemonReload);
            assert(a4[2] == CecAction::DaemonReload);
        },
    }
}

pub open spec fn start_of(unit: CecUnit, mode: JobMode) -> CecAction {
    CecAction::Start(unit, mode)
}

pub open spec fn stop_of(unit: CecUnit, mode: JobMode) -> CecAction {
    CecAction::Stop(unit, mode)
}

/// With the daemon, its configuration is written before it is made to read it,
/// and no unit is touched. The remote control works unless CEC is off, and the
/// television is woken only if that is asked for.
pub proof fn law_cecd_follows_state(state: HdmiCecState)
    ensures
        ({
            let actions = actions_for(HdmiCecBackend::Cecd, state);
            &&& actions.len() == 2
            &&& actions[0] matches CecAction::WriteConfig(f) && (f.uinput <==> state
                != HdmiCecState::Disabled) && (f.wake_tv <==> state == HdmiCecState::ControlAndWake)
            &&& actions[1] == CecAction::ReloadCecd
        }),
{
}

/// The state of the desktop's services: off exactly if the file of the remote
/// control is not enabled, else waking exactly if the other file is. Only files
/// that are enabled or static count.
pub proof fn law_legacy_state(plasma_rc: EnableState, wakehook: Option<EnableState>)
    ensures
        ({
            let state = state_of(CecStatus::Legacy { plasma_rc, wakehook });
            let remote = plasma_rc == EnableState::Enabled || plasma_rc == EnableState::Static;
            let wakes = wakehook == Some(EnableState::Enabled) || wakehook == Some(
                EnableState::Static,
            );
            &&& state == Some(HdmiCecState::Disabled) <==> !remote
            &&& state == Some(HdmiCecState::ControlAndWake) <==> remote && wakes
            &&& state == Some(HdmiCecState::ControlOnly) <==> remote && wakehook is Some && !wakes
            &&& state is None <==> remote && wakehook is None
        }),
{
}

/// The state of the daemon: off exactly if it makes no input device, else waking
/// exactly if it wakes the television.
pub proof fn law_cecd_state(wake_tv: bool, uinput: bool)
    ensures
        ({
            let state = state_of(CecStatus::Cecd { wake_tv, uinput });
            &&& state == Some(HdmiCecState::Disabled) <==> !uinput
            &&& state == Some(HdmiCecState::ControlAndWake) <==> uinput && wake_tv
            &&& state == Some(HdmiCecState::ControlOnly) <==> uinput && !wake_tv
        }),
{
}

// ---------------------------------------------------------------------------
// The embedded controller
// ---------------------------------------------------------------------------

/// What the embedded controller holds for a port: what follows the port's
/// number and a blank in the first line that starts with them.
pub open spec fn port_entry(rows: Seq<Seq<char>>, port: u8) -> Option<Seq<char>>
    decreases rows.len(),
{
    if rows.len() == 0 {
        None
    } else {
        match cut_once(rows[0], ' ') {
            Some((p, entry)) => if u8_of(p) == Some(port) {
                Some(entry)
            } else {
                port_entry(rows.skip(1), port)
            },
            None => port_entry(rows.skip(1), port),
        }
    }
}

/// Why the embedded controller cannot be used.
#[derive(Clone, Copy, Debug, PartialEq, Eq, Structural)]
pub enum CecHwError {
    /// "HDMI CEC hardware not configured".
    NotConfigured,
    /// "HDMI CEC hardware not supported".
    NotSupported,
    /// "Port not found".
    PortNotFound,
    /// The address is no number.
    BadAddress,
}

impl CecHwError {
    /// What is reported, where it is worded here and not by what failed.
    pub open spec fn text(self) -> Option<Seq<char>> {
        match self {
            CecHwError::NotConfigured => Some("HDMI CEC hardware not configured"@),
            CecHwError::NotSupported => Some("HDMI CEC hardware not supported"@),
            CecHwError::PortNotFound => Some("Port not found"@),
            CecHwError::BadAddress => None,
        }
    }

    /// What is reported, where it is worded here and not by what failed.
    pub fn message(self) -> (r: Option<String>)
        ensures
            view_of(r) == self.text(),
    {
        match self {
            CecHwError::NotConfigured => Some("HDMI CEC hardware not configured".to_owned()),
            CecHwError::NotSupported => Some("HDMI CEC hardware not supported".to_owned()),
            CecHwError::PortNotFound => Some("Port not found".to_owned()),
            CecHwError::BadAddress => None,
        }
    }
}

/// A port of the embedded controller of a Chromebook.
#[derive(Debug)]
pub struct CrosEcHwController {
    pub port: u8,
}

impl CrosEcHwController {
    fn entry(&self, contents: &str) -> (r: Option<String>)
        ensures
            match r {
                Some(entry) => port_entry(lines_of(contents@), self.port) == Some(entry@),
                None => port_entry(lines_of(contents@), self.port) is None,
            },
    {
        let rows: Vec<String> = lines(contents);
        let mut i: usize = 0;
        assert(texts(rows@).skip(0) =~= texts(rows@));
        while i < rows.len()
            invariant
                i <= rows@.len(),
                texts(rows@) == lines_of(contents@),
                port_entry(texts(rows@), self.port) == port_entry(
                    texts(rows@).skip(i as int),
                    self.port,
                ),
            decreases rows@.len() - i,
        {
            assert(texts(rows@).skip(i as int).skip(1) =~= texts(rows@).skip(i + 1));
            assert(texts(rows@).skip(i as int)[0] == rows@[i as int]@);
            match split_once(rows[i].as_str(), ' ') {
                Some((port, entry)) => match parse_u8(port.as_str()) {
                    Some(port) => {
                        if port == self.port {
                            return Some(entry);
                        }
                    },
                    None => {},
                },
                None => {},
            }
            i = i + 1;
        }
        None
    }

    /// Whether the controller knows the port; `contents` is the table of ports
    /// that may wake the device.
    pub fn can_awaken(&self, contents: &str) -> (r: bool)
        ensures
            r == (port_entry(lines_of(contents@), self.port) is Some),
    {
        self.entry(contents).is_some()
    }

    /// Whether the port may wake the device.
    pub fn get_awaken(&self, contents: &str) -> (r: Result<bool, CecHwError>)
        ensures
            r == match port_entry(lines_of(contents@), self.port) {
                Some(entry) => Ok::<bool, CecHwError>(entry == "1"@),
                None => Err(CecHwError::PortNotFound),
            },
    {
        match self.entry(contents) {
            Some(entry) => Ok(same_text(entry.as_str(), "1")),
            None => Err(CecHwError::PortNotFound),
        }
    }

    /// What is written to let the port wake the device, or not.
    pub fn set_awaken(&self, awaken: bool) -> (r: String)
        ensures
            r@ == entry_line(self.port, awaken_entry(awaken)),
    {
        let mut r: String = to_decimal(self.port as u64);
        r.append(" ");
        if awaken {
            r.append("1");
        } else {
            r.append("0");
        }
        r.append("\n");
        r
    }

    /// The physical address of the port.
    pub fn get_phys_addr(&self, contents: &str) -> (r: Result<u16, CecHwError>)
        ensures
            r == match port_entry(lines_of(contents@), self.port) {
                Some(entry) => match u16_of(entry) {
                    Some(address) => Ok::<u16, CecHwError>(address),
                    None => Err(CecHwError::BadAddress),
                },
                None => Err(CecHwError::PortNotFound),
            },
    {
        match self.entry(contents) {
            Some(entry) => match parse_u16(entry.as_str()) {
                Some(address) => Ok(address),
                None => Err(CecHwError::BadAddress),
            },
            None => Err(CecHwError::PortNotFound),
        }
    }

    /// What is written to set the physical address of the port.
    pub fn set_phys_addr(&self, phys_addr: u16) -> (r: String)
        ensures
            r@ == entry_line(self.port, decimal(phys_addr as nat)),
    {
        let mut r: String = to_decimal(self.port as u64);
        r.append(" ");
        r.append(to_decimal(phys_addr as u64).as_str());
        r.append("\n");
        r
    }
}

pub open spec fn awaken_entry(awaken: bool) -> Seq<char> {
    if awaken {
        "1"@
    } else {
        "0"@
    }
}

/// The line that sets what the controller holds for a port.
pub open spec fn entry_line(port: u8, entry: Seq<char>) -> Seq<char> {
    decimal(port as nat) + " "@ + entry + "\n"@
}

/// The hardware that a device is configured with, if its port is known to the
/// controller; `contents` is the table of ports that may wake the device.
pub fn cec_hw_controller(hardware: Option<HdmiCecHardware>, contents: &str) -> (r: Result<
    CrosEcHwController,
    CecHwError,
>)
    ensures
        match hardware {
            None => r matches Err(e) && e == CecHwError::NotConfigured,
            Some(HdmiCecHardware::CrosEc { port }) => if port_entry(
                lines_of(contents@),
                port,
            ) is Some {
                r matches Ok(c) && c.port == port
            } else {
                r matches Err(e) && e == CecHwError::NotSupported
            },
        },
{
    match hardware {
        None => Err(CecHwError::NotConfigured),
        Some(HdmiCecHardware::CrosEc { port }) => {
            let controller = CrosEcHwController { port };
            if controller.can_awaken(contents) {
                Ok(controller)
            } else {
                Err(CecHwError::NotSupported)
            }
        },
    }
}

proof fn lemma_entry_line(port: u8, entry: Seq<char>)
    requires
        entry.len() > 0,
        has_no(entry, '\n'),
        entry.last() != '\r',
    ensures
        port_entry(lines_of(entry_line(port, entry)), port) == Some(entry),
{
    reveal_strlit(" ");
    reveal_strlit("\n");
    let d = decimal(port as nat);
    lemma_decimal(port as nat);
    let line = d.push(' ') + entry;
    assert(entry_line(port, entry) =~= line.push('\n'));
    assert forall|i: int| 0 <= i < line.len() implies #[trigger] line[i] != '\n' by {
        if i < d.len() {
            assert(is_digit(d[i]));
        } else if i > d.len() {
            assert(line[i] == entry[i - d.len() - 1]);
        }
    }
    assert(line.last() == entry.last());
    lemma_one_line(line);
    assert forall|i: int| 0 <= i < d.len() implies #[trigger] d[i] != ' ' by {
        assert(is_digit(d[i]));
    }
    lemma_cut_once(d, ' ', entry);
    assert(u8_of(d) == Some(port));
}

/// Whether the port may wake the device reads back as it was set.
pub proof fn law_awaken_reads_back(port: u8, awaken: bool)
    ensures
        port_entry(lines_of(entry_line(port, awaken_entry(awaken))), port) == Some(
            awaken_entry(awaken),
        ),
        (awaken_entry(awaken) == "1"@) == awaken,
{
    reveal_strlit("0");
    reveal_strlit("1");
    assert("0"@[0] == '0');
    assert("1"@[0] == '1');
    lemma_entry_line(port, awaken_entry(awaken));
}

/// The physical address of the port reads back as it was set.
pub proof fn law_phys_addr_reads_back(port: u8, phys_addr: u16)
    ensures
        port_entry(lines_of(entry_line(port, decimal(phys_addr as nat))), port) == Some(
            decimal(phys_addr as nat),
        ),
        u16_of(decimal(phys_addr as nat)) == Some(phys_addr),
{
    let d = decimal(phys_addr as nat);
    lemma_decimal(phys_addr as nat);
    assert forall|i: int| 0 <= i < d.len() implies #[trigger] d[i] != '\n' by {
        assert(is_digit(d[i]));
    }
    assert(is_digit(d[d.len() - 1]));
    lemma_entry_line(port, d);
}

/// What is held for a port is in the first line for it: lines for other ports,
/// and lines that are for none, are passed over.
pub proof fn law_first_line_of_port_counts(rows: Seq<Seq<char>>, port: u8)
    requires
        rows.len() > 0,
    ensures
        match cut_once(rows[0], ' ') {
            Some((p, entry)) => if u8_of(p) == Some(port) {
                port_entry(rows, port) == Some(entry)
            } else {
                port_entry(rows, port) == port_entry(rows.skip(1), port)
            },
            None => port_entry(rows, port) == port_entry(rows.skip(1), port),
        },
        port_entry(Seq::empty(), port) is None,
{
}

// ---------------------------------------------------------------------------
// Following the daemon's address
// ---------------------------------------------------------------------------

/// Why the address of the daemon is not followed.
#[derive(Clone, Copy, Debug, PartialEq, Eq, Structural)]
pub enum CecdServiceError {
    /// "No supported cec hardware backend found".
    NoHardware,
    /// "Not using cecd".
    NotCecd,
    /// "No CEC device found".
    NoDevice,
}

impl CecdServiceError {
    pub open spec fn text(self) -> Seq<char> {
        match self {
            CecdServiceError::NoHardware => "No supported cec hardware backend found"@,
            CecdServiceError::NotCecd => "Not using cecd"@,
            CecdServiceError::NoDevice => "No CEC device found"@,
        }
    }

    /// What is reported.
    pub fn message(self) -> (r: String)
        ensures
            r@ == self.text(),
    {
        match self {
            CecdServiceError::NoHardware => "No supported cec hardware backend found".to_owned(),
            CecdServiceError::NotCecd => "Not using cecd".to_owned(),
            CecdServiceError::NoDevice => "No CEC device found".to_owned(),
        }
    }
}

/// An object of the daemon: its path and its interfaces.
#[derive(Debug, PartialEq, Eq)]
pub struct CecObject {
    pub path: String,
    pub interfaces: Vec<String>,
}

/// Whether an object is a CEC device.
pub open spec fn is_cec_device(o: CecObject) -> bool {
    &&& has_prefix(o.path@, "/com/steampowered/CecDaemon1/Devices"@)
    &&& exists|i: int|
        0 <= i < o.interfaces@.len() && #[trigger] o.interfaces@[i]@
            == "com.steampowered.CecDaemon1.CecDevice1"@
}

fn check_cec_device(o: &CecObject) -> (r: bool)
    ensures
        r == is_cec_device(*o),
{
    if !starts_with(o.path.as_str(), "/com/steampowered/CecDaemon1/Devices") {
        return false;
    }
    for i in 0..o.interfaces.len()
        invariant
            has_prefix(o.path@, "/com/steampowered/CecDaemon1/Devices"@),
            forall|j: int|
                0 <= j < i ==> #[trigger] o.interfaces@[j]@
                    != "com.steampowered.CecDaemon1.CecDevice1"@,
    {
        if same_text(o.interfaces[i].as_str(), "com.steampowered.CecDaemon1.CecDevice1") {
            return true;
        }
    }
    false
}

/// What happens while the address is followed.
#[derive(Clone, Copy, Debug, PartialEq, Eq, Structural)]
pub enum CecdEvent {
    /// The service starts, or the address changed; it is now this.
    Address(u16),
    /// The daemon tells of no more changes.
    Ended,
}

/// What is done then.
#[derive(Clone, Copy, Debug, PartialEq, Eq, Structural)]
pub enum CecdReaction {
    /// Hand the address to the hardware and wait for the next change.
    SetPhysAddr(u16),
    Finish,
}

/// The service that hands the daemon's address to the hardware.
#[derive(Debug)]
pub struct CecdService {
    /// The path of the device.
    pub device: String,
}

impl CecdService {
    /// The service for the last device among the daemon's objects, in the order
    /// in which they came.
    pub fn new(can_awaken: bool, hdmi_cec: &HdmiCecControl, objects: &Vec<CecObject>) -> (r: Result<
        CecdService,
        CecdServiceError,
    >)
        ensures
            match r {
                Ok(s) => {
                    &&& can_awaken
                    &&& hdmi_cec.backend == HdmiCecBackend::Cecd
                    &&& exists|i: int|
                        {
                            &&& 0 <= i < objects@.len()
                            &&& is_cec_device(#[trigger] objects@[i])
                            &&& objects@[i].path@ == s.device@
                            &&& forall|j: int|
                                i < j < objects@.len() ==> !is_cec_device(#[trigger] objects@[j])
                        }
                },
                Err(e) => if !can_awaken {
                    e == CecdServiceError::NoHardware
                } else if hdmi_cec.backend != HdmiCecBackend::Cecd {
                    e == CecdServiceError::NotCecd
                } else {
                    e == CecdServiceError::NoDevice && forall|j: int|
                        0 <= j < objects@.len() ==> !is_cec_device(#[trigger] objects@[j])
                },
            },
    {
        if !can_awaken {
            return Err(CecdServiceError::NoHardware);
        }
        if hdmi_cec.backend != HdmiCecBackend::Cecd {
            return Err(CecdServiceError::NotCecd);
        }
        let mut i: usize = objects.len();
        while i > 0
            invariant
                i <= objects@.len(),
                can_awaken,
                hdmi_cec.backend == HdmiCecBackend::Cecd,
                forall|j: int| i <= j < objects@.len() ==> !is_cec_device(#[trigger] objects@[j]),
            decreases i,
        {
            i = i - 1;
            if check_cec_device(&objects[i]) {
                assert(is_cec_device(objects@[i as int]));
                return Ok(CecdService { device: objects[i].path.clone() });
            }
        }
        Err(CecdServiceError::NoDevice)
    }

    /// What the service does on an event.
    pub fn run(&self, event: CecdEvent) -> (r: CecdReaction)
        ensures
            r == match event {
                CecdEvent::Address(address) => CecdReaction::SetPhysAddr(address),
                CecdEvent::Ended => CecdReaction::Finish,
            },
    {
        match event {
            CecdEvent::Address(address) => CecdReaction::SetPhysAddr(address),
            CecdEvent::Ended => CecdReaction::Finish,
        }
    }
}

/// A device is an object below the directory of devices that has the interface
/// of one; more interfaces and longer paths do not change that.
pub proof fn law_cec_devices(o: CecObject, i: int, tail: Seq<char>)
    requires
        0 <= i < o.interfaces@.len(),
        o.interfaces@[i]@ == "com.steampowered.CecDaemon1.CecDevice1"@,
    ensures
        o.path@ == "/com/steampowered/CecDaemon1/Devices"@ + tail ==> is_cec_device(o),
        is_cec_device(o) ==> o.path@ == "/com/steampowered/CecDaemon1/Devices"@ + o.path@.skip(
            "/com/steampowered/CecDaemon1/Devices"@.len() as int,
        ),
{
    let p = "/com/steampowered/CecDaemon1/Devices"@;
    assert((p + tail).take(p.len() as int) =~= p);
    if is_cec_device(o) {
        assert(o.path@ =~= p + o.path@.skip(p.len() as int));
    }
}

/// An object without the interface of a device is none.
pub proof fn law_other_objects(o: CecObject)
    requires
        forall|i: int|
            0 <= i < o.interfaces@.len() ==> (#[trigger] o.interfaces@[i])@
                != "com.steampowered.CecDaemon1.CecDevice1"@,
    ensures
        !is_cec_device(o),
{
}

} // verus!
