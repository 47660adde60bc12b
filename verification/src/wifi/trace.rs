//! Tracing Wi-Fi, and dumps of its firmware.
use crate::numbers::{decimal, to_decimal};
use crate::power::tdp::OpenOutcome;
use crate::systemd::JobMode;
use crate::text::{concat, same_text, texts, view_of};
use crate::wifi::network::NmError;
use crate::wifi::values::{WifiBackend, WifiDebugMode};
use vstd::prelude::*;

verus! {

/// What makes the iwd service print debug output.
pub const OVERRIDE_CONTENTS: &'static str =
    "[Service]\nExecStart=\nExecStart=/usr/lib/iwd/iwd -d\n";

pub const OVERRIDE_FOLDER: &'static str = "/etc/systemd/system/iwd.service.d";

pub const OVERRIDE_PATH: &'static str =
    "/etc/systemd/system/iwd.service.d/99-valve-override.conf";

pub const TRACE_CMD_PATH: &'static str = "/usr/bin/trace-cmd";

/// The trace buffer has to be larger than this.
pub const MIN_BUFFER_SIZE: u32 = 100;

/// What is done to the override of the iwd service.
#[derive(Debug, PartialEq, Eq)]
pub enum OverrideAction {
    /// Make the folder and write the file.
    Write { folder: String, path: String, contents: String },
    /// Remove the file; that there is none is no error.
    Remove { path: String },
}

/// Puts the override in place or removes it.
pub fn setup_iwd_config(want_override: bool) -> (r: OverrideAction)
    ensures
        match r {
            OverrideAction::Write { folder, path, contents } => {
                &&& want_override
                &&& folder@ == OVERRIDE_FOLDER@
                &&& path@ == OVERRIDE_PATH@
                &&& contents@ == OVERRIDE_CONTENTS@
            },
            OverrideAction::Remove { path } => !want_override && path@ == OVERRIDE_PATH@,
        },
{
    if want_override {
        OverrideAction::Write {
            folder: OVERRIDE_FOLDER.to_owned(),
            path: OVERRIDE_PATH.to_owned(),
            contents: OVERRIDE_CONTENTS.to_owned(),
        }
    } else {
        OverrideAction::Remove { path: OVERRIDE_PATH.to_owned() }
    }
}

/// The arguments of `trace-cmd` that start a trace.
pub fn start_tracing(buffer_size: u32) -> (r: Vec<String>)
    ensures
        texts(r@) == seq![
            "start"@,
            "-e"@,
            "ath11k_wmi_diag"@,
            "-b"@,
            decimal(buffer_size as nat),
        ],
{
    let mut r: Vec<String> = Vec::new();
    r.push("start".to_owned());
    r.push("-e".to_owned());
    r.push("ath11k_wmi_diag".to_owned());
    r.push("-b".to_owned());
    r.push(to_decimal(buffer_size as u64));
    assert(texts(r@) =~= seq![
        "start"@,
        "-e"@,
        "ath11k_wmi_diag"@,
        "-b"@,
        decimal(buffer_size as nat),
    ]);
    r
}

/// The arguments of `trace-cmd` that end a trace.
pub fn stop_tracing() -> (r: Vec<String>)
    ensures
        texts(r@) == seq!["stop"@],
{
    let mut r: Vec<String> = Vec::new();
    r.push("stop".to_owned());
    assert(texts(r@) =~= seq!["stop"@]);
    r
}

/// The arguments of `trace-cmd` that write the trace to `path`.
pub fn extract_wifi_trace(path: &str) -> (r: Vec<String>)
    ensures
        texts(r@) == seq!["extract"@, "-o"@, path@],
{
    let mut r: Vec<String> = Vec::new();
    r.push("extract".to_owned());
    r.push("-o".to_owned());
    r.push(path.to_owned());
    assert(texts(r@) =~= seq!["extract"@, "-o"@, path@]);
    r
}

/// A step of changing the debug mode; if one fails, those behind it are not
/// done.
#[derive(Clone, Copy, Debug, PartialEq, Eq, Structural)]
pub enum DebugStep {
    StopTracing,
    /// Put the override in place, or remove it.
    SetupIwdConfig(bool),
    /// Make the service manager reload, then restart iwd.
    RestartIwd(JobMode),
    StartTracing(u32),
}

/// Why the debug mode cannot be changed.
#[derive(Clone, Copy, Debug, PartialEq, Eq, Structural)]
pub enum DebugModeError {
    /// The settings could not be read.
    Settings(NmError),
    /// "Setting Wi-Fi debug mode not supported with backend ...".
    Backend(WifiBackend),
    /// "Buffer size too small".
    BufferTooSmall,
}

impl DebugModeError {
    /// What is reported, where it is worded here and not by what failed.
    pub open spec fn text(self) -> Option<Seq<char>> {
        match self {
            DebugModeError::Settings(e) => e.text(),
            DebugModeError::Backend(backend) => Some(
                "Setting Wi-Fi debug mode not supported with backend "@ + backend.spelling(),
            ),
            DebugModeError::BufferTooSmall => Some("Buffer size too small"@),
        }
    }

    /// What is reported, where it is worded here and not by what failed.
    pub fn message(self) -> (r: Option<String>)
        ensures
            view_of(r) == self.text(),
    {
        match self {
            DebugModeError::Settings(e) => e.message(),
            DebugModeError::Backend(backend) => Some(
                concat(
                    "Setting Wi-Fi debug mode not supported with backend ",
                    backend.to_string().as_str(),
                ),
            ),
            DebugModeError::BufferTooSmall => Some("Buffer size too small".to_owned()),
        }
    }
}

/// The steps of changing the debug mode, in their order.
pub open spec fn debug_steps(mode: WifiDebugMode, buffer_size: u32, should_trace: bool) -> Seq<
    DebugStep,
> {
    match mode {
        WifiDebugMode::Off => {
            let rest = seq![
                DebugStep::SetupIwdConfig(false),
                DebugStep::RestartIwd(JobMode::Fail),
            ];
            if should_trace {
                seq![DebugStep::StopTracing] + rest
            } else {
                rest
            }
        },
        WifiDebugMode::Tracing => {
            let rest = seq![
                DebugStep::SetupIwdConfig(true),
                DebugStep::RestartIwd(JobMode::Fail),
            ];
            if should_trace {
                rest.push(DebugStep::StartTracing(buffer_size))
            } else {
                rest
            }
        },
    }
}

/// The steps that change the debug mode; `backend` is the current one, if it
/// could be read, and `should_trace` tells whether the device can be traced.
pub fn set_wifi_debug_mode(
    backend: Result<WifiBackend, NmError>,
    mode: WifiDebugMode,
    buffer_size: u32,
    should_trace: bool,
) -> (r: Result<Vec<DebugStep>, DebugModeError>)
    ensures
        match backend {
            Err(e) => r matches Err(f) && f == DebugModeError::Settings(e),
            Ok(WifiBackend::WPASupplicant) => r matches Err(f) && f == DebugModeError::Backend(
                WifiBackend::WPASupplicant,
            ),
            Ok(WifiBackend::Iwd) => if mode == WifiDebugMode::Tracing && buffer_size
                <= MIN_BUFFER_SIZE {
                r matches Err(f) && f == DebugModeError::BufferTooSmall
            } else {
                r matches Ok(steps) && steps@ == debug_steps(mode, buffer_size, should_trace)
            },
        },
{
    match backend {
        Ok(WifiBackend::Iwd) => {},
        Ok(backend) => {
            return Err(DebugModeError::Backend(backend));
        },
        Err(e) => {
            return Err(DebugModeError::Settings(e));
        },
    }
    let mut steps: Vec<DebugStep> = Vec::new();
    match mode {
        WifiDebugMode::Off => {
            if should_trace {
                steps.push(DebugStep::StopTracing);
            }
            steps.push(DebugStep::SetupIwdConfig(false));
            steps.push(DebugStep::RestartIwd(JobMode::Fail));
        },
        WifiDebugMode::Tracing => {
            if buffer_size <= MIN_BUFFER_SIZE {
                return Err(DebugModeError::BufferTooSmall);
            }
            steps.push(DebugStep::SetupIwdConfig(true));
            steps.push(DebugStep::RestartIwd(JobMode::Fail));
            if should_trace {
                steps.push(DebugStep::StartTracing(buffer_size));
            }
        },
    }
    assert(steps@ =~= debug_steps(mode, buffer_size, should_trace));
    Ok(steps)
}

/// Whether the override is in place after some steps.
pub open spec fn override_after(before: bool, steps: Seq<DebugStep>) -> bool
    decreases steps.len(),
{
    if steps.len() == 0 {
        before
    } else {
        match steps.last() {
            DebugStep::SetupIwdConfig(wanted) => wanted,
            _ => override_after(before, steps.drop_last()),
        }
    }
}

/// iwd is restarted once, with the override changed before that. The tracing is
/// stopped before anything else, if it is switched off, and started behind
/// everything else, with the buffer that is asked for, if it is switched on; both
/// only on a device that can be traced.
pub proof fn law_debug_steps_in_order(
    mode: WifiDebugMode,
    buffer_size: u32,
    should_trace: bool,
    i: int,
)
    requires
        0 <= i < debug_steps(mode, buffer_size, should_trace).len(),
    ensures
        ({
            let s = debug_steps(mode, buffer_size, should_trace);
            let tracing = mode == WifiDebugMode::Tracing;
            &&& (s[i] is StopTracing <==> !tracing && should_trace && i == 0)
            &&& (s[i] is StartTracing <==> tracing && should_trace && i == s.len() - 1)
            &&& (s[i] matches DebugStep::StartTracing(size) ==> size == buffer_size)
            &&& (s[i] matches DebugStep::SetupIwdConfig(wanted) ==> wanted == tracing && i + 1
                < s.len() && s[i + 1] is RestartIwd)
            &&& (s[i] matches DebugStep::RestartIwd(mode) ==> mode == JobMode::Fail && i > 0
                && s[i - 1] is SetupIwdConfig)
            &&& s.contains(DebugStep::RestartIwd(JobMode::Fail))
            &&& s.contains(DebugStep::SetupIwdConfig(tracing))
            &&& s.no_duplicates()
            &&& s.len() == (if should_trace {
                3nat
            } else {
                2nat
            })
        }),
{
    let s = debug_steps(mode, buffer_size, should_trace);
    let k: int = if mode == WifiDebugMode::Off && should_trace {
        1
    } else {
        0
    };
    assert(s[k] == DebugStep::SetupIwdConfig(mode == WifiDebugMode::Tracing));
    assert(s[k + 1] == DebugStep::RestartIwd(JobMode::Fail));
}

/// The override is in place after tracing was switched on, and gone after it was
/// switched off.
pub proof fn law_override_follows_mode(
    before: bool,
    mode: WifiDebugMode,
    buffer_size: u32,
    should_trace: bool,
)
    ensures
        override_after(before, debug_steps(mode, buffer_size, should_trace)) == (mode
            == WifiDebugMode::Tracing),
{
    reveal_with_fuel(override_after, 4);
    let s = debug_steps(mode, buffer_size, should_trace);
    assert(s.len() >= 2);
}

/// Whether a device event tells of the crash that a dump is made of: the device
/// was added, and its failing driver is that of the Wi-Fi chip.
pub fn is_wifi_crash(added: bool, driver: &Option<String>) -> (r: bool)
    ensures
        r == (added && (driver matches Some(d) && d@ == "ath11k_pci"@)),
{
    if !added {
        return false;
    }
    match driver {
        Some(d) => same_text(d.as_str(), "ath11k_pci"),
        None => false,
    }
}

/// "Cound not create SLS helper block".
#[derive(Clone, Copy, Debug, PartialEq, Eq, Structural)]
pub struct NoHelperBlock;

/// Whether the file that keeps the log submitter away from the dump has to be
/// removed afterwards, from what came of creating it. That its folder is
/// missing is no error: there is no log submitter then.
pub fn generate_wifi_dump(created: OpenOutcome) -> (r: Result<bool, NoHelperBlock>)
    ensures
        r == match created {
            OpenOutcome::Opened => Ok::<bool, NoHelperBlock>(true),
            OpenOutcome::NotFound => Ok(false),
            _ => Err(NoHelperBlock),
        },
{
    match created {
        OpenOutcome::Opened => Ok(true),
        OpenOutcome::NotFound => Ok(false),
        _ => Err(NoHelperBlock),
    }
}

} // verus!
