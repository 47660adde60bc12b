//! Settings as the command line tool prints them.
use crate::cec::HdmiCecState;
use crate::hardware::FanControlState;
use crate::numbers::{decimal, to_decimal};
use crate::power::{CPUBoostState, CPUScalingGovernor};
use crate::screenreader::ScreenReaderMode;
use crate::text::{has_no, lemma_one_line, lines_of};
use crate::wifi::{WifiBackend, WifiDebugMode, WifiPowerManagement};
use vstd::prelude::*;

verus! {

/// A setting behind its label.
pub open spec fn labelled(label: Seq<char>, value: Seq<char>) -> Seq<char> {
    label + ": "@ + value + "\n"@
}

/// What is printed of a value that is not known.
pub open spec fn unknown_value(value: Seq<char>) -> Seq<char> {
    "Got unknown value "@ + value + " from backend\n"@
}

/// A setting behind its label.
pub fn print_labelled(label: &str, value: &str) -> (r: String)
    ensures
        r@ == labelled(label@, value@),
{
    let mut r: String = label.to_owned();
    r.append(": ");
    r.append(value);
    r.append("\n");
    r
}

/// A number behind its label.
pub fn print_number(label: &str, value: u32) -> (r: String)
    ensures
        r@ == labelled(label@, decimal(value as nat)),
{
    print_labelled(label, to_decimal(value as u64).as_str())
}

fn print_unknown(value: &str) -> (r: String)
    ensures
        r@ == unknown_value(value@),
{
    let mut r: String = "Got unknown value ".to_owned();
    r.append(value);
    r.append(" from backend\n");
    r
}

pub fn print_fan_control_state(state: u32) -> (r: String)
    ensures
        r@ == match FanControlState::numbered(state) {
            Some(s) => labelled("Fan control state"@, s.spelling()),
            None => unknown_value(decimal(state as nat)),
        },
{
    match FanControlState::try_from(state) {
        Ok(s) => print_labelled("Fan control state", s.to_string().as_str()),
        Err(_) => print_unknown(to_decimal(state as u64).as_str()),
    }
}

pub fn print_cpu_scaling_governor(governor: &str) -> (r: String)
    ensures
        r@ == (if CPUScalingGovernor::spelled(governor@) is Some {
            labelled("CPU Governor"@, governor@)
        } else {
            "Unknown CPU governor or unable to get type from "@ + governor@ + "\n"@
        }),
{
    match CPUScalingGovernor::from_str(governor) {
        Ok(_) => print_labelled("CPU Governor", governor),
        Err(_) => {
            let mut r: String = "Unknown CPU governor or unable to get type from ".to_owned();
            r.append(governor);
            r.append("\n");
            r
        },
    }
}

pub fn print_cpu_boost_state(state: u32) -> (r: String)
    ensures
        r@ == match CPUBoostState::numbered(state) {
            Some(s) => labelled("CPU Boost State"@, s.spelling()),
            None => unknown_value(decimal(state as nat)),
        },
{
    match CPUBoostState::try_from(state) {
        Ok(s) => print_labelled("CPU Boost State", s.to_string().as_str()),
        Err(_) => print_unknown(to_decimal(state as u64).as_str()),
    }
}

pub fn print_wifi_backend(backend: &str) -> (r: String)
    ensures
        r@ == match WifiBackend::spelled(backend@) {
            Some(b) => labelled("Wi-Fi backend"@, b.spelling()),
            None => unknown_value(backend@),
        },
{
    match WifiBackend::from_str(backend) {
        Ok(b) => print_labelled("Wi-Fi backend", b.to_string().as_str()),
        Err(_) => print_unknown(backend),
    }
}

pub fn print_wifi_debug_mode(mode: u32) -> (r: String)
    ensures
        r@ == match WifiDebugMode::numbered(mode) {
            Some(m) => labelled("Wi-Fi debug mode"@, m.spelling()),
            None => unknown_value(decimal(mode as nat)),
        },
{
    match WifiDebugMode::try_from(mode) {
        Ok(m) => print_labelled("Wi-Fi debug mode", m.to_string().as_str()),
        Err(_) => print_unknown(to_decimal(mode as u64).as_str()),
    }
}

pub fn print_wifi_power_management_state(state: u32) -> (r: String)
    ensures
        r@ == match WifiPowerManagement::numbered(state) {
            Some(s) => labelled("Wi-Fi power management state"@, s.spelling()),
            None => unknown_value(decimal(state as nat)),
        },
{
    match WifiPowerManagement::try_from(state) {
        Ok(s) => print_labelled("Wi-Fi power management state", s.to_string().as_str()),
        Err(_) => print_unknown(to_decimal(state as u64).as_str()),
    }
}

pub fn print_hdmi_cec_state(state: u32) -> (r: String)
    ensures
        r@ == match HdmiCecState::numbered(state) {
            Some(s) => labelled("HDMI-CEC state"@, s.human_spelling()),
            None => unknown_value(decimal(state as nat)),
        },
{
    match HdmiCecState::try_from(state) {
        Ok(s) => print_labelled("HDMI-CEC state", s.to_human_readable()),
        Err(_) => print_unknown(to_decimal(state as u64).as_str()),
    }
}

pub fn print_screen_reader_mode(mode: &str) -> (r: String)
    ensures
        r@ == match ScreenReaderMode::spelled(mode@) {
            Some(m) => labelled("Screen Reader Mode"@, m.spelling()),
            None => "Got unknown screen reader mode value "@ + mode@ + " from backend\n"@,
        },
{
    match ScreenReaderMode::from_str(mode) {
        Ok(m) => print_labelled("Screen Reader Mode", m.to_string().as_str()),
        Err(_) => {
            let mut r: String = "Got unknown screen reader mode value ".to_owned();
            r.append(mode);
            r.append(" from backend\n");
            r
        },
    }
}

/// A monotonic time, given in seconds and nanoseconds, in nanoseconds: the time
/// of an action.
pub fn action_timestamp(seconds: i64, nanoseconds: i64) -> (r: Option<u64>)
    requires
        i64::MIN <= seconds * 1_000_000_000 <= i64::MAX,
        i64::MIN <= seconds * 1_000_000_000 + nanoseconds <= i64::MAX,
    ensures
        r == (if seconds * 1_000_000_000 + nanoseconds >= 0 {
            Some((seconds * 1_000_000_000 + nanoseconds) as u64)
        } else {
            None
        }),
{
    let now: i64 = seconds * 1_000_000_000 + nanoseconds;
    if now >= 0 {
        Some(now as u64)
    } else {
        None
    }
}

/// What is printed of a setting is one line: the label, and the value behind a
/// colon.
pub proof fn law_labelled_is_a_line(label: Seq<char>, value: Seq<char>)
    requires
        has_no(label, '\n'),
        has_no(value, '\n'),
        value.len() > 0 && value.last() != '\r',
    ensures
        lines_of(labelled(label, value)) == seq![label + ": "@ + value],
        lines_of(unknown_value(value)) == seq!["Got unknown value "@ + value + " from backend"@],
{
    reveal_strlit("\n");
    reveal_strlit(": ");
    reveal_strlit("Got unknown value ");
    reveal_strlit(" from backend");
    reveal_strlit(" from backend\n");
    let a = label + ": "@ + value;
    assert(labelled(label, value) =~= a.push('\n'));
    assert forall|i: int| 0 <= i < a.len() implies #[trigger] a[i] != '\n' by {
        if i < label.len() {
            assert(a[i] == label[i]);
        } else if i >= label.len() + 2 {
            assert(a[i] == value[i - label.len() - 2]);
        }
    }
    lemma_one_line(a);
    let n = "Got unknown value "@.len();
    let b = "Got unknown value "@ + value + " from backend"@;
    assert(unknown_value(value) =~= b.push('\n'));
    assert forall|i: int| 0 <= i < b.len() implies #[trigger] b[i] != '\n' by {
        if i >= n && i < n + value.len() {
            assert(b[i] == value[i - n]);
        } else if i < n {
            assert(b[i] == "Got unknown value "@[i]);
        } else {
            assert(b[i] == " from backend"@[i - n - value.len()]);
        }
    }
    lemma_one_line(b);
}

} // verus!
