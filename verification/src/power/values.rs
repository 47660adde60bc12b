//! The enumerations of the power settings.
use crate::enums::{or_not_found, or_unknown, UnknownNumber, VariantNotFound};
use crate::text::{lowered, same_text, to_ascii_lowercase};
use vstd::prelude::*;

verus! {

/// The rule by which the kernel picks a CPU frequency.
#[derive(Clone, Copy, Debug, PartialEq, Eq, Structural, Hash)]
pub enum CPUScalingGovernor {
    Conservative,
    OnDemand,
    UserSpace,
    PowerSave,
    Performance,
    SchedUtil,
}

impl CPUScalingGovernor {
    /// How the value is written.
    pub open spec fn spelling(self) -> Seq<char> {
        match self {
            CPUScalingGovernor::Conservative => "conservative"@,
            CPUScalingGovernor::OnDemand => "ondemand"@,
            CPUScalingGovernor::UserSpace => "userspace"@,
            CPUScalingGovernor::PowerSave => "powersave"@,
            CPUScalingGovernor::Performance => "performance"@,
            CPUScalingGovernor::SchedUtil => "schedutil"@,
        }
    }

    /// The value that a text stands for.
    pub open spec fn spelled(s: Seq<char>) -> Option<CPUScalingGovernor> {
        if s == "conservative"@ {
            Some(CPUScalingGovernor::Conservative)
        } else if s == "ondemand"@ {
            Some(CPUScalingGovernor::OnDemand)
        } else if s == "userspace"@ {
            Some(CPUScalingGovernor::UserSpace)
        } else if s == "powersave"@ {
            Some(CPUScalingGovernor::PowerSave)
        } else if s == "performance"@ {
            Some(CPUScalingGovernor::Performance)
        } else if s == "schedutil"@ {
            Some(CPUScalingGovernor::SchedUtil)
        } else {
            None
        }
    }

    /// The text of the value.
    pub fn to_string(&self) -> (r: String)
        ensures
            r@ == self.spelling(),
    {
        match self {
            CPUScalingGovernor::Conservative => "conservative".to_owned(),
            CPUScalingGovernor::OnDemand => "ondemand".to_owned(),
            CPUScalingGovernor::UserSpace => "userspace".to_owned(),
            CPUScalingGovernor::PowerSave => "powersave".to_owned(),
            CPUScalingGovernor::Performance => "performance".to_owned(),
            CPUScalingGovernor::SchedUtil => "schedutil".to_owned(),
        }
    }

    /// Reads a value.
    pub fn from_str(s: &str) -> (r: Result<CPUScalingGovernor, VariantNotFound>)
        ensures
            r == or_not_found(CPUScalingGovernor::spelled(s@)),
    {
        if same_text(s, "conservative") {
            Ok(CPUScalingGovernor::Conservative)
        } else if same_text(s, "ondemand") {
            Ok(CPUScalingGovernor::OnDemand)
        } else if same_text(s, "userspace") {
            Ok(CPUScalingGovernor::UserSpace)
        } else if same_text(s, "powersave") {
            Ok(CPUScalingGovernor::PowerSave)
        } else if same_text(s, "performance") {
            Ok(CPUScalingGovernor::Performance)
        } else if same_text(s, "schedutil") {
            Ok(CPUScalingGovernor::SchedUtil)
        } else {
            Err(VariantNotFound)
        }
    }

    /// A value is read only from its own text.
    pub proof fn law_only_spelling_reads(self, s: Seq<char>)
        ensures
            CPUScalingGovernor::spelled(s) == Some(self) ==> s == self.spelling(),
    {
    }

    /// What is written reads back as the same value.
    pub proof fn law_spelling_reads_back(self)
        ensures
            CPUScalingGovernor::spelled(self.spelling()) == Some(self),
    {
        reveal_strlit("conservative");
        reveal_strlit("ondemand");
        reveal_strlit("userspace");
        reveal_strlit("powersave");
        reveal_strlit("performance");
        reveal_strlit("schedutil");
        assert("conservative"@.len() == 12);
        assert("ondemand"@.len() == 8);
        assert("userspace"@.len() == 9);
        assert("powersave"@.len() == 9);
        assert("performance"@.len() == 11);
        assert("schedutil"@.len() == 9);
        assert("userspace"@[0] == 'u');
        assert("powersave"@[0] == 'p');
        assert("schedutil"@[0] == 's');
    }
}

/// A CPU scheduler.
#[derive(Clone, Copy, Debug, PartialEq, Eq, Structural, Hash)]
pub enum CpuScheduler {
    /// The kernel's own scheduler.
    Kernel,
    /// The scheduler that `scx.service` loads.
    LAVD,
}

impl CpuScheduler {
    /// How the value is written.
    pub open spec fn spelling(self) -> Seq<char> {
        match self {
            CpuScheduler::Kernel => "none"@,
            CpuScheduler::LAVD => "lavd"@,
        }
    }

    /// The value that a text stands for.
    pub open spec fn spelled(s: Seq<char>) -> Option<CpuScheduler> {
        if s == "none"@ {
            Some(CpuScheduler::Kernel)
        } else if s == "lavd"@ {
            Some(CpuScheduler::LAVD)
        } else {
            None
        }
    }

    /// The text of the value.
    pub fn to_string(&self) -> (r: String)
        ensures
            r@ == self.spelling(),
    {
        match self {
            CpuScheduler::Kernel => "none".to_owned(),
            CpuScheduler::LAVD => "lavd".to_owned(),
        }
    }

    /// Reads a value.
    pub fn from_str(s: &str) -> (r: Result<CpuScheduler, VariantNotFound>)
        ensures
            r == or_not_found(CpuScheduler::spelled(s@)),
    {
        if same_text(s, "none") {
            Ok(CpuScheduler::Kernel)
        } else if same_text(s, "lavd") {
            Ok(CpuScheduler::LAVD)
        } else {
            Err(VariantNotFound)
        }
    }

    /// A value is read only from its own text.
    pub proof fn law_only_spelling_reads(self, s: Seq<char>)
        ensures
            CpuScheduler::spelled(s) == Some(self) ==> s == self.spelling(),
    {
    }

    /// What is written reads back as the same value.
    pub proof fn law_spelling_reads_back(self)
        ensures
            CpuScheduler::spelled(self.spelling()) == Some(self),
    {
        reveal_strlit("none");
        reveal_strlit("lavd");
        assert("none"@[0] == 'n');
        assert("lavd"@[0] == 'l');
    }
}

/// Whether the CPU may exceed its base frequency.
#[derive(Clone, Copy, Debug, PartialEq, Eq, Structural, Hash)]
pub enum CPUBoostState {
    Disabled,
    Enabled,
}

impl CPUBoostState {
    /// How the value is written.
    pub open spec fn spelling(self) -> Seq<char> {
        match self {
            CPUBoostState::Disabled => "disabled"@,
            CPUBoostState::Enabled => "enabled"@,
        }
    }

    /// The value that a text stands for, in upper or lower case.
    pub open spec fn spelled(s: Seq<char>) -> Option<CPUBoostState> {
        let l = lowered(s);
        if l == "disabled"@ || l == "off"@ || l == "disable"@ || l == "0"@ {
            Some(CPUBoostState::Disabled)
        } else if l == "enabled"@ || l == "on"@ || l == "enable"@ || l == "1"@ {
            Some(CPUBoostState::Enabled)
        } else {
            None
        }
    }

    /// The text of the value.
    pub fn to_string(&self) -> (r: String)
        ensures
            r@ == self.spelling(),
    {
        match self {
            CPUBoostState::Disabled => "disabled".to_owned(),
            CPUBoostState::Enabled => "enabled".to_owned(),
        }
    }

    /// Reads a value, in upper or lower case.
    pub fn from_str(s: &str) -> (r: Result<CPUBoostState, VariantNotFound>)
        ensures
            r == or_not_found(CPUBoostState::spelled(s@)),
    {
        let lower: String = to_ascii_lowercase(s);
        let l: &str = lower.as_str();
        if same_text(l, "disabled") || same_text(l, "off") || same_text(l, "disable")
            || same_text(l, "0") {
            Ok(CPUBoostState::Disabled)
        } else if same_text(l, "enabled") || same_text(l, "on") || same_text(l, "enable")
            || same_text(l, "1") {
            Ok(CPUBoostState::Enabled)
        } else {
            Err(VariantNotFound)
        }
    }

    /// A text that reads as boosting says so or is 1, and one that reads as not
    /// boosting says so or is 0. No text reads as both.
    pub proof fn law_only_spelling_reads(self, s: Seq<char>)
        ensures
            CPUBoostState::spelled(s) == Some(CPUBoostState::Enabled) <==> (lowered(s) == "on"@
                || lowered(s) == "1"@ || lowered(s) == "enable"@ || lowered(s) == "enabled"@),
            CPUBoostState::spelled(s) == Some(CPUBoostState::Disabled) <==> (lowered(s) == "off"@
                || lowered(s) == "0"@ || lowered(s) == "disable"@ || lowered(s) == "disabled"@),
    {
        reveal_strlit("on");
        reveal_strlit("1");
        reveal_strlit("enable");
        reveal_strlit("enabled");
        reveal_strlit("off");
        reveal_strlit("0");
        reveal_strlit("disable");
        reveal_strlit("disabled");
        assert("1"@ != "0"@) by {
            assert("1"@[0] != "0"@[0]);
        }
        assert("enabled"@ != "disable"@) by {
            assert("enabled"@[0] != "disable"@[0]);
        }
        assert("on"@.len() == 2 && "off"@.len() == 3 && "disabled"@.len() == 8);
        assert("1"@.len() == 1 && "0"@.len() == 1 && "enable"@.len() == 6);
    }

    /// What is written reads back as the same value.
    pub proof fn law_spelling_reads_back(self)
        ensures
            CPUBoostState::spelled(self.spelling()) == Some(self),
    {
        reveal_strlit("disabled");
        reveal_strlit("off");
        reveal_strlit("disable");
        reveal_strlit("0");
        reveal_strlit("enabled");
        reveal_strlit("on");
        reveal_strlit("enable");
        reveal_strlit("1");
        assert("enabled"@[0] == 'e');
        assert("disable"@[0] == 'd');
        assert(lowered("disabled"@) =~= "disabled"@);
        assert(lowered("enabled"@) =~= "enabled"@);
    }

    /// The number of the value.
    pub open spec fn number(self) -> u32 {
        match self {
            CPUBoostState::Disabled => 0,
            CPUBoostState::Enabled => 1,
        }
    }

    /// The value with a given number.
    pub open spec fn numbered(n: u32) -> Option<CPUBoostState> {
        if n == 0 {
            Some(CPUBoostState::Disabled)
        } else if n == 1 {
            Some(CPUBoostState::Enabled)
        } else {
            None
        }
    }

    /// The number of the value.
    pub fn to_u32(self) -> (r: u32)
        ensures
            r == self.number(),
    {
        match self {
            CPUBoostState::Disabled => 0,
            CPUBoostState::Enabled => 1,
        }
    }

    /// The value with the number `n`.
    pub fn try_from(n: u32) -> (r: Result<CPUBoostState, UnknownNumber>)
        ensures
            r == or_unknown(CPUBoostState::numbered(n), n as i64),
    {
        if n == 0 {
            Ok(CPUBoostState::Disabled)
        } else if n == 1 {
            Ok(CPUBoostState::Enabled)
        } else {
            Err(UnknownNumber { number: n as i64 })
        }
    }

    /// The number of a value gives the value back, and no other number does.
    pub proof fn law_number_reads_back(self, n: u32)
        ensures
            CPUBoostState::numbered(n) == Some(self) <==> n == self.number(),
    {
    }
}

/// How the power limit of the processor is set.
#[derive(Clone, Copy, Debug, PartialEq, Eq, Structural, Hash)]
pub enum TdpLimitingMethod {
    AmdgpuHwmon,
    FirmwareAttribute,
    RemoteInterface,
    AcpiCallAlib,
}

impl TdpLimitingMethod {
    /// How the value is written.
    pub open spec fn spelling(self) -> Seq<char> {
        match self {
            TdpLimitingMethod::AmdgpuHwmon => "amdgpu_hwmon"@,
            TdpLimitingMethod::FirmwareAttribute => "firmware_attribute"@,
            TdpLimitingMethod::RemoteInterface => "remote_interface"@,
            TdpLimitingMethod::AcpiCallAlib => "acpi_call_alib"@,
        }
    }

    /// The value that a text stands for.
    pub open spec fn spelled(s: Seq<char>) -> Option<TdpLimitingMethod> {
        if s == "amdgpu_hwmon"@ {
            Some(TdpLimitingMethod::AmdgpuHwmon)
        } else if s == "firmware_attribute"@ {
            Some(TdpLimitingMethod::FirmwareAttribute)
        } else if s == "remote_interface"@ {
            Some(TdpLimitingMethod::RemoteInterface)
        } else if s == "acpi_call_alib"@ {
            Some(TdpLimitingMethod::AcpiCallAlib)
        } else {
            None
        }
    }

    /// The text of the value.
    pub fn to_string(&self) -> (r: String)
        ensures
            r@ == self.spelling(),
    {
        match self {
            TdpLimitingMethod::AmdgpuHwmon => "amdgpu_hwmon".to_owned(),
            TdpLimitingMethod::FirmwareAttribute => "firmware_attribute".to_owned(),
            TdpLimitingMethod::RemoteInterface => "remote_interface".to_owned(),
            TdpLimitingMethod::AcpiCallAlib => "acpi_call_alib".to_owned(),
        }
    }

    /// Reads a value.
    pub fn from_str(s: &str) -> (r: Result<TdpLimitingMethod, VariantNotFound>)
        ensures
            r == or_not_found(TdpLimitingMethod::spelled(s@)),
    {
        if same_text(s, "amdgpu_hwmon") {
            Ok(TdpLimitingMethod::AmdgpuHwmon)
        } else if same_text(s, "firmware_attribute") {
            Ok(TdpLimitingMethod::FirmwareAttribute)
        } else if same_text(s, "remote_interface") {
            Ok(TdpLimitingMethod::RemoteInterface)
        } else if same_text(s, "acpi_call_alib") {
            Ok(TdpLimitingMethod::AcpiCallAlib)
        } else {
            Err(VariantNotFound)
        }
    }

    /// A value is read only from its own text.
    pub proof fn law_only_spelling_reads(self, s: Seq<char>)
        ensures
            TdpLimitingMethod::spelled(s) == Some(self) ==> s == self.spelling(),
    {
    }

    /// What is written reads back as the same value.
    pub proof fn law_spelling_reads_back(self)
        ensures
            TdpLimitingMethod::spelled(self.spelling()) == Some(self),
    {
        reveal_strlit("amdgpu_hwmon");
        reveal_strlit("firmware_attribute");
        reveal_strlit("remote_interface");
        reveal_strlit("acpi_call_alib");
        assert("amdgpu_hwmon"@.len() == 12);
        assert("firmware_attribute"@.len() == 18);
        assert("remote_interface"@.len() == 16);
        assert("acpi_call_alib"@.len() == 14);
    }
}

} // verus!
