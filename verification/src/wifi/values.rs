//! The enumerations of the Wi-Fi settings.
use crate::enums::{or_not_found, or_unknown, UnknownNumber, VariantNotFound};
use crate::text::{lowered, same_text, to_ascii_lowercase};
use vstd::prelude::*;

verus! {

/// Whether Wi-Fi is traced.
#[derive(Clone, Copy, Debug, PartialEq, Eq, Structural, Hash)]
pub enum WifiDebugMode {
    Off,
    Tracing,
}

impl WifiDebugMode {
    /// How the value is written.
    pub open spec fn spelling(self) -> Seq<char> {
        match self {
            WifiDebugMode::Off => "off"@,
            WifiDebugMode::Tracing => "tracing"@,
        }
    }

    /// The value that a text stands for, in upper or lower case.
    pub open spec fn spelled(s: Seq<char>) -> Option<WifiDebugMode> {
        let l = lowered(s);
        if l == "off"@ || l == "disable"@ || l == "disabled"@ || l == "0"@ {
            Some(WifiDebugMode::Off)
        } else if l == "tracing"@ {
            Some(WifiDebugMode::Tracing)
        } else {
            None
        }
    }

    /// The text of the value.
    pub fn to_string(&self) -> (r: String)
        ensures
            r@ == self.spelling(),
    {
        match self {
            WifiDebugMode::Off => "off".to_owned(),
            WifiDebugMode::Tracing => "tracing".to_owned(),
        }
    }

    /// Reads a value, in upper or lower case.
    pub fn from_str(s: &str) -> (r: Result<WifiDebugMode, VariantNotFound>)
        ensures
            r == or_not_found(WifiDebugMode::spelled(s@)),
    {
        let lower: String = to_ascii_lowercase(s);
        let l: &str = lower.as_str();
        if same_text(l, "off") || same_text(l, "disable") || same_text(l, "disabled")
            || same_text(l, "0") {
            Ok(WifiDebugMode::Off)
        } else if same_text(l, "tracing") {
            Ok(WifiDebugMode::Tracing)
        } else {
            Err(VariantNotFound)
        }
    }

    /// Tracing is read only from its own text. What reads as off says so or is 0.
    pub proof fn law_only_spelling_reads(self, s: Seq<char>)
        ensures
            WifiDebugMode::spelled(s) == Some(WifiDebugMode::Tracing) <==> lowered(s)
                == "tracing"@,
            WifiDebugMode::spelled(s) == Some(WifiDebugMode::Off) <==> (lowered(s) == "off"@
                || lowered(s) == "0"@ || lowered(s) == "disable"@ || lowered(s) == "disabled"@),
    {
        reveal_strlit("tracing");
        reveal_strlit("off");
        reveal_strlit("0");
        reveal_strlit("disable");
        reveal_strlit("disabled");
        assert("tracing"@[0] != "disable"@[0]);
    }

    /// What is written reads back as the same value.
    pub proof fn law_spelling_reads_back(self)
        ensures
            WifiDebugMode::spelled(self.spelling()) == Some(self),
    {
        reveal_strlit("off");
        reveal_strlit("disable");
        reveal_strlit("disabled");
        reveal_strlit("0");
        reveal_strlit("tracing");
        assert("tracing"@[0] == 't');
        assert("disable"@[0] == 'd');
        assert(lowered("off"@) =~= "off"@);
        assert(lowered("tracing"@) =~= "tracing"@);
    }

    /// The number of the value.
    pub open spec fn number(self) -> u32 {
        match self {
            WifiDebugMode::Off => 0,
            WifiDebugMode::Tracing => 1,
        }
    }

    /// The value with a given number.
    pub open spec fn numbered(n: u32) -> Option<WifiDebugMode> {
        if n == 0 {
            Some(WifiDebugMode::Off)
        } else if n == 1 {
            Some(WifiDebugMode::Tracing)
        } else {
            None
        }
    }

    /// The number of the value.
    pub fn to_u32(self) -> (r: u32)
        ensures
            r == self.number(),
    {
        match self {
            WifiDebugMode::Off => 0,
            WifiDebugMode::Tracing => 1,
        }
    }

    /// The value with the number `n`.
    pub fn try_from(n: u32) -> (r: Result<WifiDebugMode, UnknownNumber>)
        ensures
            r == or_unknown(WifiDebugMode::numbered(n), n as i64),
    {
        if n == 0 {
            Ok(WifiDebugMode::Off)
        } else if n == 1 {
            Ok(WifiDebugMode::Tracing)
        } else {
            Err(UnknownNumber { number: n as i64 })
        }
    }

    /// The number of a value gives the value back, and no other number does.
    pub proof fn law_number_reads_back(self, n: u32)
        ensures
            WifiDebugMode::numbered(n) == Some(self) <==> n == self.number(),
    {
    }
}

/// Whether Wi-Fi saves power.
#[derive(Clone, Copy, Debug, PartialEq, Eq, Structural, Hash)]
pub enum WifiPowerManagement {
    Disabled,
    Enabled,
}

impl WifiPowerManagement {
    /// How the value is written.
    pub open spec fn spelling(self) -> Seq<char> {
        match self {
            WifiPowerManagement::Disabled => "disabled"@,
            WifiPowerManagement::Enabled => "enabled"@,
        }
    }

    /// The value that a text stands for, in upper or lower case.
    pub open spec fn spelled(s: Seq<char>) -> Option<WifiPowerManagement> {
        let l = lowered(s);
        if l == "disabled"@ || l == "off"@ || l == "disable"@ || l == "0"@ {
            Some(WifiPowerManagement::Disabled)
        } else if l == "enabled"@ || l == "on"@ || l == "enable"@ || l == "1"@ {
            Some(WifiPowerManagement::Enabled)
        } else {
            None
        }
    }

    /// The text of the value.
    pub fn to_string(&self) -> (r: String)
        ensures
            r@ == self.spelling(),
    {
        match self {
            WifiPowerManagement::Disabled => "disabled".to_owned(),
            WifiPowerManagement::Enabled => "enabled".to_owned(),
        }
    }

    /// Reads a value, in upper or lower case.
    pub fn from_str(s: &str) -> (r: Result<WifiPowerManagement, VariantNotFound>)
        ensures
            r == or_not_found(WifiPowerManagement::spelled(s@)),
    {
        let lower: String = to_ascii_lowercase(s);
        let l: &str = lower.as_str();
        if same_text(l, "disabled") || same_text(l, "off") || same_text(l, "disable")
            || same_text(l, "0") {
            Ok(WifiPowerManagement::Disabled)
        } else if same_text(l, "enabled") || same_text(l, "on") || same_text(l, "enable")
            || same_text(l, "1") {
            Ok(WifiPowerManagement::Enabled)
        } else {
            Err(VariantNotFound)
        }
    }

    /// A text that reads as enabled says so or is 1, and one that reads as
    /// disabled says so or is 0. No text reads as both.
    pub proof fn law_only_spelling_reads(self, s: Seq<char>)
        ensures
            WifiPowerManagement::spelled(s) == Some(WifiPowerManagement::Enabled) <==> (lowered(s)
                == "on"@ || lowered(s) == "1"@ || lowered(s) == "enable"@ || lowered(s)
                == "enabled"@),
            WifiPowerManagement::spelled(s) == Some(WifiPowerManagement::Disabled) <==> (lowered(s)
                == "off"@ || lowered(s) == "0"@ || lowered(s) == "disable"@ || lowered(s)
                == "disabled"@),
    {
        reveal_strlit("on");
        reveal_strlit("1");
        reveal_strlit("enable");
        reveal_strlit("enabled");
        reveal_strlit("off");
        reveal_strlit("0");
        reveal_strlit("disable");
        reveal_strlit("disabled");
        assert("1"@ != "0"@) by {
            assert("1"@[0] != "0"@[0]);
        }
        assert("enabled"@ != "disable"@) by {
            assert("enabled"@[0] != "disable"@[0]);
        }
        assert("on"@.len() == 2 && "off"@.len() == 3 && "disabled"@.len() == 8);
        assert("1"@.len() == 1 && "0"@.len() == 1 && "enable"@.len() == 6);
    }

    /// What is written reads back as the same value.
    pub proof fn law_spelling_reads_back(self)
        ensures
            WifiPowerManagement::spelled(self.spelling()) == Some(self),
    {
        reveal_strlit("disabled");
        reveal_strlit("off");
        reveal_strlit("disable");
        reveal_strlit("0");
        reveal_strlit("enabled");
        reveal_strlit("on");
        reveal_strlit("enable");
        reveal_strlit("1");
        assert("enabled"@[0] == 'e');
        assert("disable"@[0] == 'd');
        assert(lowered("disabled"@) =~= "disabled"@);
        assert(lowered("enabled"@) =~= "enabled"@);
    }

    /// The number of the value.
    pub open spec fn number(self) -> u32 {
        match self {
            WifiPowerManagement::Disabled => 0,
            WifiPowerManagement::Enabled => 1,
        }
    }

    /// The value with a given number.
    pub open spec fn numbered(n: u32) -> Option<WifiPowerManagement> {
        if n == 0 {
            Some(WifiPowerManagement::Disabled)
        } else if n == 1 {
            Some(WifiPowerManagement::Enabled)
        } else {
            None
        }
    }

    /// The number of the value.
    pub fn to_u32(self) -> (r: u32)
        ensures
            r == self.number(),
    {
        match self {
            WifiPowerManagement::Disabled => 0,
            WifiPowerManagement::Enabled => 1,
        }
    }

    /// The value with the number `n`.
    pub fn try_from(n: u32) -> (r: Result<WifiPowerManagement, UnknownNumber>)
        ensures
            r == or_unknown(WifiPowerManagement::numbered(n), n as i64),
    {
        if n == 0 {
            Ok(WifiPowerManagement::Disabled)
        } else if n == 1 {
            Ok(WifiPowerManagement::Enabled)
        } else {
            Err(UnknownNumber { number: n as i64 })
        }
    }

    /// The number of a value gives the value back, and no other number does.
    pub proof fn law_number_reads_back(self, n: u32)
        ensures
            WifiPowerManagement::numbered(n) == Some(self) <==> n == self.number(),
    {
    }
}

/// The service that connects to Wi-Fi networks.
#[derive(Clone, Copy, Debug, PartialEq, Eq, Structural, Hash)]
pub enum WifiBackend {
    Iwd,
    WPASupplicant,
}

impl WifiBackend {
    /// How the value is written.
    pub open spec fn spelling(self) -> Seq<char> {
        match self {
            WifiBackend::Iwd => "iwd"@,
            WifiBackend::WPASupplicant => "wpa_supplicant"@,
        }
    }

    /// The value that a text stands for, in upper or lower case.
    pub open spec fn spelled(s: Seq<char>) -> Option<WifiBackend> {
        let l = lowered(s);
        if l == "iwd"@ {
            Some(WifiBackend::Iwd)
        } else if l == "wpa_supplicant"@ {
            Some(WifiBackend::WPASupplicant)
        } else {
            None
        }
    }

    /// The text of the value.
    pub fn to_string(&self) -> (r: String)
        ensures
            r@ == self.spelling(),
    {
        match self {
            WifiBackend::Iwd => "iwd".to_owned(),
            WifiBackend::WPASupplicant => "wpa_supplicant".to_owned(),
        }
    }

    /// Reads a value, in upper or lower case.
    pub fn from_str(s: &str) -> (r: Result<WifiBackend, VariantNotFound>)
        ensures
            r == or_not_found(WifiBackend::spelled(s@)),
    {
        let lower: String = to_ascii_lowercase(s);
        let l: &str = lower.as_str();
        if same_text(l, "iwd") {
            Ok(WifiBackend::Iwd)
        } else if same_text(l, "wpa_supplicant") {
            Ok(WifiBackend::WPASupplicant)
        } else {
            Err(VariantNotFound)
        }
    }

    /// A value is read only from its own text, in upper or lower case.
    pub proof fn law_only_spelling_reads(self, s: Seq<char>)
        ensures
            WifiBackend::spelled(s) == Some(self) ==> lowered(s) == self.spelling(),
    {
    }

    /// What is written reads back as the same value.
    pub proof fn law_spelling_reads_back(self)
        ensures
            WifiBackend::spelled(self.spelling()) == Some(self),
    {
        reveal_strlit("iwd");
        reveal_strlit("wpa_supplicant");
        assert(lowered("iwd"@) =~= "iwd"@);
        assert(lowered("wpa_supplicant"@) =~= "wpa_supplicant"@);
    }

    /// The number of the value.
    pub open spec fn number(self) -> u32 {
        match self {
            WifiBackend::Iwd => 0,
            WifiBackend::WPASupplicant => 1,
        }
    }

    /// The value with a given number.
    pub open spec fn numbered(n: u32) -> Option<WifiBackend> {
        if n == 0 {
            Some(WifiBackend::Iwd)
        } else if n == 1 {
            Some(WifiBackend::WPASupplicant)
        } else {
            None
        }
    }

    /// The number of the value.
    pub fn to_u32(self) -> (r: u32)
        ensures
            r == self.number(),
    {
        match self {
            WifiBackend::Iwd => 0,
            WifiBackend::WPASupplicant => 1,
        }
    }

    /// The value with the number `n`.
    pub fn try_from(n: u32) -> (r: Result<WifiBackend, UnknownNumber>)
        ensures
            r == or_unknown(WifiBackend::numbered(n), n as i64),
    {
        if n == 0 {
            Ok(WifiBackend::Iwd)
        } else if n == 1 {
            Ok(WifiBackend::WPASupplicant)
        } else {
            Err(UnknownNumber { number: n as i64 })
        }
    }

    /// The number of a value gives the value back, and no other number does.
    pub proof fn law_number_reads_back(self, n: u32)
        ensures
            WifiBackend::numbered(n) == Some(self) <==> n == self.number(),
    {
    }
}

/// How NetworkManager sets power saving.
#[derive(Clone, Copy, Debug, PartialEq, Eq, Structural, Hash)]
pub enum NmSettingWirelessPowersave {
    /// NetworkManager's own choice.
    Standard,
    Ignore,
    Disable,
    Enable,
}

impl NmSettingWirelessPowersave {
    /// The number of the value.
    pub open spec fn number(self) -> i64 {
        match self {
            NmSettingWirelessPowersave::Standard => 0,
            NmSettingWirelessPowersave::Ignore => 1,
            NmSettingWirelessPowersave::Disable => 2,
            NmSettingWirelessPowersave::Enable => 3,
        }
    }

    /// The value with a given number.
    pub open spec fn numbered(n: i64) -> Option<NmSettingWirelessPowersave> {
        if n == 0 {
            Some(NmSettingWirelessPowersave::Standard)
        } else if n == 1 {
            Some(NmSettingWirelessPowersave::Ignore)
        } else if n == 2 {
            Some(NmSettingWirelessPowersave::Disable)
        } else if n == 3 {
            Some(NmSettingWirelessPowersave::Enable)
        } else {
            None
        }
    }

    /// The number of the value.
    pub fn to_i64(self) -> (r: i64)
        ensures
            r == self.number(),
    {
        match self {
            NmSettingWirelessPowersave::Standard => 0,
            NmSettingWirelessPowersave::Ignore => 1,
            NmSettingWirelessPowersave::Disable => 2,
            NmSettingWirelessPowersave::Enable => 3,
        }
    }

    /// The value with the number `n`.
    pub fn try_from(n: i64) -> (r: Result<NmSettingWirelessPowersave, UnknownNumber>)
        ensures
            r == or_unknown(NmSettingWirelessPowersave::numbered(n), n),
    {
        if n == 0 {
            Ok(NmSettingWirelessPowersave::Standard)
        } else if n == 1 {
            Ok(NmSettingWirelessPowersave::Ignore)
        } else if n == 2 {
            Ok(NmSettingWirelessPowersave::Disable)
        } else if n == 3 {
            Ok(NmSettingWirelessPowersave::Enable)
        } else {
            Err(UnknownNumber { number: n })
        }
    }

    /// The number of a value gives the value back, and no other number does.
    pub proof fn law_number_reads_back(self, n: i64)
        ensures
            NmSettingWirelessPowersave::numbered(n) == Some(self) <==> n == self.number(),
    {
    }
}

impl Default for NmSettingWirelessPowersave {
    fn default() -> (r: Self)
        ensures
            r == NmSettingWirelessPowersave::Enable,
    {
        NmSettingWirelessPowersave::Enable
    }
}

impl From<WifiPowerManagement> for NmSettingWirelessPowersave {
    fn from(val: WifiPowerManagement) -> (r: NmSettingWirelessPowersave) {
        match val {
            WifiPowerManagement::Disabled => NmSettingWirelessPowersave::Disable,
            WifiPowerManagement::Enabled => NmSettingWirelessPowersave::Enable,
        }
    }
}

impl vstd::std_specs::convert::FromSpecImpl<WifiPowerManagement> for NmSettingWirelessPowersave {
    open spec fn obeys_from_spec() -> bool {
        true
    }

    open spec fn from_spec(val: WifiPowerManagement) -> NmSettingWirelessPowersave {
        match val {
            WifiPowerManagement::Disabled => NmSettingWirelessPowersave::Disable,
            WifiPowerManagement::Enabled => NmSettingWirelessPowersave::Enable,
        }
    }
}

} // verus!
