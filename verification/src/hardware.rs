//! What the device description says, as far as the rules depend on it.
use crate::enums::{or_not_found, or_unknown, UnknownNumber, VariantNotFound};
use crate::power::TdpLimitingMethod;
use crate::text::{lowered, same_text, to_ascii_lowercase};
use vstd::prelude::*;

verus! {

/// Who controls the fan.
#[derive(Clone, Copy, Debug, PartialEq, Eq, Structural, Hash)]
pub enum FanControlState {
    /// The firmware.
    Bios,
    /// The fan control service.
    Os,
}

impl FanControlState {
    /// How the value is written.
    pub open spec fn spelling(self) -> Seq<char> {
        match self {
            FanControlState::Bios => "bios"@,
            FanControlState::Os => "os"@,
        }
    }

    /// The value that a text stands for, in upper or lower case.
    pub open spec fn spelled(s: Seq<char>) -> Option<FanControlState> {
        let l = lowered(s);
        if l == "bios"@ {
            Some(FanControlState::Bios)
        } else if l == "os"@ {
            Some(FanControlState::Os)
        } else {
            None
        }
    }

    /// The text of the value.
    pub fn to_string(&self) -> (r: String)
        ensures
            r@ == self.spelling(),
    {
        match self {
            FanControlState::Bios => "bios".to_owned(),
            FanControlState::Os => "os".to_owned(),
        }
    }

    /// Reads a value, in upper or lower case.
    pub fn from_str(s: &str) -> (r: Result<FanControlState, VariantNotFound>)
        ensures
            r == or_not_found(FanControlState::spelled(s@)),
    {
        let lower: String = to_ascii_lowercase(s);
        let l: &str = lower.as_str();
        if same_text(l, "bios") {
            Ok(FanControlState::Bios)
        } else if same_text(l, "os") {
            Ok(FanControlState::Os)
        } else {
            Err(VariantNotFound)
        }
    }

    /// A value is read only from its own text, in upper or lower case.
    pub proof fn law_only_spelling_reads(self, s: Seq<char>)
        ensures
            FanControlState::spelled(s) == Some(self) ==> lowered(s) == self.spelling(),
    {
    }

    /// What is written reads back as the same value.
    pub proof fn law_spelling_reads_back(self)
        ensures
            FanControlState::spelled(self.spelling()) == Some(self),
    {
        reveal_strlit("bios");
        reveal_strlit("os");
        assert(lowered("bios"@) =~= "bios"@);
        assert(lowered("os"@) =~= "os"@);
    }

    /// The number of the value.
    pub open spec fn number(self) -> u32 {
        match self {
            FanControlState::Bios => 0,
            FanControlState::Os => 1,
        }
    }

    /// The value with a given number.
    pub open spec fn numbered(n: u32) -> Option<FanControlState> {
        if n == 0 {
            Some(FanControlState::Bios)
        } else if n == 1 {
            Some(FanControlState::Os)
        } else {
            None
        }
    }

    /// The number of the value.
    pub fn to_u32(self) -> (r: u32)
        ensures
            r == self.number(),
    {
        match self {
            FanControlState::Bios => 0,
            FanControlState::Os => 1,
        }
    }

    /// The value with the number `n`.
    pub fn try_from(n: u32) -> (r: Result<FanControlState, UnknownNumber>)
        ensures
            r == or_unknown(FanControlState::numbered(n), n as i64),
    {
        if n == 0 {
            Ok(FanControlState::Bios)
        } else if n == 1 {
            Ok(FanControlState::Os)
        } else {
            Err(UnknownNumber { number: n as i64 })
        }
    }

    /// The number of a value gives the value back, and no other number does.
    pub proof fn law_number_reads_back(self, n: u32)
        ensures
            FanControlState::numbered(n) == Some(self) <==> n == self.number(),
    {
    }
}

/// What a factory reset wipes.
#[derive(Clone, Copy, Debug, PartialEq, Eq, Structural, Hash)]
pub enum FactoryResetKind {
    /// The user's data.
    User,
    /// The operating system.
    OS,
    /// Both.
    All,
}

impl FactoryResetKind {
    /// How the value is written.
    pub open spec fn spelling(self) -> Seq<char> {
        match self {
            FactoryResetKind::User => "user"@,
            FactoryResetKind::OS => "os"@,
            FactoryResetKind::All => "all"@,
        }
    }

    /// The value that a text stands for, in upper or lower case.
    pub open spec fn spelled(s: Seq<char>) -> Option<FactoryResetKind> {
        let l = lowered(s);
        if l == "user"@ {
            Some(FactoryResetKind::User)
        } else if l == "os"@ {
            Some(FactoryResetKind::OS)
        } else if l == "all"@ {
            Some(FactoryResetKind::All)
        } else {
            None
        }
    }

    /// The text of the value.
    pub fn to_string(&self) -> (r: String)
        ensures
            r@ == self.spelling(),
    {
        match self {
            FactoryResetKind::User => "user".to_owned(),
            FactoryResetKind::OS => "os".to_owned(),
            FactoryResetKind::All => "all".to_owned(),
        }
    }

    /// Reads a value, in upper or lower case.
    pub fn from_str(s: &str) -> (r: Result<FactoryResetKind, VariantNotFound>)
        ensures
            r == or_not_found(FactoryResetKind::spelled(s@)),
    {
        let lower: String = to_ascii_lowercase(s);
        let l: &str = lower.as_str();
        if same_text(l, "user") {
            Ok(FactoryResetKind::User)
        } else if same_text(l, "os") {
            Ok(FactoryResetKind::OS)
        } else if same_text(l, "all") {
            Ok(FactoryResetKind::All)
        } else {
            Err(VariantNotFound)
        }
    }

    /// A value is read only from its own text, in upper or lower case.
    pub proof fn law_only_spelling_reads(self, s: Seq<char>)
        ensures
            FactoryResetKind::spelled(s) == Some(self) ==> lowered(s) == self.spelling(),
    {
    }

    /// What is written reads back as the same value.
    pub proof fn law_spelling_reads_back(self)
        ensures
            FactoryResetKind::spelled(self.spelling()) == Some(self),
    {
        reveal_strlit("user");
        reveal_strlit("os");
        reveal_strlit("all");
        assert(lowered("user"@) =~= "user"@);
        assert(lowered("os"@) =~= "os"@);
        assert(lowered("all"@) =~= "all"@);
    }

    /// The number of the value.
    pub open spec fn number(self) -> u32 {
        match self {
            FactoryResetKind::User => 1,
            FactoryResetKind::OS => 2,
            FactoryResetKind::All => 3,
        }
    }

    /// The value with a given number.
    pub open spec fn numbered(n: u32) -> Option<FactoryResetKind> {
        if n == 1 {
            Some(FactoryResetKind::User)
        } else if n == 2 {
            Some(FactoryResetKind::OS)
        } else if n == 3 {
            Some(FactoryResetKind::All)
        } else {
            None
        }
    }

    /// The number of the value.
    pub fn to_u32(self) -> (r: u32)
        ensures
            r == self.number(),
    {
        match self {
            FactoryResetKind::User => 1,
            FactoryResetKind::OS => 2,
            FactoryResetKind::All => 3,
        }
    }

    /// The value with the number `n`.
    pub fn try_from(n: u32) -> (r: Result<FactoryResetKind, UnknownNumber>)
        ensures
            r == or_unknown(FactoryResetKind::numbered(n), n as i64),
    {
        if n == 1 {
            Ok(FactoryResetKind::User)
        } else if n == 2 {
            Ok(FactoryResetKind::OS)
        } else if n == 3 {
            Ok(FactoryResetKind::All)
        } else {
            Err(UnknownNumber { number: n as i64 })
        }
    }

    /// The number of a value gives the value back, and no other number does.
    pub proof fn law_number_reads_back(self, n: u32)
        ensures
            FactoryResetKind::numbered(n) == Some(self) <==> n == self.number(),
    {
    }
}

/// The model of a Steam Deck.
#[derive(Clone, Copy, Debug, PartialEq, Eq, Structural)]
pub enum SteamDeckVariant {
    Jupiter,
    Galileo,
    Unknown,
}

/// An inclusive range of numbers.
#[derive(Clone, Copy, Debug, PartialEq, Eq, Structural)]
pub struct RangeConfig {
    pub min: u32,
    pub max: u32,
}

/// How the ALIB method of the firmware is called to set the power limits.
#[derive(Debug, PartialEq, Eq)]
pub struct AcpiCallAlibConfig {
    pub alib_method: String,
    pub stapm_limit_id: u8,
    pub fast_limit_id: u8,
    pub slow_limit_id: u8,
    pub slow_time_id: u8,
    pub stapm_time_id: u8,
    pub temp_target_id: u8,
    pub skin_limit_id: u8,
    pub power_scale: u32,
    pub time_scale: u32,
    pub temp_scale: u32,
    pub slow_time: u32,
    pub stapm_time: u32,
    pub temp_target: u32,
}

/// Which firmware attribute holds the power limits.
#[derive(Debug, PartialEq, Eq)]
pub struct FirmwareAttributeConfig {
    pub attribute: String,
    pub performance_profile: Option<String>,
}

/// How the fan is controlled on the device.
#[derive(Clone, Copy, Debug, PartialEq, Eq, Structural)]
pub struct FanSpeedConfig {
    pub download_mode_fan_speed: Option<u32>,
}

/// How power limits are set on the device.
#[derive(Debug, PartialEq, Eq)]
pub struct TdpLimitConfig {
    pub method: TdpLimitingMethod,
    pub range: Option<RangeConfig>,
    pub download_mode_limit: Option<u32>,
    pub performance_profile: Option<String>,
    pub firmware_attribute: Option<FirmwareAttributeConfig>,
    pub acpi_call_alib: Option<AcpiCallAlibConfig>,
}

/// The kinds of a reset are bits: resetting all is resetting both others. No
/// reset at all is no kind.
pub proof fn law_reset_kinds_are_bits(n: u32)
    ensures
        FactoryResetKind::numbered(n) is Some <==> 1 <= n <= 3,
        FactoryResetKind::All.number() == FactoryResetKind::User.number()
            | FactoryResetKind::OS.number(),
        FactoryResetKind::User.number() & FactoryResetKind::OS.number() == 0,
        FactoryResetKind::User.number() < FactoryResetKind::OS.number(),
{
    assert(1u32 | 2u32 == 3u32) by (bit_vector);
    assert(1u32 & 2u32 == 0u32) by (bit_vector);
}

/// The fan is controlled by the firmware or, with the higher number, by the
/// operating system.
pub proof fn law_fan_control_numbers(n: u32)
    ensures
        FanControlState::numbered(n) is Some <==> n < 2,
        FanControlState::Bios.number() < FanControlState::Os.number(),
{
}

} // verus!
