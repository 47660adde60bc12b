//! The enumerations of the GPU settings.
use crate::enums::{or_not_found, or_unknown, UnknownNumber, VariantNotFound};
use crate::text::{lowered, same_text, to_ascii_lowercase};
use vstd::prelude::*;

verus! {

/// A power profile of the `amdgpu` driver.
#[derive(Clone, Copy, Debug, PartialEq, Eq, Structural, Hash)]
pub enum AmdgpuPowerProfile {
    FullScreen,
    Video,
    VR,
    Compute,
    Custom,
    Capped,
    Uncapped,
}

impl AmdgpuPowerProfile {
    /// How the value is written.
    pub open spec fn spelling(self) -> Seq<char> {
        match self {
            AmdgpuPowerProfile::FullScreen => "3d_full_screen"@,
            AmdgpuPowerProfile::Video => "video"@,
            AmdgpuPowerProfile::VR => "vr"@,
            AmdgpuPowerProfile::Compute => "compute"@,
            AmdgpuPowerProfile::Custom => "custom"@,
            AmdgpuPowerProfile::Capped => "capped"@,
            AmdgpuPowerProfile::Uncapped => "uncapped"@,
        }
    }

    /// The value that a text stands for.
    pub open spec fn spelled(s: Seq<char>) -> Option<AmdgpuPowerProfile> {
        if s == "3d_full_screen"@ {
            Some(AmdgpuPowerProfile::FullScreen)
        } else if s == "video"@ {
            Some(AmdgpuPowerProfile::Video)
        } else if s == "vr"@ {
            Some(AmdgpuPowerProfile::VR)
        } else if s == "compute"@ {
            Some(AmdgpuPowerProfile::Compute)
        } else if s == "custom"@ {
            Some(AmdgpuPowerProfile::Custom)
        } else if s == "capped"@ {
            Some(AmdgpuPowerProfile::Capped)
        } else if s == "uncapped"@ {
            Some(AmdgpuPowerProfile::Uncapped)
        } else {
            None
        }
    }

    /// The text of the value.
    pub fn to_string(&self) -> (r: String)
        ensures
            r@ == self.spelling(),
    {
        match self {
            AmdgpuPowerProfile::FullScreen => "3d_full_screen".to_owned(),
            AmdgpuPowerProfile::Video => "video".to_owned(),
            AmdgpuPowerProfile::VR => "vr".to_owned(),
            AmdgpuPowerProfile::Compute => "compute".to_owned(),
            AmdgpuPowerProfile::Custom => "custom".to_owned(),
            AmdgpuPowerProfile::Capped => "capped".to_owned(),
            AmdgpuPowerProfile::Uncapped => "uncapped".to_owned(),
        }
    }

    /// Reads a value.
    pub fn from_str(s: &str) -> (r: Result<AmdgpuPowerProfile, VariantNotFound>)
        ensures
            r == or_not_found(AmdgpuPowerProfile::spelled(s@)),
    {
        if same_text(s, "3d_full_screen") {
            Ok(AmdgpuPowerProfile::FullScreen)
        } else if same_text(s, "video") {
            Ok(AmdgpuPowerProfile::Video)
        } else if same_text(s, "vr") {
            Ok(AmdgpuPowerProfile::VR)
        } else if same_text(s, "compute") {
            Ok(AmdgpuPowerProfile::Compute)
        } else if same_text(s, "custom") {
            Ok(AmdgpuPowerProfile::Custom)
        } else if same_text(s, "capped") {
            Ok(AmdgpuPowerProfile::Capped)
        } else if same_text(s, "uncapped") {
            Ok(AmdgpuPowerProfile::Uncapped)
        } else {
            Err(VariantNotFound)
        }
    }

    /// A value is read only from its own text.
    pub proof fn law_only_spelling_reads(self, s: Seq<char>)
        ensures
            AmdgpuPowerProfile::spelled(s) == Some(self) ==> s == self.spelling(),
    {
    }

    /// What is written reads back as the same value.
    pub proof fn law_spelling_reads_back(self)
        ensures
            AmdgpuPowerProfile::spelled(self.spelling()) == Some(self),
    {
        reveal_strlit("3d_full_screen");
        reveal_strlit("video");
        reveal_strlit("vr");
        reveal_strlit("compute");
        reveal_strlit("custom");
        reveal_strlit("capped");
        reveal_strlit("uncapped");
        assert("3d_full_screen"@.len() == 14);
        assert("video"@.len() == 5);
        assert("vr"@.len() == 2);
        assert("compute"@.len() == 7);
        assert("custom"@.len() == 6);
        assert("capped"@.len() == 6);
        assert("uncapped"@.len() == 8);
        assert("custom"@[1] == 'u');
        assert("capped"@[1] == 'a');
    }

    /// The number of the value.
    pub open spec fn number(self) -> u32 {
        match self {
            AmdgpuPowerProfile::FullScreen => 1,
            AmdgpuPowerProfile::Video => 3,
            AmdgpuPowerProfile::VR => 4,
            AmdgpuPowerProfile::Compute => 5,
            AmdgpuPowerProfile::Custom => 6,
            AmdgpuPowerProfile::Capped => 8,
            AmdgpuPowerProfile::Uncapped => 9,
        }
    }

    /// The value with a given number.
    pub open spec fn numbered(n: u32) -> Option<AmdgpuPowerProfile> {
        if n == 1 {
            Some(AmdgpuPowerProfile::FullScreen)
        } else if n == 3 {
            Some(AmdgpuPowerProfile::Video)
        } else if n == 4 {
            Some(AmdgpuPowerProfile::VR)
        } else if n == 5 {
            Some(AmdgpuPowerProfile::Compute)
        } else if n == 6 {
            Some(AmdgpuPowerProfile::Custom)
        } else if n == 8 {
            Some(AmdgpuPowerProfile::Capped)
        } else if n == 9 {
            Some(AmdgpuPowerProfile::Uncapped)
        } else {
            None
        }
    }

    /// The number of the value.
    pub fn to_u32(self) -> (r: u32)
        ensures
            r == self.number(),
    {
        match self {
            AmdgpuPowerProfile::FullScreen => 1,
            AmdgpuPowerProfile::Video => 3,
            AmdgpuPowerProfile::VR => 4,
            AmdgpuPowerProfile::Compute => 5,
            AmdgpuPowerProfile::Custom => 6,
            AmdgpuPowerProfile::Capped => 8,
            AmdgpuPowerProfile::Uncapped => 9,
        }
    }

    /// The value with the number `n`.
    pub fn try_from(n: u32) -> (r: Result<AmdgpuPowerProfile, UnknownNumber>)
        ensures
            r == or_unknown(AmdgpuPowerProfile::numbered(n), n as i64),
    {
        if n == 1 {
            Ok(AmdgpuPowerProfile::FullScreen)
        } else if n == 3 {
            Ok(AmdgpuPowerProfile::Video)
        } else if n == 4 {
            Ok(AmdgpuPowerProfile::VR)
        } else if n == 5 {
            Ok(AmdgpuPowerProfile::Compute)
        } else if n == 6 {
            Ok(AmdgpuPowerProfile::Custom)
        } else if n == 8 {
            Ok(AmdgpuPowerProfile::Capped)
        } else if n == 9 {
            Ok(AmdgpuPowerProfile::Uncapped)
        } else {
            Err(UnknownNumber { number: n as i64 })
        }
    }

    /// The number of a value gives the value back, and no other number does.
    pub proof fn law_number_reads_back(self, n: u32)
        ensures
            AmdgpuPowerProfile::numbered(n) == Some(self) <==> n == self.number(),
    {
    }
}

/// A performance level of the `amdgpu` driver.
#[derive(Clone, Copy, Debug, PartialEq, Eq, Structural, Hash)]
pub enum AmdgpuPerformanceLevel {
    Auto,
    Low,
    High,
    Manual,
    ProfilePeak,
}

impl AmdgpuPerformanceLevel {
    /// How the value is written.
    pub open spec fn spelling(self) -> Seq<char> {
        match self {
            AmdgpuPerformanceLevel::Auto => "auto"@,
            AmdgpuPerformanceLevel::Low => "low"@,
            AmdgpuPerformanceLevel::High => "high"@,
            AmdgpuPerformanceLevel::Manual => "manual"@,
            AmdgpuPerformanceLevel::ProfilePeak => "profile_peak"@,
        }
    }

    /// The value that a text stands for.
    pub open spec fn spelled(s: Seq<char>) -> Option<AmdgpuPerformanceLevel> {
        if s == "auto"@ {
            Some(AmdgpuPerformanceLevel::Auto)
        } else if s == "low"@ {
            Some(AmdgpuPerformanceLevel::Low)
        } else if s == "high"@ {
            Some(AmdgpuPerformanceLevel::High)
        } else if s == "manual"@ {
            Some(AmdgpuPerformanceLevel::Manual)
        } else if s == "profile_peak"@ {
            Some(AmdgpuPerformanceLevel::ProfilePeak)
        } else {
            None
        }
    }

    /// The text of the value.
    pub fn to_string(&self) -> (r: String)
        ensures
            r@ == self.spelling(),
    {
        match self {
            AmdgpuPerformanceLevel::Auto => "auto".to_owned(),
            AmdgpuPerformanceLevel::Low => "low".to_owned(),
            AmdgpuPerformanceLevel::High => "high".to_owned(),
            AmdgpuPerformanceLevel::Manual => "manual".to_owned(),
            AmdgpuPerformanceLevel::ProfilePeak => "profile_peak".to_owned(),
        }
    }

    /// Reads a value.
    pub fn from_str(s: &str) -> (r: Result<AmdgpuPerformanceLevel, VariantNotFound>)
        ensures
            r == or_not_found(AmdgpuPerformanceLevel::spelled(s@)),
    {
        if same_text(s, "auto") {
            Ok(AmdgpuPerformanceLevel::Auto)
        } else if same_text(s, "low") {
            Ok(AmdgpuPerformanceLevel::Low)
        } else if same_text(s, "high") {
            Ok(AmdgpuPerformanceLevel::High)
        } else if same_text(s, "manual") {
            Ok(AmdgpuPerformanceLevel::Manual)
        } else if same_text(s, "profile_peak") {
            Ok(AmdgpuPerformanceLevel::ProfilePeak)
        } else {
            Err(VariantNotFound)
        }
    }

    /// A value is read only from its own text.
    pub proof fn law_only_spelling_reads(self, s: Seq<char>)
        ensures
            AmdgpuPerformanceLevel::spelled(s) == Some(self) ==> s == self.spelling(),
    {
    }

    /// What is written reads back as the same value.
    pub proof fn law_spelling_reads_back(self)
        ensures
            AmdgpuPerformanceLevel::spelled(self.spelling()) == Some(self),
    {
        reveal_strlit("auto");
        reveal_strlit("low");
        reveal_strlit("high");
        reveal_strlit("manual");
        reveal_strlit("profile_peak");
        assert("auto"@.len() == 4);
        assert("low"@.len() == 3);
        assert("high"@.len() == 4);
        assert("manual"@.len() == 6);
        assert("profile_peak"@.len() == 12);
        assert("auto"@[0] == 'a');
        assert("high"@[0] == 'h');
    }
}

/// A performance level of an Intel GPU.
#[derive(Clone, Copy, Debug, PartialEq, Eq, Structural, Hash)]
pub enum IntelPerformanceLevel {
    /// The hardware scales the frequency.
    Auto,
    /// The frequency is fixed.
    Manual,
}

impl IntelPerformanceLevel {
    /// How the value is written.
    pub open spec fn spelling(self) -> Seq<char> {
        match self {
            IntelPerformanceLevel::Auto => "auto"@,
            IntelPerformanceLevel::Manual => "manual"@,
        }
    }

    /// The value that a text stands for.
    pub open spec fn spelled(s: Seq<char>) -> Option<IntelPerformanceLevel> {
        if s == "auto"@ {
            Some(IntelPerformanceLevel::Auto)
        } else if s == "manual"@ {
            Some(IntelPerformanceLevel::Manual)
        } else {
            None
        }
    }

    /// The text of the value.
    pub fn to_string(&self) -> (r: String)
        ensures
            r@ == self.spelling(),
    {
        match self {
            IntelPerformanceLevel::Auto => "auto".to_owned(),
            IntelPerformanceLevel::Manual => "manual".to_owned(),
        }
    }

    /// Reads a value.
    pub fn from_str(s: &str) -> (r: Result<IntelPerformanceLevel, VariantNotFound>)
        ensures
            r == or_not_found(IntelPerformanceLevel::spelled(s@)),
    {
        if same_text(s, "auto") {
            Ok(IntelPerformanceLevel::Auto)
        } else if same_text(s, "manual") {
            Ok(IntelPerformanceLevel::Manual)
        } else {
            Err(VariantNotFound)
        }
    }

    /// A value is read only from its own text.
    pub proof fn law_only_spelling_reads(self, s: Seq<char>)
        ensures
            IntelPerformanceLevel::spelled(s) == Some(self) ==> s == self.spelling(),
    {
    }

    /// What is written reads back as the same value.
    pub proof fn law_spelling_reads_back(self)
        ensures
            IntelPerformanceLevel::spelled(self.spelling()) == Some(self),
    {
        reveal_strlit("auto");
        reveal_strlit("manual");
        assert("auto"@.len() == 4);
        assert("manual"@.len() == 6);
    }
}

/// Which driver sets power profiles.
#[derive(Clone, Copy, Debug, PartialEq, Eq, Structural, Hash)]
pub enum GpuPowerProfileDriverType {
    Amdgpu,
}

impl GpuPowerProfileDriverType {
    /// How the value is written.
    pub open spec fn spelling(self) -> Seq<char> {
        match self {
            GpuPowerProfileDriverType::Amdgpu => "amdgpu"@,
        }
    }

    /// The value that a text stands for, in upper or lower case.
    pub open spec fn spelled(s: Seq<char>) -> Option<GpuPowerProfileDriverType> {
        let l = lowered(s);
        if l == "amdgpu"@ {
            Some(GpuPowerProfileDriverType::Amdgpu)
        } else {
            None
        }
    }

    /// The text of the value.
    pub fn to_string(&self) -> (r: String)
        ensures
            r@ == self.spelling(),
    {
        match self {
            GpuPowerProfileDriverType::Amdgpu => "amdgpu".to_owned(),
        }
    }

    /// Reads a value, in upper or lower case.
    pub fn from_str(s: &str) -> (r: Result<GpuPowerProfileDriverType, VariantNotFound>)
        ensures
            r == or_not_found(GpuPowerProfileDriverType::spelled(s@)),
    {
        let lower: String = to_ascii_lowercase(s);
        let l: &str = lower.as_str();
        if same_text(l, "amdgpu") {
            Ok(GpuPowerProfileDriverType::Amdgpu)
        } else {
            Err(VariantNotFound)
        }
    }

    /// A value is read only from its own text, in upper or lower case.
    pub proof fn law_only_spelling_reads(self, s: Seq<char>)
        ensures
            GpuPowerProfileDriverType::spelled(s) == Some(self) ==> lowered(s) == self.spelling(),
    {
    }

    /// What is written reads back as the same value.
    pub proof fn law_spelling_reads_back(self)
        ensures
            GpuPowerProfileDriverType::spelled(self.spelling()) == Some(self),
    {
        reveal_strlit("amdgpu");
        assert(lowered("amdgpu"@) =~= "amdgpu"@);
    }
}

/// Which driver sets performance levels.
#[derive(Clone, Copy, Debug, PartialEq, Eq, Structural, Hash)]
pub enum GpuPerformanceLevelDriverType {
    Amdgpu,
    Intel,
}

impl GpuPerformanceLevelDriverType {
    /// How the value is written.
    pub open spec fn spelling(self) -> Seq<char> {
        match self {
            GpuPerformanceLevelDriverType::Amdgpu => "amdgpu"@,
            GpuPerformanceLevelDriverType::Intel => "intel"@,
        }
    }

    /// The value that a text stands for, in upper or lower case.
    pub open spec fn spelled(s: Seq<char>) -> Option<GpuPerformanceLevelDriverType> {
        let l = lowered(s);
        if l == "amdgpu"@ {
            Some(GpuPerformanceLevelDriverType::Amdgpu)
        } else if l == "intel"@ {
            Some(GpuPerformanceLevelDriverType::Intel)
        } else {
            None
        }
    }

    /// The text of the value.
    pub fn to_string(&self) -> (r: String)
        ensures
            r@ == self.spelling(),
    {
        match self {
            GpuPerformanceLevelDriverType::Amdgpu => "amdgpu".to_owned(),
            GpuPerformanceLevelDriverType::Intel => "intel".to_owned(),
        }
    }

    /// Reads a value, in upper or lower case.
    pub fn from_str(s: &str) -> (r: Result<GpuPerformanceLevelDriverType, VariantNotFound>)
        ensures
            r == or_not_found(GpuPerformanceLevelDriverType::spelled(s@)),
    {
        let lower: String = to_ascii_lowercase(s);
        let l: &str = lower.as_str();
        if same_text(l, "amdgpu") {
            Ok(GpuPerformanceLevelDriverType::Amdgpu)
        } else if same_text(l, "intel") {
            Ok(GpuPerformanceLevelDriverType::Intel)
        } else {
            Err(VariantNotFound)
        }
    }

    /// A value is read only from its own text, in upper or lower case.
    pub proof fn law_only_spelling_reads(self, s: Seq<char>)
        ensures
            GpuPerformanceLevelDriverType::spelled(s) == Some(self) ==> lowered(s) == self.spelling(),
    {
    }

    /// What is written reads back as the same value.
    pub proof fn law_spelling_reads_back(self)
        ensures
            GpuPerformanceLevelDriverType::spelled(self.spelling()) == Some(self),
    {
        reveal_strlit("amdgpu");
        reveal_strlit("intel");
        assert(lowered("amdgpu"@) =~= "amdgpu"@);
        assert(lowered("intel"@) =~= "intel"@);
    }
}

/// A power profile of any driver.
#[derive(Clone, Copy, Debug, PartialEq, Eq, Structural)]
pub enum GpuPowerProfile {
    Amdgpu(AmdgpuPowerProfile),
}

impl GpuPowerProfile {
    pub open spec fn spelling(self) -> Seq<char> {
        match self {
            GpuPowerProfile::Amdgpu(v) => v.spelling(),
        }
    }

    pub fn to_string(&self) -> (r: String)
        ensures
            r@ == self.spelling(),
    {
        match self {
            GpuPowerProfile::Amdgpu(v) => v.to_string(),
        }
    }
}

/// A performance level of any driver.
#[derive(Clone, Copy, Debug, PartialEq, Eq, Structural)]
pub enum GpuPerformanceLevel {
    Amdgpu(AmdgpuPerformanceLevel),
    Intel(IntelPerformanceLevel),
}

impl GpuPerformanceLevel {
    pub open spec fn spelling(self) -> Seq<char> {
        match self {
            GpuPerformanceLevel::Amdgpu(v) => v.spelling(),
            GpuPerformanceLevel::Intel(v) => v.spelling(),
        }
    }

    pub fn to_string(&self) -> (r: String)
        ensures
            r@ == self.spelling(),
    {
        match self {
            GpuPerformanceLevel::Amdgpu(v) => v.to_string(),
            GpuPerformanceLevel::Intel(v) => v.to_string(),
        }
    }
}

} // verus!
