//! Intel GPUs: which driver a card uses, performance levels and clocks.
use crate::enums::VariantNotFound;
use crate::gpu::amdgpu::GpuError;
use crate::gpu::values::{GpuPerformanceLevel, IntelPerformanceLevel};
use crate::hardware::RangeConfig;
use crate::numbers::{
    decimal, law_padded_number, law_unsigned_reads_back, lemma_decimal, parse_u32, to_decimal,
    u32_of,
};
use crate::text::{
    all_white, has_prefix, is_digit, is_white, same_text, starts_with, trim, trimmed, trimmed_end,
    trimmed_start,
};
use vstd::prelude::*;

verus! {

/// The driver of an Intel GPU.
#[derive(Clone, Copy, Debug, PartialEq, Eq, Structural)]
pub enum IntelGpuConfig {
    I915,
    Xe,
}

impl IntelGpuConfig {
    /// The file of the lowest frequency to use, in the directory of the card.
    pub fn min_freq(self) -> (r: &'static str)
        ensures
            r@ == match self {
                IntelGpuConfig::I915 => "device/gt_min_freq_mhz"@,
                IntelGpuConfig::Xe => "device/tile0/gt0/freq0/min_freq"@,
            },
    {
        match self {
            IntelGpuConfig::I915 => "device/gt_min_freq_mhz",
            IntelGpuConfig::Xe => "device/tile0/gt0/freq0/min_freq",
        }
    }

    /// The file of the highest frequency to use.
    pub fn max_freq(self) -> (r: &'static str)
        ensures
            r@ == match self {
                IntelGpuConfig::I915 => "device/gt_max_freq_mhz"@,
                IntelGpuConfig::Xe => "device/tile0/gt0/freq0/max_freq"@,
            },
    {
        match self {
            IntelGpuConfig::I915 => "device/gt_max_freq_mhz",
            IntelGpuConfig::Xe => "device/tile0/gt0/freq0/max_freq",
        }
    }

    /// The file of the lowest frequency of the hardware.
    pub fn range_min(self) -> (r: &'static str)
        ensures
            r@ == match self {
                IntelGpuConfig::I915 => "device/gt_RPn_freq_mhz"@,
                IntelGpuConfig::Xe => "device/tile0/gt0/freq0/rpe_freq"@,
            },
    {
        match self {
            IntelGpuConfig::I915 => "device/gt_RPn_freq_mhz",
            IntelGpuConfig::Xe => "device/tile0/gt0/freq0/rpe_freq",
        }
    }

    /// The file of the highest frequency of the hardware.
    pub fn range_max(self) -> (r: &'static str)
        ensures
            r@ == match self {
                IntelGpuConfig::I915 => "device/gt_RP0_freq_mhz"@,
                IntelGpuConfig::Xe => "device/tile0/gt0/freq0/rpa_freq"@,
            },
    {
        match self {
            IntelGpuConfig::I915 => "device/gt_RP0_freq_mhz",
            IntelGpuConfig::Xe => "device/tile0/gt0/freq0/rpa_freq",
        }
    }
}

/// An entry of the directory of graphics devices.
#[derive(Debug, PartialEq, Eq)]
pub struct DrmEntry {
    /// Its name, if that is text.
    pub name: Option<String>,
    /// Whether it holds the lowest frequency of i915.
    pub has_i915: bool,
    /// Whether it holds the lowest frequency of Xe.
    pub has_xe: bool,
}

/// Whether a graphics device is a card, by its name.
pub open spec fn is_card(name: Seq<char>) -> bool {
    has_prefix(name, "card"@) && name != "card-"@
}

/// Whether a graphics device is a card, by its name.
pub fn is_card_name(name: &str) -> (r: bool)
    ensures
        r == is_card(name@),
{
    starts_with(name, "card") && !same_text(name, "card-")
}

/// The driver of a graphics card, i915 before Xe, if the entry is a card.
pub open spec fn card_config(e: DrmEntry) -> Option<IntelGpuConfig> {
    match e.name {
        Some(name) => if is_card(name@) {
            if e.has_i915 {
                Some(IntelGpuConfig::I915)
            } else if e.has_xe {
                Some(IntelGpuConfig::Xe)
            } else {
                None
            }
        } else {
            None
        },
        None => None,
    }
}

fn config_of(e: &DrmEntry) -> (r: Option<IntelGpuConfig>)
    ensures
        r == card_config(*e),
{
    match &e.name {
        Some(name) => {
            if is_card_name(name.as_str()) {
                if e.has_i915 {
                    Some(IntelGpuConfig::I915)
                } else if e.has_xe {
                    Some(IntelGpuConfig::Xe)
                } else {
                    None
                }
            } else {
                None
            }
        },
        None => None,
    }
}

/// The number in a frequency file.
pub open spec fn freq_of(contents: Seq<char>) -> Result<u32, GpuError> {
    match u32_of(trimmed(contents)) {
        Some(mhz) => Ok(mhz),
        None => Err(GpuError::BadNumber),
    }
}

/// What is written to the files of the lowest and the highest frequency, in
/// this order.
#[derive(Debug, PartialEq, Eq)]
pub struct FreqWrites {
    pub min_freq: String,
    pub max_freq: String,
}

pub open spec fn writes_freqs(w: FreqWrites, min: u32, max: u32) -> bool {
    w.min_freq@ == decimal(min as nat) && w.max_freq@ == decimal(max as nat)
}

/// The level that two frequencies stand for: fixed if they leave no room.
pub open spec fn level_of(min: u32, max: u32) -> IntelPerformanceLevel {
    if min < max {
        IntelPerformanceLevel::Auto
    } else {
        IntelPerformanceLevel::Manual
    }
}

/// The frequencies that a level sets within the range of the hardware: the
/// whole range, or its middle.
pub open spec fn freqs_for(level: IntelPerformanceLevel, range_min: u32, range_max: u32) -> (
    u32,
    u32,
) {
    match level {
        IntelPerformanceLevel::Auto => (range_min, range_max),
        IntelPerformanceLevel::Manual => {
            let mean = ((range_min + range_max) / 2) as u32;
            (mean, mean)
        },
    }
}

/// The driver of performance levels of a card.
#[derive(Clone, Copy, Debug)]
pub struct IntelGpuPerformanceLevelDriver {
    /// The place of the card among the graphics devices.
    pub card: usize,
    pub config: IntelGpuConfig,
}

impl IntelGpuPerformanceLevelDriver {
    /// The driver of the first card that has one; `None`: "No Intel GPU found".
    pub fn new(entries: &Vec<DrmEntry>) -> (r: Option<IntelGpuPerformanceLevelDriver>)
        ensures
            match r {
                Some(d) => {
                    &&& d.card < entries@.len()
                    &&& card_config(entries@[d.card as int]) == Some(d.config)
                    &&& forall|j: int|
                        0 <= j < d.card ==> card_config(#[trigger] entries@[j]) is None
                },
                None => forall|j: int|
                    0 <= j < entries@.len() ==> card_config(#[trigger] entries@[j]) is None,
            },
    {
        for i in 0..entries.len()
            invariant
                forall|j: int| 0 <= j < i ==> card_config(#[trigger] entries@[j]) is None,
        {
            match config_of(&entries[i]) {
                Some(config) => {
                    return Some(IntelGpuPerformanceLevelDriver { card: i, config });
                },
                None => {},
            }
        }
        None
    }

    /// The frequency that a file holds.
    pub fn read_freq(&self, contents: &str) -> (r: Result<u32, GpuError>)
        ensures
            r == freq_of(contents@),
    {
        match parse_u32(trim(contents).as_str()) {
            Some(mhz) => Ok(mhz),
            None => Err(GpuError::BadNumber),
        }
    }

    /// What is written to set a frequency.
    pub fn write_freq(&self, clocks: u32) -> (r: String)
        ensures
            r@ == decimal(clocks as nat),
    {
        to_decimal(clocks as u64)
    }

    pub fn performance_level_from_str(&self, value: &str) -> (r: Result<
        GpuPerformanceLevel,
        VariantNotFound,
    >)
        ensures
            r == match IntelPerformanceLevel::spelled(value@) {
                Some(v) => Ok::<GpuPerformanceLevel, VariantNotFound>(
                    GpuPerformanceLevel::Intel(v),
                ),
                None => Err(VariantNotFound),
            },
    {
        match IntelPerformanceLevel::from_str(value) {
            Ok(v) => Ok(GpuPerformanceLevel::Intel(v)),
            Err(e) => Err(e),
        }
    }

    pub fn get_available_performance_levels(&self) -> (r: Vec<GpuPerformanceLevel>)
        ensures
            r@ == seq![
                GpuPerformanceLevel::Intel(IntelPerformanceLevel::Auto),
                GpuPerformanceLevel::Intel(IntelPerformanceLevel::Manual),
            ],
    {
        let mut levels: Vec<GpuPerformanceLevel> = Vec::new();
        levels.push(GpuPerformanceLevel::Intel(IntelPerformanceLevel::Auto));
        levels.push(GpuPerformanceLevel::Intel(IntelPerformanceLevel::Manual));
        levels
    }

    /// The current level, from the lowest and the highest frequency to use.
    pub fn get_performance_level(&self, min_freq: u32, max_freq: u32) -> (r: GpuPerformanceLevel)
        ensures
            r == GpuPerformanceLevel::Intel(level_of(min_freq, max_freq)),
    {
        if min_freq < max_freq {
            GpuPerformanceLevel::Intel(IntelPerformanceLevel::Auto)
        } else {
            GpuPerformanceLevel::Intel(IntelPerformanceLevel::Manual)
        }
    }

    /// What is written to set a level, given the range of the hardware. The mean
    /// that the manual level takes is made of the sum.
    pub fn set_performance_level(
        &self,
        level: GpuPerformanceLevel,
        range_min: u32,
        range_max: u32,
    ) -> (r: Result<FreqWrites, GpuError>)
        requires
            level == GpuPerformanceLevel::Intel(IntelPerformanceLevel::Manual) ==> range_min
                + range_max <= u32::MAX,
        ensures
            match level {
                GpuPerformanceLevel::Amdgpu(_) => r matches Err(e) && e == GpuError::NotIntel,
                GpuPerformanceLevel::Intel(v) => r matches Ok(w) && writes_freqs(
                    w,
                    freqs_for(v, range_min, range_max).0,
                    freqs_for(v, range_min, range_max).1,
                ),
            },
    {
        match level {
            GpuPerformanceLevel::Amdgpu(_) => Err(GpuError::NotIntel),
            GpuPerformanceLevel::Intel(IntelPerformanceLevel::Auto) => Ok(
                FreqWrites {
                    min_freq: self.write_freq(range_min),
                    max_freq: self.write_freq(range_max),
                },
            ),
            GpuPerformanceLevel::Intel(IntelPerformanceLevel::Manual) => {
                let mean: u32 = (range_min + range_max) / 2;
                Ok(FreqWrites { min_freq: self.write_freq(mean), max_freq: self.write_freq(mean) })
            },
        }
    }

    /// The range of clocks: the configured one, or that of the hardware.
    pub fn get_clocks_range(
        &self,
        configured: Option<RangeConfig>,
        range_min: u32,
        range_max: u32,
    ) -> (r: Result<RangeConfig, GpuError>)
        ensures
            r == match configured {
                Some(range) => Ok::<RangeConfig, GpuError>(range),
                None => if range_min <= range_max {
                    Ok(RangeConfig { min: range_min, max: range_max })
                } else {
                    Err(GpuError::BadRange)
                },
            },
    {
        match configured {
            Some(range) => Ok(range),
            None => {
                if range_min <= range_max {
                    Ok(RangeConfig { min: range_min, max: range_max })
                } else {
                    Err(GpuError::BadRange)
                }
            },
        }
    }

    /// The current clock: the lowest frequency to use.
    pub fn get_clocks(&self, min_freq: &str) -> (r: Result<u32, GpuError>)
        ensures
            r == freq_of(min_freq@),
    {
        self.read_freq(min_freq)
    }

    /// What is written to fix the clock, given the frequencies in use; nothing
    /// while the hardware scales it.
    pub fn set_clocks(&self, min_freq: u32, max_freq: u32, clocks: u32) -> (r: Option<FreqWrites>)
        ensures
            match level_of(min_freq, max_freq) {
                IntelPerformanceLevel::Auto => r is None,
                IntelPerformanceLevel::Manual => r matches Some(w) && writes_freqs(
                    w,
                    clocks,
                    clocks,
                ),
            },
    {
        match self.get_performance_level(min_freq, max_freq) {
            GpuPerformanceLevel::Intel(IntelPerformanceLevel::Auto) => None,
            _ => Some(
                FreqWrites { min_freq: self.write_freq(clocks), max_freq: self.write_freq(clocks) },
            ),
        }
    }
}

/// The frequency that was written is the one that is read.
pub proof fn law_freq_reads_back(mhz: u32)
    ensures
        freq_of(decimal(mhz as nat)) == Ok::<u32, GpuError>(mhz),
{
    let d = decimal(mhz as nat);
    lemma_decimal(mhz as nat);
    assert(is_digit(d[0]));
    assert(is_digit(d[d.len() - 1]));
    assert(!is_white(d[0]));
    assert(!is_white(d.last()));
    assert(trimmed_start(d) == d);
    assert(trimmed_end(d) == d);
}

/// The level that was set is the one that is read, unless the range of the
/// hardware leaves no room for scaling.
pub proof fn law_level_reads_back(level: IntelPerformanceLevel, range_min: u32, range_max: u32)
    requires
        range_min < range_max || level == IntelPerformanceLevel::Manual,
    ensures
        level_of(
            freqs_for(level, range_min, range_max).0,
            freqs_for(level, range_min, range_max).1,
        ) == level,
{
}

/// The frequencies that a level sets lie in the range of the hardware.
pub proof fn law_level_within_range(level: IntelPerformanceLevel, range_min: u32, range_max: u32)
    requires
        range_min <= range_max,
        level == IntelPerformanceLevel::Manual ==> range_min + range_max <= u32::MAX,
    ensures
        range_min <= freqs_for(level, range_min, range_max).0 <= range_max,
        range_min <= freqs_for(level, range_min, range_max).1 <= range_max,
{
}

/// Fixing the clock keeps the level fixed.
pub proof fn law_fixed_clock_stays_manual(clocks: u32)
    ensures
        level_of(clocks, clocks) == IntelPerformanceLevel::Manual,
{
}

/// The manual level fixes the clock at the middle of the range of the hardware,
/// rounded down; the automatic one leaves the whole range.
pub proof fn law_manual_level_is_the_middle(range_min: u32, range_max: u32)
    requires
        range_min + range_max <= u32::MAX,
    ensures
        ({
            let (low, high) = freqs_for(IntelPerformanceLevel::Manual, range_min, range_max);
            &&& low == high
            &&& 2 * low <= range_min + range_max
            &&& range_min + range_max < 2 * low + 2
        }),
        freqs_for(IntelPerformanceLevel::Auto, range_min, range_max).0 == range_min,
        freqs_for(IntelPerformanceLevel::Auto, range_min, range_max).1 == range_max,
{
}

/// The level is automatic exactly if the frequencies leave room.
pub proof fn law_level_is_room(min: u32, max: u32)
    ensures
        level_of(min, max) == IntelPerformanceLevel::Auto <==> min < max,
        level_of(min, max) == IntelPerformanceLevel::Manual <==> min >= max,
{
}

/// A card is one by its name; i915 goes before Xe, and a card without either has
/// no driver.
pub proof fn law_card_driver(name: String, has_i915: bool, has_xe: bool)
    ensures
        ({
            let e = DrmEntry { name: Some(name), has_i915, has_xe };
            &&& card_config(e) == Some(IntelGpuConfig::I915) <==> is_card(name@) && has_i915
            &&& card_config(e) == Some(IntelGpuConfig::Xe) <==> is_card(name@) && !has_i915
                && has_xe
        }),
        is_card(name@) ==> name@.len() >= 4 && name@.take(4) == "card"@ && name@ != "card-"@,
        name@.len() >= 4 && name@.take(4) == "card"@ && name@ != "card-"@ ==> is_card(name@),
        card_config(DrmEntry { name: None, has_i915, has_xe }) is None,
{
    reveal_strlit("card");
    assert(name@.len() >= 4 ==> name@.subrange(0, 4) =~= name@.take(4));
}

/// White space around a frequency does not matter.
pub proof fn law_padded_freq(left: Seq<char>, mhz: u32, right: Seq<char>)
    requires
        all_white(left),
        all_white(right),
    ensures
        freq_of(left + decimal(mhz as nat) + right) == Ok::<u32, GpuError>(mhz),
{
    law_padded_number(left, mhz as nat, right);
    law_unsigned_reads_back(mhz as nat);
}

/// What is written for two frequencies is read back as them, each from its own
/// file.
pub proof fn law_written_freqs_read_back(w: FreqWrites, min: u32, max: u32)
    requires
        writes_freqs(w, min, max),
    ensures
        freq_of(w.min_freq@) == Ok::<u32, GpuError>(min),
        freq_of(w.max_freq@) == Ok::<u32, GpuError>(max),
{
    law_freq_reads_back(min);
    law_freq_reads_back(max);
}

} // verus!
