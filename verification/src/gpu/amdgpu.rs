//! The `amdgpu` driver: power profiles, performance levels and clocks.
use crate::enums::VariantNotFound;
use crate::gpu::values::{
    AmdgpuPerformanceLevel, AmdgpuPowerProfile, GpuPerformanceLevel, GpuPowerProfile,
};
use crate::hardware::RangeConfig;
use crate::numbers::{
    all_digits, decimal, law_unsigned_reads_back, lemma_decimal, parse_u32, to_decimal, u32_of,
};
use crate::text::{
    all_white, chars_of, concat, ends_with, has_no, has_suffix, is_ascii_text, is_digit, is_white,
    law_one_word, law_trimmed_start, law_words_cut, lemma_pieces_cut, lemma_pieces_not_empty,
    lemma_pieces_plain, lines, lines_of, lowered, pieces_of, same_text, split, split_whitespace,
    text_of, texts, to_lowercase, trim, trimmed, trimmed_start, view_of, words_of,
};
use vstd::prelude::*;

verus! {

/// Why a GPU setting cannot be read or set.
#[derive(Clone, Copy, Debug, PartialEq, Eq, Structural)]
pub enum GpuError {
    /// The name of the current profile is not known.
    UnknownProfile,
    /// "Unable to determine current GPU power profile".
    NoCurrentProfile,
    /// A number does not fit.
    BadNumber,
    /// "Could not read any clocks".
    NoClocks,
    /// "This is not an amdgpu-compatible performance level".
    NotAmdgpu,
    /// "This is not an Intel-compatible performance level".
    NotIntel,
    /// "Invalid GPU frequency range".
    BadRange,
}

impl GpuError {
    /// What is reported, where it is worded here and not by what failed.
    pub open spec fn text(self) -> Option<Seq<char>> {
        match self {
            GpuError::UnknownProfile => Some(
                "Unable to parse value for GPU power profile: Matching variant not found"@,
            ),
            GpuError::NoCurrentProfile => Some("Unable to determine current GPU power profile"@),
            GpuError::BadNumber => None,
            GpuError::NoClocks => Some("Could not read any clocks"@),
            GpuError::NotAmdgpu => Some("This is not an amdgpu-compatible performance level"@),
            GpuError::NotIntel => Some("This is not an Intel-compatible performance level"@),
            GpuError::BadRange => Some("Invalid GPU frequency range"@),
        }
    }

    /// What is reported, where it is worded here and not by what failed.
    pub fn message(self) -> (r: Option<String>)
        ensures
            view_of(r) == self.text(),
    {
        match self {
            GpuError::UnknownProfile => Some(
                "Unable to parse value for GPU power profile: Matching variant not found".to_owned(),
            ),
            GpuError::NoCurrentProfile => Some(
                "Unable to determine current GPU power profile".to_owned(),
            ),
            GpuError::BadNumber => None,
            GpuError::NoClocks => Some("Could not read any clocks".to_owned()),
            GpuError::NotAmdgpu => Some(
                "This is not an amdgpu-compatible performance level".to_owned(),
            ),
            GpuError::NotIntel => Some(
                "This is not an Intel-compatible performance level".to_owned(),
            ),
            GpuError::BadRange => Some("Invalid GPU frequency range".to_owned()),
        }
    }
}

// ---------------------------------------------------------------------------
// The lines that the driver prints
// ---------------------------------------------------------------------------

/// A line that starts with a number and a name; the name of the active profile
/// has a star behind it.
pub const AMDGPU_POWER_PROFILE_REGEX: &'static str =
    "^\\s*(?<value>[0-9]+)\\s+(?<name>[0-9A-Za-z_]+)(?<active>\\*)?";

/// A line that starts with an index and a frequency.
pub const AMDGPU_CLOCK_LEVELS_REGEX: &'static str = "^\\s*(?<index>[0-9]+): (?<value>[0-9]+)Mhz";

pub open spec fn is_word_char(c: char) -> bool {
    is_digit(c) || 'A' <= c <= 'Z' || 'a' <= c <= 'z' || c == '_'
}

/// How many characters for which `p` holds a text starts with.
pub open spec fn span(s: Seq<char>, p: spec_fn(char) -> bool) -> int
    decreases s.len(),
{
    if s.len() > 0 && p(s[0]) {
        1 + span(s.skip(1), p)
    } else {
        0
    }
}

pub open spec fn digit_span(s: Seq<char>) -> int {
    span(s, |c: char| is_digit(c))
}

pub open spec fn word_span(s: Seq<char>) -> int {
    span(s, |c: char| is_word_char(c))
}

/// A line of the table of power profiles.
pub struct ProfileLine {
    pub value: Seq<char>,
    pub name: Seq<char>,
    pub active: bool,
}

/// White space, digits, white space, a name, perhaps a star.
pub open spec fn profile_line(s: Seq<char>) -> Option<ProfileLine> {
    let a = trimmed_start(s);
    let digits = digit_span(a);
    let b = a.skip(digits);
    let c = trimmed_start(b);
    let word = word_span(c);
    if digits > 0 && c.len() < b.len() && word > 0 {
        Some(
            ProfileLine {
                value: a.take(digits),
                name: c.take(word),
                active: word < c.len() && c[word] == '*',
            },
        )
    } else {
        None
    }
}

/// The frequency of a line of the table of clock levels: white space, digits, a
/// colon and a blank, digits, `Mhz`.
pub open spec fn clock_line(s: Seq<char>) -> Option<Seq<char>> {
    let a = trimmed_start(s);
    let index = digit_span(a);
    let b = a.skip(index);
    let c = b.skip(2);
    let digits = digit_span(c);
    let rest = c.skip(digits);
    if index > 0 && b.len() >= 2 && b.take(2) == ": "@ && digits > 0 && rest.len() >= 3
        && rest.take(3) == "Mhz"@ {
        Some(c.take(digits))
    } else {
        None
    }
}

/// `Regex::new`, `Regex::captures` and `Captures::name` on one of the two
/// patterns above: what the group matched in the first match, if there is a
/// match and the group took part in it. Both patterns start at the start of
/// the text and can match in one way only, which is stated group by group.
#[verifier::external_body]
fn regex_group(pattern: &str, line: &str, group: &str) -> (r: Option<String>)
    requires
        (pattern@ == AMDGPU_POWER_PROFILE_REGEX@ && (group@ == "value"@ || group@ == "name"@
            || group@ == "active"@)) || (pattern@ == AMDGPU_CLOCK_LEVELS_REGEX@ && group@
            == "value"@),
    ensures
        pattern@ == AMDGPU_POWER_PROFILE_REGEX@ && group@ == "value"@ ==> view_of(r) == (
        match profile_line(line@) {
            Some(l) => Some(l.value),
            None => None,
        }),
        pattern@ == AMDGPU_POWER_PROFILE_REGEX@ && group@ == "name"@ ==> view_of(r) == (
        match profile_line(line@) {
            Some(l) => Some(l.name),
            None => None,
        }),
        pattern@ == AMDGPU_POWER_PROFILE_REGEX@ && group@ == "active"@ ==> (r is Some) == (
        profile_line(line@) matches Some(l) && l.active),
        pattern@ == AMDGPU_CLOCK_LEVELS_REGEX@ && group@ == "value"@ ==> view_of(r) == clock_line(
            line@,
        ),
{
    let regex = regex::Regex::new(pattern).unwrap();
    let captures = regex.captures(line)?;
    captures.name(group).map(|m| m.as_str().to_string())
}

proof fn lemma_span(s: Seq<char>, p: spec_fn(char) -> bool)
    ensures
        0 <= span(s, p) <= s.len(),
        forall|i: int| 0 <= i < span(s, p) ==> p(#[trigger] s[i]),
    decreases s.len(),
{
    if s.len() > 0 && p(s[0]) {
        lemma_span(s.skip(1), p);
        assert forall|i: int| 0 <= i < span(s, p) implies p(#[trigger] s[i]) by {
            if i > 0 {
                assert(s[i] == s.skip(1)[i - 1]);
            }
        }
    }
}

proof fn lemma_profile_line(s: Seq<char>)
    ensures
        profile_line(s) matches Some(l) ==> is_ascii_text(l.name),
{
    let c = trimmed_start(trimmed_start(s).skip(digit_span(trimmed_start(s))));
    lemma_span(c, |x: char| is_word_char(x));
    if profile_line(s) is Some {
        let name = profile_line(s)->0.name;
        assert forall|i: int| 0 <= i < name.len() implies '\0' <= #[trigger] name[i] <= '\x7f' by {
            assert(is_word_char(c[i]));
        }
    }
}

// ---------------------------------------------------------------------------
// Power profiles
// ---------------------------------------------------------------------------

/// The current profile: that of the first line with an active one.
pub open spec fn current_profile(rows: Seq<Seq<char>>) -> Result<GpuPowerProfile, GpuError>
    decreases rows.len(),
{
    if rows.len() == 0 {
        Err(GpuError::NoCurrentProfile)
    } else {
        match profile_line(rows[0]) {
            Some(l) => if l.active {
                match AmdgpuPowerProfile::spelled(lowered(l.name)) {
                    Some(v) => Ok(GpuPowerProfile::Amdgpu(v)),
                    None => Err(GpuError::UnknownProfile),
                }
            } else {
                current_profile(rows.skip(1))
            },
            None => current_profile(rows.skip(1)),
        }
    }
}

/// Whether a profile is offered: on the Steam Deck only the capped and the
/// uncapped one.
pub open spec fn is_offered(value: u32, deck: bool) -> bool {
    deck ==> value == AmdgpuPowerProfile::Capped.number() || value
        == AmdgpuPowerProfile::Uncapped.number()
}

/// The profiles in a table, with their numbers, if every number fits.
pub open spec fn profiles_in(rows: Seq<Seq<char>>, deck: bool) -> Option<Seq<(u32, Seq<char>)>>
    decreases rows.len(),
{
    if rows.len() == 0 {
        Some(Seq::empty())
    } else {
        match profiles_in(rows.drop_last(), deck) {
            None => None,
            Some(before) => match profile_line(rows.last()) {
                None => Some(before),
                Some(l) => match u32_of(l.value) {
                    None => None,
                    Some(value) => if is_offered(value, deck) {
                        Some(before.push((value, l.name)))
                    } else {
                        Some(before)
                    },
                },
            },
        }
    }
}

pub open spec fn entries_of(v: Seq<(u32, String)>) -> Seq<(u32, Seq<char>)> {
    v.map_values(|e: (u32, String)| (e.0, e.1@))
}

proof fn lemma_profiles_in_none(rows: Seq<Seq<char>>, deck: bool, i: int)
    requires
        0 <= i <= rows.len(),
        profiles_in(rows.take(i), deck) is None,
    ensures
        profiles_in(rows, deck) is None,
    decreases rows.len(),
{
    if i < rows.len() {
        assert(rows.drop_last().take(i) =~= rows.take(i));
        lemma_profiles_in_none(rows.drop_last(), deck, i);
    } else {
        assert(rows.take(i) =~= rows);
    }
}

/// The driver of power profiles.
#[derive(Clone, Copy, Debug)]
pub struct AmdgpuPowerProfileDriver {}

impl AmdgpuPowerProfileDriver {
    pub fn power_profile_from_str(&self, value: &str) -> (r: Result<
        GpuPowerProfile,
        VariantNotFound,
    >)
        ensures
            r == match AmdgpuPowerProfile::spelled(value@) {
                Some(v) => Ok::<GpuPowerProfile, VariantNotFound>(GpuPowerProfile::Amdgpu(v)),
                None => Err(VariantNotFound),
            },
    {
        match AmdgpuPowerProfile::from_str(value) {
            Ok(v) => Ok(GpuPowerProfile::Amdgpu(v)),
            Err(e) => Err(e),
        }
    }

    /// The current profile, from the table that the driver prints.
    pub fn get_power_profile(&self, contents: &str) -> (r: Result<GpuPowerProfile, GpuError>)
        ensures
            r == current_profile(lines_of(contents@)),
    {
        let rows: Vec<String> = lines(contents);
        let mut i: usize = 0;
        assert(texts(rows@).skip(0) =~= texts(rows@));
        while i < rows.len()
            invariant
                i <= rows@.len(),
                texts(rows@) == lines_of(contents@),
                current_profile(texts(rows@)) == current_profile(texts(rows@).skip(i as int)),
            decreases rows@.len() - i,
        {
            assert(texts(rows@).skip(i as int).skip(1) =~= texts(rows@).skip(i + 1));
            assert(texts(rows@).skip(i as int)[0] == rows@[i as int]@);
            let row: &str = rows[i].as_str();
            let name: Option<String> = regex_group(AMDGPU_POWER_PROFILE_REGEX, row, "name");
            let active: Option<String> = regex_group(AMDGPU_POWER_PROFILE_REGEX, row, "active");
            match name {
                Some(name) => {
                    if active.is_some() {
                        proof {
                            lemma_profile_line(row@);
                        }
                        let lower: String = to_lowercase(name.as_str());
                        return match AmdgpuPowerProfile::from_str(lower.as_str()) {
                            Ok(v) => Ok(GpuPowerProfile::Amdgpu(v)),
                            Err(_) => Err(GpuError::UnknownProfile),
                        };
                    }
                },
                None => {},
            }
            i = i + 1;
        }
        Err(GpuError::NoCurrentProfile)
    }

    /// The profiles that are offered on a device of the given type, from the
    /// table that the driver prints.
    pub fn get_available_power_profiles(&self, contents: &str, device_type: &str) -> (r: Result<
        Vec<(u32, String)>,
        GpuError,
    >)
        ensures
            match profiles_in(lines_of(contents@), device_type@ == "steam_deck"@) {
                Some(profiles) => r matches Ok(v) && entries_of(v@) == profiles,
                None => r matches Err(e) && e == GpuError::BadNumber,
            },
    {
        let deck: bool = same_text(device_type, "steam_deck");
        let rows: Vec<String> = lines(contents);
        let mut map: Vec<(u32, String)> = Vec::new();
        assert(texts(rows@).take(0) =~= Seq::<Seq<char>>::empty());
        assert(entries_of(map@) =~= Seq::<(u32, Seq<char>)>::empty());
        for i in 0..rows.len()
            invariant
                deck == (device_type@ == "steam_deck"@),
                texts(rows@) == lines_of(contents@),
                profiles_in(texts(rows@).take(i as int), deck) == Some(entries_of(map@)),
        {
            let row: &str = rows[i].as_str();
            assert(texts(rows@).take(i + 1).drop_last() =~= texts(rows@).take(i as int));
            assert(texts(rows@).take(i + 1).last() == row@);
            let ghost before = map@;
            let value: Option<String> = regex_group(AMDGPU_POWER_PROFILE_REGEX, row, "value");
            let name: Option<String> = regex_group(AMDGPU_POWER_PROFILE_REGEX, row, "name");
            match (value, name) {
                (Some(value), Some(name)) => match parse_u32(value.as_str()) {
                    Some(value) => {
                        if deck {
                            if value == AmdgpuPowerProfile::Capped.to_u32() || value
                                == AmdgpuPowerProfile::Uncapped.to_u32() {
                                map.push((value, name));
                                assert(entries_of(map@) =~= entries_of(before).push(
                                    (value, name@),
                                ));
                            }
                        } else {
                            map.push((value, name));
                            assert(entries_of(map@) =~= entries_of(before).push((value, name@)));
                        }
                    },
                    None => {
                        proof {
                            lemma_profiles_in_none(texts(rows@), deck, i + 1);
                        }
                        return Err(GpuError::BadNumber);
                    },
                },
                _ => {},
            }
        }
        assert(texts(rows@).take(rows@.len() as int) =~= texts(rows@));
        Ok(map)
    }

    /// What is written to set a profile: its number.
    pub fn set_power_profile(&self, value: GpuPowerProfile) -> (r: String)
        ensures
            r@ == match value {
                GpuPowerProfile::Amdgpu(v) => decimal(v.number() as nat),
            },
            value matches GpuPowerProfile::Amdgpu(v) ==> u32_of(r@) == Some(v.number()),
    {
        proof {
            law_unsigned_reads_back(value->Amdgpu_0.number() as nat);
        }
        match value {
            GpuPowerProfile::Amdgpu(v) => to_decimal(v.to_u32() as u64),
        }
    }
}

// ---------------------------------------------------------------------------
// Performance levels and clocks
// ---------------------------------------------------------------------------

/// The frequencies in a table of clock levels, if every one fits.
pub open spec fn levels_in(rows: Seq<Seq<char>>) -> Option<Seq<u32>>
    decreases rows.len(),
{
    if rows.len() == 0 {
        Some(Seq::empty())
    } else {
        match levels_in(rows.drop_last()) {
            None => None,
            Some(before) => match clock_line(rows.last()) {
                None => Some(before),
                Some(digits) => match u32_of(digits) {
                    None => None,
                    Some(value) => Some(before.push(value)),
                },
            },
        }
    }
}

/// The lowest of some frequencies, and of a million.
pub open spec fn lowest(s: Seq<u32>) -> u32
    decreases s.len(),
{
    if s.len() == 0 {
        1_000_000
    } else if s.last() < lowest(s.drop_last()) {
        s.last()
    } else {
        lowest(s.drop_last())
    }
}

/// The highest of some frequencies, and of 0.
pub open spec fn highest(s: Seq<u32>) -> u32
    decreases s.len(),
{
    if s.len() == 0 {
        0
    } else if s.last() > highest(s.drop_last()) {
        s.last()
    } else {
        highest(s.drop_last())
    }
}

/// The range of clocks that a table stands for.
pub open spec fn range_in(rows: Seq<Seq<char>>) -> Result<RangeConfig, GpuError> {
    match levels_in(rows) {
        None => Err(GpuError::BadNumber),
        Some(levels) => if lowest(levels) <= highest(levels) {
            Ok(RangeConfig { min: lowest(levels), max: highest(levels) })
        } else {
            Err(GpuError::NoClocks)
        },
    }
}

/// Every frequency of the table lies in the range that is read from it.
pub proof fn law_levels_in_range(levels: Seq<u32>, i: int)
    requires
        0 <= i < levels.len(),
    ensures
        lowest(levels) <= levels[i] <= highest(levels),
    decreases levels.len(),
{
    if i < levels.len() - 1 {
        law_levels_in_range(levels.drop_last(), i);
        assert(levels.drop_last()[i] == levels[i]);
    }
}

proof fn lemma_levels_in_none(rows: Seq<Seq<char>>, i: int)
    requires
        0 <= i <= rows.len(),
        levels_in(rows.take(i)) is None,
    ensures
        levels_in(rows) is None,
    decreases rows.len(),
{
    if i < rows.len() {
        assert(rows.drop_last().take(i) =~= rows.take(i));
        lemma_levels_in_none(rows.drop_last(), i);
    } else {
        assert(rows.take(i) =~= rows);
    }
}

pub open spec fn ends_in_mhz(s: Seq<char>) -> bool {
    s.len() >= 3 && s[s.len() - 3] == 'M' && s[s.len() - 2] == 'h' && s[s.len() - 1] == 'z'
}

/// A text without the `Mhz` at its end, however often it stands there.
pub open spec fn without_mhz(s: Seq<char>) -> Seq<char>
    decreases s.len(),
{
    if ends_in_mhz(s) {
        without_mhz(s.take(s.len() - 3))
    } else {
        s
    }
}

/// The clock that the line behind the heading stands for: its second word, a
/// number of `Mhz`; 0 if it is not one.
pub open spec fn clock_of(line: Seq<char>) -> Result<u32, GpuError> {
    let words = words_of(line);
    if words.len() < 2 || !has_suffix(words[1], "Mhz"@) {
        Ok(0)
    } else {
        match u32_of(without_mhz(words[1])) {
            Some(mhz) => Ok(mhz),
            None => Err(GpuError::BadNumber),
        }
    }
}

/// The place of the heading of the table of clocks among the lines that end in
/// a line feed, or their number.
pub open spec fn heading_at(ended: Seq<Seq<char>>) -> int
    decreases ended.len(),
{
    if ended.len() == 0 || ended[0] == "OD_SCLK:"@ {
        0
    } else {
        1 + heading_at(ended.skip(1))
    }
}

/// The clock in the table that the driver prints; 0 without the heading.
pub open spec fn clock_in(contents: Seq<char>) -> Result<u32, GpuError> {
    let parts = pieces_of(contents, '\n');
    let at = heading_at(parts.drop_last());
    if at < parts.len() - 1 {
        clock_of(parts[at + 1])
    } else {
        Ok(0)
    }
}

/// The driver of performance levels.
#[derive(Clone, Copy, Debug)]
pub struct AmdgpuPerformanceLevelDriver {}

impl AmdgpuPerformanceLevelDriver {
    pub fn performance_level_from_str(&self, value: &str) -> (r: Result<
        GpuPerformanceLevel,
        VariantNotFound,
    >)
        ensures
            r == match AmdgpuPerformanceLevel::spelled(value@) {
                Some(v) => Ok::<GpuPerformanceLevel, VariantNotFound>(
                    GpuPerformanceLevel::Amdgpu(v),
                ),
                None => Err(VariantNotFound),
            },
    {
        match AmdgpuPerformanceLevel::from_str(value) {
            Ok(v) => Ok(GpuPerformanceLevel::Amdgpu(v)),
            Err(e) => Err(e),
        }
    }

    /// The levels that can be set: all of them if the file for it exists.
    pub fn get_available_performance_levels(&self, file_exists: bool) -> (r: Vec<
        GpuPerformanceLevel,
    >)
        ensures
            r@ == (if file_exists {
                seq![
                    GpuPerformanceLevel::Amdgpu(AmdgpuPerformanceLevel::Auto),
                    GpuPerformanceLevel::Amdgpu(AmdgpuPerformanceLevel::Low),
                    GpuPerformanceLevel::Amdgpu(AmdgpuPerformanceLevel::High),
                    GpuPerformanceLevel::Amdgpu(AmdgpuPerformanceLevel::Manual),
                    GpuPerformanceLevel::Amdgpu(AmdgpuPerformanceLevel::ProfilePeak),
                ]
            } else {
                Seq::empty()
            }),
    {
        let mut levels: Vec<GpuPerformanceLevel> = Vec::new();
        if file_exists {
            levels.push(GpuPerformanceLevel::Amdgpu(AmdgpuPerformanceLevel::Auto));
            levels.push(GpuPerformanceLevel::Amdgpu(AmdgpuPerformanceLevel::Low));
            levels.push(GpuPerformanceLevel::Amdgpu(AmdgpuPerformanceLevel::High));
            levels.push(GpuPerformanceLevel::Amdgpu(AmdgpuPerformanceLevel::Manual));
            levels.push(GpuPerformanceLevel::Amdgpu(AmdgpuPerformanceLevel::ProfilePeak));
        }
        levels
    }

    /// The current level, from the contents of its file.
    pub fn get_performance_level(&self, contents: &str) -> (r: Result<
        GpuPerformanceLevel,
        VariantNotFound,
    >)
        ensures
            r == match AmdgpuPerformanceLevel::spelled(trimmed(contents@)) {
                Some(v) => Ok::<GpuPerformanceLevel, VariantNotFound>(
                    GpuPerformanceLevel::Amdgpu(v),
                ),
                None => Err(VariantNotFound),
            },
    {
        self.performance_level_from_str(trim(contents).as_str())
    }

    /// What is written to set a level.
    pub fn set_performance_level(&self, level: GpuPerformanceLevel) -> (r: Result<String, GpuError>)
        ensures
            match level {
                GpuPerformanceLevel::Amdgpu(v) => r matches Ok(data) && data@ == v.spelling(),
                GpuPerformanceLevel::Intel(_) => r matches Err(e) && e == GpuError::NotAmdgpu,
            },
    {
        match level {
            GpuPerformanceLevel::Amdgpu(v) => Ok(v.to_string()),
            GpuPerformanceLevel::Intel(_) => Err(GpuError::NotAmdgpu),
        }
    }

    /// The range of clocks: the configured one, or that of the table that the
    /// driver prints.
    pub fn get_clocks_range(&self, configured: Option<RangeConfig>, contents: &str) -> (r: Result<
        RangeConfig,
        GpuError,
    >)
        ensures
            r == match configured {
                Some(range) => Ok::<RangeConfig, GpuError>(range),
                None => range_in(lines_of(contents@)),
            },
    {
        match configured {
            Some(range) => {
                return Ok(range);
            },
            None => {},
        }
        let rows: Vec<String> = lines(contents);
        let mut min: u32 = 1_000_000;
        let mut max: u32 = 0;
        let ghost mut levels: Seq<u32> = Seq::empty();
        assert(texts(rows@).take(0) =~= Seq::<Seq<char>>::empty());
        for i in 0..rows.len()
            invariant
                configured is None,
                texts(rows@) == lines_of(contents@),
                levels_in(texts(rows@).take(i as int)) == Some(levels),
                min == lowest(levels),
                max == highest(levels),
        {
            let row: &str = rows[i].as_str();
            assert(texts(rows@).take(i + 1).drop_last() =~= texts(rows@).take(i as int));
            assert(texts(rows@).take(i + 1).last() == row@);
            match regex_group(AMDGPU_CLOCK_LEVELS_REGEX, row, "value") {
                Some(digits) => match parse_u32(digits.as_str()) {
                    Some(value) => {
                        assert(levels.push(value).drop_last() =~= levels);
                        if value < min {
                            min = value;
                        }
                        if value > max {
                            max = value;
                        }
                        proof {
                            levels = levels.push(value);
                        }
                    },
                    None => {
                        proof {
                            lemma_levels_in_none(texts(rows@), i + 1);
                        }
                        return Err(GpuError::BadNumber);
                    },
                },
                None => {},
            }
        }
        assert(texts(rows@).take(rows@.len() as int) =~= texts(rows@));
        if min <= max {
            Ok(RangeConfig { min, max })
        } else {
            Err(GpuError::NoClocks)
        }
    }

    /// What is written, one after the other, to fix the clock: the lower bound,
    /// the upper bound, and the order to apply both.
    pub fn set_clocks(&self, clocks: u32) -> (r: Vec<String>)
        ensures
            texts(r@) == seq![
                "s 0 "@ + decimal(clocks as nat) + "\n"@,
                "s 1 "@ + decimal(clocks as nat) + "\n"@,
                "c\n"@,
            ],
    {
        let number: String = to_decimal(clocks as u64);
        let mut r: Vec<String> = Vec::new();
        r.push(concat(concat("s 0 ", number.as_str()).as_str(), "\n"));
        r.push(concat(concat("s 1 ", number.as_str()).as_str(), "\n"));
        r.push("c\n".to_owned());
        assert(texts(r@) =~= seq![
            "s 0 "@ + decimal(clocks as nat) + "\n"@,
            "s 1 "@ + decimal(clocks as nat) + "\n"@,
            "c\n"@,
        ]);
        r
    }

    /// The current clock, from the table that the driver prints.
    pub fn get_clocks(&self, contents: &str) -> (r: Result<u32, GpuError>)
        ensures
            r == clock_in(contents@),
    {
        let parts: Vec<String> = split(contents, '\n');
        let ghost ended = texts(parts@).drop_last();
        proof {
            crate::text::lemma_pieces_not_empty(contents@, crate::text::at_char('\n'));
            assert(texts(parts@).len() == parts@.len());
        }
        let last: usize = parts.len() - 1;
        let mut i: usize = 0;
        assert(ended.skip(0) =~= ended);
        while i < last && !same_text(parts[i].as_str(), "OD_SCLK:")
            invariant
                last == parts@.len() - 1,
                i <= last,
                ended == texts(parts@).drop_last(),
                heading_at(ended) == i + heading_at(ended.skip(i as int)),
            decreases last - i,
        {
            assert(ended.skip(i as int).skip(1) =~= ended.skip(i + 1));
            assert(ended.skip(i as int)[0] == parts@[i as int]@);
            i = i + 1;
        }
        if i == last {
            assert(ended.skip(i as int) =~= Seq::<Seq<char>>::empty());
            return Ok(0);
        }
        assert(ended.skip(i as int)[0] == parts@[i as int]@);
        assert(heading_at(ended) == i);
        assert(texts(parts@)[i + 1] == parts@[i + 1]@);
        let words: Vec<String> = split_whitespace(parts[i + 1].as_str());
        assert(texts(words@).len() == words@.len());
        if words.len() < 2 {
            return Ok(0);
        }
        assert(texts(words@)[1] == words@[1]@);
        let word: &str = words[1].as_str();
        if !ends_with(word, "Mhz") {
            return Ok(0);
        }
        match parse_u32(strip_mhz(word).as_str()) {
            Some(mhz) => Ok(mhz),
            None => Err(GpuError::BadNumber),
        }
    }
}

fn mhz_before(v: &Vec<char>, n: usize) -> (r: bool)
    requires
        n <= v@.len(),
    ensures
        r == ends_in_mhz(v@.take(n as int)),
{
    n >= 3 && v[n - 3] == 'M' && v[n - 2] == 'h' && v[n - 1] == 'z'
}

/// `word` without the `Mhz` at its end, however often it stands there.
fn strip_mhz(word: &str) -> (r: String)
    ensures
        r@ == without_mhz(word@),
{
    let v: Vec<char> = chars_of(word);
    let mut n: usize = v.len();
    assert(v@.take(n as int) =~= word@);
    while mhz_before(&v, n)
        invariant
            v@ == word@,
            n <= v@.len(),
            without_mhz(word@) == without_mhz(v@.take(n as int)),
        decreases n,
    {
        assert(v@.take(n as int).take(n - 3) =~= v@.take(n - 3));
        n = n - 3;
    }
    assert(v@.subrange(0, n as int) =~= v@.take(n as int));
    text_of(&v, 0, n)
}

// ---------------------------------------------------------------------------
// Laws
// ---------------------------------------------------------------------------

proof fn lemma_span_is(s: Seq<char>, p: spec_fn(char) -> bool, i: int)
    requires
        0 <= i <= s.len(),
        forall|j: int| 0 <= j < i ==> p(#[trigger] s[j]),
        i < s.len() ==> !p(s[i]),
    ensures
        span(s, p) == i,
    decreases s.len(),
{
    if i > 0 {
        assert(p(s[0]));
        let t = s.skip(1);
        assert forall|j: int| 0 <= j < i - 1 implies p(#[trigger] t[j]) by {
            assert(t[j] == s[j + 1]);
        }
        lemma_span_is(t, p, i - 1);
    }
}

proof fn lemma_span_ends(s: Seq<char>, p: spec_fn(char) -> bool)
    ensures
        span(s, p) < s.len() ==> !p(s[span(s, p)]),
    decreases s.len(),
{
    if s.len() > 0 && p(s[0]) {
        lemma_span(s.skip(1), p);
        lemma_span_ends(s.skip(1), p);
    }
}

proof fn lemma_trimmed_start_is(s: Seq<char>, i: int)
    requires
        0 <= i <= s.len(),
        forall|j: int| 0 <= j < i ==> is_white(#[trigger] s[j]),
        i < s.len() ==> !is_white(s[i]),
    ensures
        trimmed_start(s) == s.skip(i),
    decreases s.len(),
{
    if i > 0 {
        assert(is_white(s[0]));
        let t = s.skip(1);
        assert forall|j: int| 0 <= j < i - 1 implies is_white(#[trigger] t[j]) by {
            assert(t[j] == s[j + 1]);
        }
        lemma_trimmed_start_is(t, i - 1);
        assert(t.skip(i - 1) =~= s.skip(i));
    } else {
        assert(s.skip(0) =~= s);
    }
}

pub open spec fn all_word(s: Seq<char>) -> bool {
    forall|i: int| 0 <= i < s.len() ==> is_word_char(#[trigger] s[i])
}

/// A line made of a number and a name is read as these two. It is the active one
/// if a star follows the name at once.
pub proof fn law_profile_line_reads(
    left: Seq<char>,
    value: Seq<char>,
    gap: Seq<char>,
    name: Seq<char>,
    rest: Seq<char>,
)
    requires
        all_white(left),
        value.len() > 0,
        all_digits(value),
        gap.len() > 0,
        all_white(gap),
        name.len() > 0,
        all_word(name),
        rest.len() > 0 ==> !is_word_char(rest[0]),
    ensures
        profile_line(left + value + gap + name + rest) == Some(
            ProfileLine { value, name, active: rest.len() > 0 && rest[0] == '*' },
        ),
{
    let s = left + value + gap + name + rest;
    let a = value + gap + name + rest;
    let b = gap + name + rest;
    let c = name + rest;
    assert(is_digit(value[0]));
    assert(is_white(gap[0]));
    assert(is_word_char(name[0]));
    assert forall|j: int| 0 <= j < left.len() implies is_white(#[trigger] s[j]) by {
        assert(s[j] == left[j]);
    }
    assert(s[left.len() as int] == value[0]);
    lemma_trimmed_start_is(s, left.len() as int);
    assert(s.skip(left.len() as int) =~= a);
    assert forall|j: int| 0 <= j < value.len() implies is_digit(#[trigger] a[j]) by {
        assert(a[j] == value[j]);
    }
    assert(a[value.len() as int] == gap[0]);
    lemma_span_is(a, |x: char| is_digit(x), value.len() as int);
    assert(a.skip(value.len() as int) =~= b);
    assert(a.take(value.len() as int) =~= value);
    assert forall|j: int| 0 <= j < gap.len() implies is_white(#[trigger] b[j]) by {
        assert(b[j] == gap[j]);
    }
    assert(b[gap.len() as int] == name[0]);
    lemma_trimmed_start_is(b, gap.len() as int);
    assert(b.skip(gap.len() as int) =~= c);
    assert forall|j: int| 0 <= j < name.len() implies is_word_char(#[trigger] c[j]) by {
        assert(c[j] == name[j]);
    }
    if rest.len() > 0 {
        assert(c[name.len() as int] == rest[0]);
    }
    lemma_span_is(c, |x: char| is_word_char(x), name.len() as int);
    assert(c.take(name.len() as int) =~= name);
}

proof fn lemma_four_joins(
    a: Seq<char>,
    b: Seq<char>,
    c: Seq<char>,
    d: Seq<char>,
    e: Seq<char>,
)
    ensures
        a + (b + (c + (d + e))) == a + b + c + d + e,
{
    assert(c + (d + e) =~= c + d + e);
    assert(b + (c + d + e) =~= b + c + d + e);
    assert(a + (b + c + d + e) =~= a + b + c + d + e);
}

/// Whatever is read as a line of the table is made of a number and a name.
#[verifier::rlimit(50)]
pub proof fn law_profile_line_parts(s: Seq<char>) -> (w: (Seq<char>, Seq<char>, Seq<char>))
    requires
        profile_line(s) is Some,
    ensures
        ({
            let l = profile_line(s)->0;
            &&& s == w.0 + l.value + w.1 + l.name + w.2
            &&& all_white(w.0) && all_white(w.1)
            &&& w.1.len() > 0
            &&& l.value.len() > 0 && all_digits(l.value)
            &&& l.name.len() > 0 && all_word(l.name)
            &&& (w.2.len() > 0 ==> !is_word_char(w.2[0]))
            &&& (l.active <==> w.2.len() > 0 && w.2[0] == '*')
        }),
{
    let a = trimmed_start(s);
    let i = law_trimmed_start(s);
    let digits = digit_span(a);
    lemma_span(a, |x: char| is_digit(x));
    let b = a.skip(digits);
    let c = trimmed_start(b);
    let k = law_trimmed_start(b);
    let word = word_span(c);
    lemma_span(c, |x: char| is_word_char(x));
    lemma_span_ends(c, |x: char| is_word_char(x));
    let l = profile_line(s)->0;
    let w = (s.take(i), b.take(k), c.skip(word));
    assert(all_digits(l.value)) by {
        assert forall|j: int| 0 <= j < l.value.len() implies is_digit(#[trigger] l.value[j]) by {
            assert(l.value[j] == a[j]);
        }
    }
    assert(all_word(l.name)) by {
        assert forall|j: int| 0 <= j < l.name.len() implies is_word_char(#[trigger] l.name[j]) by {
            assert(l.name[j] == c[j]);
        }
    }
    assert(c =~= l.name + w.2);
    assert(b =~= w.1 + c);
    assert(a =~= l.value + b);
    assert(s =~= w.0 + a);
    lemma_four_joins(w.0, l.value, w.1, l.name, w.2);
    w
}

/// A line made of an index and a frequency is read as that frequency.
pub proof fn law_clock_line_reads(
    left: Seq<char>,
    index: Seq<char>,
    value: Seq<char>,
    rest: Seq<char>,
)
    requires
        all_white(left),
        index.len() > 0,
        all_digits(index),
        value.len() > 0,
        all_digits(value),
    ensures
        clock_line(left + index + ": "@ + value + "Mhz"@ + rest) == Some(value),
{
    reveal_strlit(": ");
    reveal_strlit("Mhz");
    let s = left + index + ": "@ + value + "Mhz"@ + rest;
    let a = index + ": "@ + value + "Mhz"@ + rest;
    let b = ": "@ + value + "Mhz"@ + rest;
    let c = value + "Mhz"@ + rest;
    let d = "Mhz"@ + rest;
    assert(is_digit(index[0]));
    assert(is_digit(value[0]));
    assert forall|j: int| 0 <= j < left.len() implies is_white(#[trigger] s[j]) by {
        assert(s[j] == left[j]);
    }
    assert(s[left.len() as int] == index[0]);
    lemma_trimmed_start_is(s, left.len() as int);
    assert(s.skip(left.len() as int) =~= a);
    assert forall|j: int| 0 <= j < index.len() implies is_digit(#[trigger] a[j]) by {
        assert(a[j] == index[j]);
    }
    assert(a[index.len() as int] == ':');
    lemma_span_is(a, |x: char| is_digit(x), index.len() as int);
    assert(a.skip(index.len() as int) =~= b);
    assert(b.take(2) =~= ": "@);
    assert(b.skip(2) =~= c);
    assert forall|j: int| 0 <= j < value.len() implies is_digit(#[trigger] c[j]) by {
        assert(c[j] == value[j]);
    }
    assert(c[value.len() as int] == 'M');
    lemma_span_is(c, |x: char| is_digit(x), value.len() as int);
    assert(c.skip(value.len() as int) =~= d);
    assert(d.take(3) =~= "Mhz"@);
    assert(c.take(value.len() as int) =~= value);
}

/// The first active line decides; what follows it does not matter.
pub proof fn law_first_active_counts(rows: Seq<Seq<char>>, i: int)
    requires
        0 <= i < rows.len(),
        profile_line(rows[i]) matches Some(l) && l.active,
        forall|j: int|
            0 <= j < i ==> !(profile_line(#[trigger] rows[j]) matches Some(l) && l.active),
    ensures
        ({
            let named = AmdgpuPowerProfile::spelled(lowered(profile_line(rows[i])->0.name));
            &&& (named matches Some(v) ==> current_profile(rows) == Ok::<GpuPowerProfile, GpuError>(
                GpuPowerProfile::Amdgpu(v),
            ))
            &&& (named is None ==> current_profile(rows) == Err::<GpuPowerProfile, GpuError>(
                GpuError::UnknownProfile,
            ))
        }),
    decreases i,
{
    if i > 0 {
        let t = rows.skip(1);
        assert(!(profile_line(rows[0]) matches Some(l) && l.active));
        assert forall|j: int| 0 <= j < i - 1 implies !(profile_line(#[trigger] t[j]) matches Some(l)
            && l.active) by {
            assert(t[j] == rows[j + 1]);
        }
        assert(t[i - 1] == rows[i]);
        law_first_active_counts(t, i - 1);
    }
}

/// Without an active line there is no current profile.
pub proof fn law_none_active(rows: Seq<Seq<char>>)
    requires
        forall|j: int|
            0 <= j < rows.len() ==> !(profile_line(#[trigger] rows[j]) matches Some(l) && l.active),
    ensures
        current_profile(rows) == Err::<GpuPowerProfile, GpuError>(GpuError::NoCurrentProfile),
    decreases rows.len(),
{
    if rows.len() > 0 {
        let t = rows.skip(1);
        assert forall|j: int| 0 <= j < t.len() implies !(profile_line(#[trigger] t[j]) matches Some(
            l,
        ) && l.active) by {
            assert(t[j] == rows[j + 1]);
        }
        law_none_active(t);
    }
}

/// Each line of the table gives its number and its name, in order; on the Steam
/// Deck those of the capped and the uncapped profile alone. One number that does
/// not fit spoils the whole table.
pub proof fn law_profiles_of_rows(
    rows: Seq<Seq<char>>,
    row: Seq<char>,
    deck: bool,
    value: u32,
    name: Seq<char>,
)
    requires
        profile_line(row) matches Some(l) && l.name == name && u32_of(l.value) == Some(value),
    ensures
        profiles_in(rows, deck) is None ==> profiles_in(rows.push(row), deck) is None,
        profiles_in(rows, deck) matches Some(before) ==> {
            let kept = !deck || value == AmdgpuPowerProfile::Capped.number() || value
                == AmdgpuPowerProfile::Uncapped.number();
            profiles_in(rows.push(row), deck) == Some(
                if kept {
                    before.push((value, name))
                } else {
                    before
                },
            )
        },
{
    assert(rows.push(row).drop_last() =~= rows);
    assert(rows.push(row).last() == row);
}

/// What the Steam Deck offers is what is offered elsewhere, without all but the
/// capped and the uncapped profile.
pub proof fn law_deck_profiles(rows: Seq<Seq<char>>)
    ensures
        profiles_in(rows, true) is Some <==> profiles_in(rows, false) is Some,
        profiles_in(rows, false) matches Some(all) ==> profiles_in(rows, true) == Some(
            all.filter(
                |e: (u32, Seq<char>)|
                    e.0 == AmdgpuPowerProfile::Capped.number() || e.0
                        == AmdgpuPowerProfile::Uncapped.number(),
            ),
        ),
    decreases rows.len(),
{
    reveal(Seq::filter);
    let keep = |e: (u32, Seq<char>)|
        e.0 == AmdgpuPowerProfile::Capped.number() || e.0 == AmdgpuPowerProfile::Uncapped.number();
    if rows.len() == 0 {
        assert(Seq::<(u32, Seq<char>)>::empty().filter(keep) =~= Seq::<(u32, Seq<char>)>::empty());
    } else {
        law_deck_profiles(rows.drop_last());
        if profiles_in(rows.drop_last(), false) is Some {
            let before = profiles_in(rows.drop_last(), false)->0;
            if profile_line(rows.last()) is Some && u32_of(profile_line(rows.last())->0.value)
                is Some {
                let e = (
                    u32_of(profile_line(rows.last())->0.value)->0,
                    profile_line(rows.last())->0.name,
                );
                assert(before.push(e).drop_last() =~= before);
                assert(before.push(e).last() == e);
            }
        }
    }
}

/// Lines that are not of the table do not count, and a number that does not fit
/// spoils it.
pub proof fn law_other_rows(rows: Seq<Seq<char>>, row: Seq<char>, deck: bool)
    ensures
        profile_line(row) is None ==> profiles_in(rows.push(row), deck) == profiles_in(rows, deck),
        (profile_line(row) matches Some(l) && u32_of(l.value) is None) ==> profiles_in(
            rows.push(row),
            deck,
        ) is None,
        clock_line(row) is None ==> levels_in(rows.push(row)) == levels_in(rows),
        (clock_line(row) matches Some(d) && u32_of(d) is None) ==> levels_in(rows.push(row))
            is None,
{
    assert(rows.push(row).drop_last() =~= rows);
    assert(rows.push(row).last() == row);
}

/// Each line of the table of clocks adds its frequency.
pub proof fn law_levels_of_rows(rows: Seq<Seq<char>>, row: Seq<char>, mhz: u32)
    requires
        clock_line(row) matches Some(d) && u32_of(d) == Some(mhz),
    ensures
        levels_in(rows) is None ==> levels_in(rows.push(row)) is None,
        levels_in(rows) matches Some(before) ==> levels_in(rows.push(row)) == Some(
            before.push(mhz),
        ),
{
    assert(rows.push(row).drop_last() =~= rows);
    assert(rows.push(row).last() == row);
}

proof fn lemma_bounds_are_levels(levels: Seq<u32>)
    ensures
        lowest(levels) == 1_000_000 || levels.contains(lowest(levels)),
        highest(levels) == 0 || levels.contains(highest(levels)),
        lowest(levels) <= 1_000_000,
    decreases levels.len(),
{
    if levels.len() > 0 {
        let before = levels.drop_last();
        lemma_bounds_are_levels(before);
        assert(levels[levels.len() - 1] == levels.last());
        if before.contains(lowest(before)) {
            let i = choose|i: int| 0 <= i < before.len() && before[i] == lowest(before);
            assert(levels[i] == lowest(before));
        }
        if before.contains(highest(before)) {
            let i = choose|i: int| 0 <= i < before.len() && before[i] == highest(before);
            assert(levels[i] == highest(before));
        }
    }
}

/// The range holds every frequency of the table. Its upper bound is one of them,
/// and so is the lower one if it is below a million. There is no range exactly if
/// the table has no frequency, or one that does not fit.
pub proof fn law_range_of_table(rows: Seq<Seq<char>>)
    ensures
        levels_in(rows) is None <==> range_in(rows) == Err::<RangeConfig, GpuError>(
            GpuError::BadNumber,
        ),
        levels_in(rows) matches Some(levels) ==> {
            &&& (levels.len() == 0 <==> range_in(rows) == Err::<RangeConfig, GpuError>(
                GpuError::NoClocks,
            ))
            &&& (range_in(rows) matches Ok(r) ==> {
                &&& r.min <= r.max
                &&& forall|i: int| 0 <= i < levels.len() ==> r.min <= #[trigger] levels[i] <= r.max
                &&& levels.contains(r.max) || r.max == 0
                &&& (r.min < 1_000_000 ==> levels.contains(r.min))
                &&& r.min <= 1_000_000
            })
        },
{
    if levels_in(rows) is Some {
        let levels = levels_in(rows)->0;
        lemma_bounds_are_levels(levels);
        assert forall|i: int| 0 <= i < levels.len() implies lowest(levels) <= #[trigger] levels[i]
            <= highest(levels) by {
            law_levels_in_range(levels, i);
        }
        if levels.len() > 0 {
            law_levels_in_range(levels, 0);
        }
    }
}

/// What is left of a text does not end in `Mhz`, and one more `Mhz` at its end
/// changes nothing.
pub proof fn law_without_mhz(s: Seq<char>)
    ensures
        !ends_in_mhz(without_mhz(s)),
        without_mhz(s + "Mhz"@) == without_mhz(s),
        !ends_in_mhz(s) ==> without_mhz(s) == s,
    decreases s.len(),
{
    reveal_strlit("Mhz");
    assert((s + "Mhz"@).take(s.len() as int) =~= s);
    assert(ends_in_mhz(s + "Mhz"@));
    if ends_in_mhz(s) {
        law_without_mhz(s.take(s.len() - 3));
    }
}

/// A line with a number of `Mhz` as its second word stands for that number.
pub proof fn law_clock_reads_back(first: Seq<char>, mhz: u32)
    requires
        first.len() > 0,
        forall|i: int| 0 <= i < first.len() ==> !is_white(#[trigger] first[i]),
    ensures
        clock_of(first.push(' ') + (decimal(mhz as nat) + "Mhz"@)) == Ok::<u32, GpuError>(mhz),
{
    reveal_strlit("Mhz");
    let d = decimal(mhz as nat);
    let word = d + "Mhz"@;
    lemma_decimal(mhz as nat);
    law_unsigned_reads_back(mhz as nat);
    assert forall|i: int| 0 <= i < word.len() implies !is_white(#[trigger] word[i]) by {
        if i < d.len() {
            assert(is_digit(d[i]));
            assert(word[i] == d[i]);
        } else {
            assert(word[i] == "Mhz"@[i - d.len()]);
        }
    }
    law_words_cut(first, ' ', word);
    law_one_word(first);
    law_one_word(word);
    let words = words_of(first.push(' ') + word);
    assert(words =~= seq![first, word]);
    assert(word.skip(word.len() - 3) =~= "Mhz"@);
    law_without_mhz(d);
    assert(is_digit(d[d.len() - 1]));
}

/// The clock stands in the line behind the heading. Lines before the heading do
/// not matter, and a table without it, or with nothing behind it, has clock 0.
pub proof fn law_clock_follows_heading(line: Seq<char>, next: Seq<char>, rest: Seq<char>)
    requires
        has_no(line, '\n'),
        has_no(next, '\n'),
    ensures
        clock_in(line) == Ok::<u32, GpuError>(0),
        line != "OD_SCLK:"@ ==> clock_in(line.push('\n') + rest) == clock_in(rest),
        line == "OD_SCLK:"@ ==> clock_in(line.push('\n') + next) == clock_of(next),
        line == "OD_SCLK:"@ ==> clock_in(line.push('\n') + (next.push('\n') + rest)) == clock_of(
            next,
        ),
{
    let sep = crate::text::at_char('\n');
    lemma_pieces_plain(line, sep);
    lemma_pieces_plain(next, sep);
    assert(pieces_of(line, '\n').drop_last() =~= Seq::<Seq<char>>::empty());
    lemma_pieces_cut(line, '\n', rest, sep);
    lemma_pieces_cut(line, '\n', next, sep);
    lemma_pieces_cut(next, '\n', rest, sep);
    lemma_pieces_cut(line, '\n', next.push('\n') + rest, sep);
    lemma_pieces_not_empty(rest, sep);
    let tail = pieces_of(rest, '\n');
    let parts = pieces_of(line.push('\n') + rest, '\n');
    assert(parts =~= seq![line] + tail);
    assert(parts.drop_last() =~= seq![line] + tail.drop_last());
    assert(parts.drop_last().skip(1) =~= tail.drop_last());
    assert(parts.drop_last()[0] == line);
    lemma_heading(tail.drop_last());
    let at = heading_at(tail.drop_last());
    if line != "OD_SCLK:"@ && at < tail.len() - 1 {
        assert(parts[at + 2] == tail[at + 1]);
    }
    let p2 = pieces_of(line.push('\n') + next, '\n');
    assert(p2 =~= seq![line, next]);
    assert(p2.drop_last()[0] == line);
    let p3 = pieces_of(line.push('\n') + (next.push('\n') + rest), '\n');
    assert(p3 =~= seq![line] + (seq![next] + tail));
    assert(p3.drop_last()[0] == line);
    assert(p3[1] == next);
}

proof fn lemma_heading(ended: Seq<Seq<char>>)
    ensures
        0 <= heading_at(ended) <= ended.len(),
    decreases ended.len(),
{
    if ended.len() > 0 && ended[0] != "OD_SCLK:"@ {
        lemma_heading(ended.skip(1));
    }
}

} // verus!
