//! The battery's charge limit and the platform profiles.
use crate::numbers::{
    decimal, i32_of, law_signed_reads_back, lemma_decimal, parse_i32, signed_decimal,
    to_signed_decimal,
};
use crate::text::{
    all_white, is_digit, is_white, law_trimmed_padded, pieces_of, same_text, split, texts, trim,
    trimmed, trimmed_end, trimmed_start, view_of,
};
use vstd::prelude::*;

verus! {

/// The lowest charge limit that is suggested unless a device says otherwise.
pub const BATTERY_DEFAULT_SUGGESTED_MINIMUM_LIMIT: i32 = 10;

/// Where the charge limit of the battery is set.
#[derive(Debug, PartialEq, Eq)]
pub enum BatteryChargeLimitMethod {
    /// In the directory of the ACPI battery driver.
    AcpiSb,
    /// In an attribute of a hwmon device.
    HwmonAttribute { hwmon: String, attribute: String },
}

impl Default for BatteryChargeLimitMethod {
    fn default() -> (r: Self)
        ensures
            r == BatteryChargeLimitMethod::AcpiSb,
    {
        BatteryChargeLimitMethod::AcpiSb
    }
}

impl BatteryChargeLimitMethod {
    pub open spec fn spelling(self) -> Seq<char> {
        match self {
            BatteryChargeLimitMethod::AcpiSb => "acpi_sb"@,
            BatteryChargeLimitMethod::HwmonAttribute { .. } => "hwmon_attribute"@,
        }
    }

    pub fn to_string(&self) -> (r: String)
        ensures
            r@ == self.spelling(),
    {
        match self {
            BatteryChargeLimitMethod::AcpiSb => "acpi_sb".to_owned(),
            BatteryChargeLimitMethod::HwmonAttribute { .. } => "hwmon_attribute".to_owned(),
        }
    }
}

/// The `type` file of a power supply.
#[derive(Debug, PartialEq, Eq)]
pub enum SupplyType {
    Contents(String),
    NotFound,
    Unreadable,
}

/// An entry of the directory of power supplies.
#[derive(Debug, PartialEq, Eq)]
pub struct PowerSupply {
    pub is_dir: bool,
    pub supply_type: SupplyType,
    pub has_limit: bool,
}

/// Whether the entry is the battery whose limit can be set.
pub open spec fn is_battery(s: PowerSupply) -> bool {
    &&& s.is_dir
    &&& s.supply_type matches SupplyType::Contents(t) && trimmed(t@) == "Battery"@
    &&& s.has_limit
}

/// Whether the search for the battery fails at the entry.
pub open spec fn is_unreadable(s: PowerSupply) -> bool {
    s.is_dir && s.supply_type is Unreadable
}

/// What the search for the battery comes to.
#[derive(Clone, Copy, Debug, PartialEq, Eq, Structural)]
pub enum BatterySearch {
    /// The entry at this place.
    Found(usize),
    /// The type of the entry at this place could not be read.
    Failed(usize),
    /// "Battery not found".
    NotFound,
}

/// Whether a search ends at the first battery with a charge limit, or at the
/// first entry before it whose type could not be read.
pub open spec fn is_search(supplies: Seq<PowerSupply>, r: BatterySearch) -> bool {
    match r {
        BatterySearch::Found(i) => {
            &&& i < supplies.len()
            &&& is_battery(supplies[i as int])
            &&& forall|j: int|
                0 <= j < i ==> !is_battery(#[trigger] supplies[j]) && !is_unreadable(supplies[j])
        },
        BatterySearch::Failed(i) => {
            &&& i < supplies.len()
            &&& is_unreadable(supplies[i as int])
            &&& forall|j: int|
                0 <= j < i ==> !is_battery(#[trigger] supplies[j]) && !is_unreadable(supplies[j])
        },
        BatterySearch::NotFound => forall|j: int|
            0 <= j < supplies.len() ==> !is_battery(#[trigger] supplies[j]) && !is_unreadable(
                supplies[j],
            ),
    }
}

/// The first battery with a charge limit, or the first entry before it whose
/// type could not be read.
pub fn find_battery(supplies: &Vec<PowerSupply>) -> (r: BatterySearch)
    ensures
        is_search(supplies@, r),
{
    for i in 0..supplies.len()
        invariant
            forall|j: int|
                0 <= j < i ==> !is_battery(#[trigger] supplies@[j]) && !is_unreadable(supplies@[j]),
    {
        if supplies[i].is_dir {
            match &supplies[i].supply_type {
                SupplyType::Contents(t) => {
                    if same_text(trim(t.as_str()).as_str(), "Battery") && supplies[i].has_limit {
                        return BatterySearch::Found(i);
                    }
                },
                SupplyType::Unreadable => {
                    return BatterySearch::Failed(i);
                },
                SupplyType::NotFound => {},
            }
        }
    }
    BatterySearch::NotFound
}

/// Where the charge limit is set.
#[derive(Clone, Copy, Debug, PartialEq, Eq, Structural)]
pub enum ChargePath {
    /// In the power supply at this place.
    Supply(usize),
    /// In the attribute of the hwmon device.
    HwmonAttribute,
}

/// Why the charge limit cannot be set.
#[derive(Clone, Copy, Debug, PartialEq, Eq, Structural)]
pub enum ChargePathError {
    /// "No battery charge limit configured".
    NotConfigured,
    /// "Battery not found".
    NotFound,
    /// The type of the power supply at this place could not be read.
    Unreadable(usize),
}

impl ChargePathError {
    /// What is reported, where it is worded here and not by what failed.
    pub open spec fn text(self) -> Option<Seq<char>> {
        match self {
            ChargePathError::NotConfigured => Some("No battery charge limit configured"@),
            ChargePathError::NotFound => Some("Battery not found"@),
            ChargePathError::Unreadable(_) => None,
        }
    }

    /// What is reported, where it is worded here and not by what failed.
    pub fn message(self) -> (r: Option<String>)
        ensures
            view_of(r) == self.text(),
    {
        match self {
            ChargePathError::NotConfigured => Some("No battery charge limit configured".to_owned()),
            ChargePathError::NotFound => Some("Battery not found".to_owned()),
            ChargePathError::Unreadable(_) => None,
        }
    }
}

/// Where the charge limit is set, by the method that is configured. With the
/// ACPI driver it is the first battery among `supplies`, unless the type of an
/// entry before it could not be read; with a hwmon device it is the attribute,
/// if that exists.
pub fn find_battery_charge_path(
    method: &Option<BatteryChargeLimitMethod>,
    supplies: &Vec<PowerSupply>,
    attribute_exists: bool,
) -> (r: Result<ChargePath, ChargePathError>)
    ensures
        match *method {
            None => r == Err::<ChargePath, ChargePathError>(ChargePathError::NotConfigured),
            Some(BatteryChargeLimitMethod::AcpiSb) => match r {
                Ok(ChargePath::Supply(i)) => is_search(supplies@, BatterySearch::Found(i)),
                Err(ChargePathError::Unreadable(i)) => is_search(
                    supplies@,
                    BatterySearch::Failed(i),
                ),
                Err(ChargePathError::NotFound) => is_search(supplies@, BatterySearch::NotFound),
                _ => false,
            },
            Some(BatteryChargeLimitMethod::HwmonAttribute { .. }) => r == (if attribute_exists {
                Ok::<ChargePath, ChargePathError>(ChargePath::HwmonAttribute)
            } else {
                Err(ChargePathError::NotFound)
            }),
        },
{
    match method {
        None => Err(ChargePathError::NotConfigured),
        Some(BatteryChargeLimitMethod::AcpiSb) => match find_battery(supplies) {
            BatterySearch::Found(i) => Ok(ChargePath::Supply(i)),
            BatterySearch::Failed(i) => Err(ChargePathError::Unreadable(i)),
            BatterySearch::NotFound => Err(ChargePathError::NotFound),
        },
        Some(BatteryChargeLimitMethod::HwmonAttribute { .. }) => {
            if attribute_exists {
                Ok(ChargePath::HwmonAttribute)
            } else {
                Err(ChargePathError::NotFound)
            }
        },
    }
}

/// The charge level that the contents of the limit file stand for.
pub fn get_max_charge_level(contents: &str) -> (r: Option<i32>)
    ensures
        r == i32_of(trimmed(contents@)),
{
    parse_i32(trim(contents).as_str())
}

/// "Invalid limit".
#[derive(Clone, Copy, Debug, PartialEq, Eq, Structural)]
pub struct InvalidLimit;

impl InvalidLimit {
    /// What is reported.
    pub fn message(self) -> (r: String)
        ensures
            r@ == "Invalid limit"@,
    {
        "Invalid limit".to_owned()
    }
}

/// What is written to set the charge level, in percent.
pub fn set_max_charge_level(limit: i32) -> (r: Result<String, InvalidLimit>)
    ensures
        match r {
            Ok(data) => 0 <= limit <= 100 && data@ == signed_decimal(limit as int),
            Err(_) => !(0 <= limit <= 100),
        },
        r matches Ok(data) ==> i32_of(data@) == Some(limit),
{
    proof {
        law_signed_reads_back(limit as int);
    }
    if limit >= 0 && limit <= 100 {
        Ok(to_signed_decimal(limit as i64))
    } else {
        Err(InvalidLimit)
    }
}

/// The charge level that was set is the one that is read.
pub proof fn law_charge_level_reads_back(limit: i32)
    requires
        0 <= limit <= 100,
    ensures
        i32_of(trimmed(signed_decimal(limit as int))) == Some(limit),
{
    let d = decimal(limit as nat);
    lemma_decimal(limit as nat);
    assert(is_digit(d[0]));
    assert(is_digit(d[d.len() - 1]));
    assert(!is_white(d[0]));
    assert(!is_white(d.last()));
    assert(trimmed_start(d) == d);
    assert(trimmed_end(d) == d);
    assert(d[0] != '-');
}

/// The platform profiles that a device offers.
pub fn get_available_platform_profiles(choices: &str) -> (r: Vec<String>)
    ensures
        texts(r@) == pieces_of(trimmed(choices@), ' '),
{
    split(trim(choices).as_str(), ' ')
}

/// The platform profile that is set.
pub fn get_platform_profile(contents: &str) -> (r: String)
    ensures
        r@ == trimmed(contents@),
{
    trim(contents)
}

/// A search has one outcome. What is found is a directory of a battery with a
/// charge limit, and no entry before it is one or could not be read.
pub proof fn law_search_outcome(
    supplies: Seq<PowerSupply>,
    r: BatterySearch,
    s: BatterySearch,
    j: int,
)
    requires
        is_search(supplies, r),
        is_search(supplies, s),
        0 <= j < supplies.len(),
    ensures
        r == s,
        r matches BatterySearch::Found(i) ==> {
            let found = supplies[i as int];
            &&& found.is_dir && found.has_limit
            &&& found.supply_type matches SupplyType::Contents(t) && trimmed(t@) == "Battery"@
        },
        r matches BatterySearch::Failed(i) ==> supplies[i as int].is_dir
            && supplies[i as int].supply_type is Unreadable,
        (supplies[j].is_dir && supplies[j].supply_type is Unreadable) ==> match r {
            BatterySearch::Found(i) => i <= j,
            BatterySearch::Failed(i) => i <= j,
            BatterySearch::NotFound => false,
        },
        (supplies[j].supply_type matches SupplyType::Contents(t) && trimmed(t@) == "Battery"@
            && supplies[j].is_dir && supplies[j].has_limit) ==> match r {
            BatterySearch::Found(i) => i <= j,
            BatterySearch::Failed(i) => i <= j,
            BatterySearch::NotFound => false,
        },
{
    match r {
        BatterySearch::Found(i) => {
            match s {
                BatterySearch::Found(k) => {
                    if i < k {
                        assert(!is_battery(supplies[i as int]));
                    }
                    if k < i {
                        assert(!is_battery(supplies[k as int]));
                    }
                },
                BatterySearch::Failed(k) => {
                    if i < k {
                        assert(!is_battery(supplies[i as int]));
                    }
                    if k < i {
                        assert(!is_unreadable(supplies[k as int]));
                    }
                },
                BatterySearch::NotFound => {
                    assert(!is_battery(supplies[i as int]));
                },
            }
        },
        BatterySearch::Failed(i) => {
            match s {
                BatterySearch::Found(k) => {
                    if i < k {
                        assert(!is_unreadable(supplies[i as int]));
                    }
                    if k < i {
                        assert(!is_battery(supplies[k as int]));
                    }
                },
                BatterySearch::Failed(k) => {
                    if i < k {
                        assert(!is_unreadable(supplies[i as int]));
                    }
                    if k < i {
                        assert(!is_unreadable(supplies[k as int]));
                    }
                },
                BatterySearch::NotFound => {
                    assert(!is_unreadable(supplies[i as int]));
                },
            }
        },
        BatterySearch::NotFound => {
            match s {
                BatterySearch::Found(k) => {
                    assert(!is_battery(supplies[k as int]));
                },
                BatterySearch::Failed(k) => {
                    assert(!is_unreadable(supplies[k as int]));
                },
                BatterySearch::NotFound => {},
            }
        },
    }
    assert(supplies[j] == supplies[j]);
}

/// White space around the charge level does not matter.
pub proof fn law_padded_charge_level(left: Seq<char>, limit: i32, right: Seq<char>)
    requires
        all_white(left),
        all_white(right),
    ensures
        i32_of(trimmed(left + signed_decimal(limit as int) + right)) == Some(limit),
{
    let d = signed_decimal(limit as int);
    law_signed_reads_back(limit as int);
    if limit < 0 {
        let m = decimal((0 - limit) as nat);
        lemma_decimal((0 - limit) as nat);
        assert(d[0] == '-');
        assert(d.last() == m.last());
        assert(is_digit(m[m.len() - 1]));
    } else {
        lemma_decimal(limit as nat);
        assert(is_digit(d[0]));
        assert(is_digit(d[d.len() - 1]));
    }
    law_trimmed_padded(left, d, right);
}

} // verus!
