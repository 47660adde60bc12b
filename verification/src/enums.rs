//! What reading an enumeration's value can fail with.
use crate::numbers::{signed_decimal, to_signed_decimal};
use vstd::prelude::*;

verus! {

/// No value is written as the given text.
#[derive(Clone, Copy, Debug, PartialEq, Eq, Structural)]
pub struct VariantNotFound;

/// No value has the given number.
#[derive(Clone, Copy, Debug, PartialEq, Eq, Structural)]
pub struct UnknownNumber {
    pub number: i64,
}

pub open spec fn or_not_found<T>(value: Option<T>) -> Result<T, VariantNotFound> {
    match value {
        Some(v) => Ok(v),
        None => Err(VariantNotFound),
    }
}

pub open spec fn or_unknown<T>(value: Option<T>, number: i64) -> Result<T, UnknownNumber> {
    match value {
        Some(v) => Ok(v),
        None => Err(UnknownNumber { number }),
    }
}

impl VariantNotFound {
    pub fn to_string(&self) -> (r: String)
        ensures
            r@ == "Matching variant not found"@,
    {
        "Matching variant not found".to_owned()
    }
}

impl UnknownNumber {
    /// The message about an unknown value of the enumeration `name`.
    pub fn message(&self, name: &str) -> (r: String)
        ensures
            r@ == "No discriminant in enum `"@ + name@ + "` matches the value `"@ + signed_decimal(
                self.number as int,
            ) + "`"@,
    {
        let mut r: String = "No discriminant in enum `".to_owned();
        r.append(name);
        r.append("` matches the value `");
        r.append(to_signed_decimal(self.number).as_str());
        r.append("`");
        r
    }
}

/// A value that was found is what is read; if none was found, the failure names
/// the number.
pub proof fn law_failures_name_number<T>(value: Option<T>, number: i64)
    ensures
        or_unknown(value, number) matches Ok(v) ==> value == Some(v),
        or_unknown(value, number) matches Err(e) ==> value is None && e.number == number,
        or_not_found(value) matches Ok(v) ==> value == Some(v),
        or_not_found(value) is Err <==> value is None,
        or_unknown(value, number) is Err <==> value is None,
{
}

} // verus!
