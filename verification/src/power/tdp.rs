//! Power limits of the processor: how they are read and set by each method.
use crate::hardware::{AcpiCallAlibConfig, RangeConfig, TdpLimitConfig};
use crate::numbers::{
    all_digits, decimal, digits_value, hex_char, hexadecimal_2, law_padded_number,
    law_unsigned_reads_back, lemma_decimal, lemma_hexadecimal_pair, number_of, parse_u32,
    push_hexadecimal_2, to_decimal, u32_of,
};
use crate::power::TdpLimitingMethod;
use crate::text::{
    all_white, concat, is_digit, is_white, trim, trim_end, trimmed, trimmed_end, view_of,
};
use vstd::prelude::*;

verus! {

/// Why a power limit cannot be read or set.
#[derive(Clone, Copy, Debug, PartialEq, Eq, Structural)]
pub enum TdpError {
    FirmwareAttributeMissing,
    AcpiCallAlibMissing,
    NotActive,
    NotConfigured,
    NoRange,
    InvalidLimit,
    BadNumber,
    NoReadback,
    NoRemoteManager,
    PowerOverflow,
    SlowTimeOverflow,
    StapmTimeOverflow,
    TemperatureOverflow,
}

impl TdpError {
    /// What is reported, where it is worded here and not by what failed.
    pub open spec fn text(self) -> Option<Seq<char>> {
        match self {
            TdpError::FirmwareAttributeMissing => Some(
                "Firmware attribute TDP limiting method not configured"@,
            ),
            TdpError::AcpiCallAlibMissing => Some(
                "ACPI call ALIB TDP limiting method not configured"@,
            ),
            TdpError::NotActive => Some("TDP limiting not active"@),
            TdpError::NotConfigured => Some("No TDP limit configured"@),
            TdpError::NoRange => Some("No TDP limit range configured"@),
            TdpError::InvalidLimit => Some("Invalid limit"@),
            TdpError::BadNumber => None,
            TdpError::NoReadback => Some(
                "Current TDP readback is not supported for acpi_call_alib"@,
            ),
            TdpError::NoRemoteManager => Some("No remote TDP manager"@),
            TdpError::PowerOverflow => Some("ALIB power scaling overflow"@),
            TdpError::SlowTimeOverflow => Some("ALIB slow time scaling overflow"@),
            TdpError::StapmTimeOverflow => Some("ALIB STAPM time scaling overflow"@),
            TdpError::TemperatureOverflow => Some("ALIB temperature scaling overflow"@),
        }
    }

    /// What is reported, where it is worded here and not by what failed.
    pub fn message(self) -> (r: Option<String>)
        ensures
            view_of(r) == self.text(),
    {
        match self {
            TdpError::FirmwareAttributeMissing => Some(
                "Firmware attribute TDP limiting method not configured".to_owned(),
            ),
            TdpError::AcpiCallAlibMissing => Some(
                "ACPI call ALIB TDP limiting method not configured".to_owned(),
            ),
            TdpError::NotActive => Some("TDP limiting not active".to_owned()),
            TdpError::NotConfigured => Some("No TDP limit configured".to_owned()),
            TdpError::NoRange => Some("No TDP limit range configured".to_owned()),
            TdpError::InvalidLimit => Some("Invalid limit".to_owned()),
            TdpError::BadNumber => None,
            TdpError::NoReadback => Some(
                "Current TDP readback is not supported for acpi_call_alib".to_owned(),
            ),
            TdpError::NoRemoteManager => Some("No remote TDP manager".to_owned()),
            TdpError::PowerOverflow => Some("ALIB power scaling overflow".to_owned()),
            TdpError::SlowTimeOverflow => Some("ALIB slow time scaling overflow".to_owned()),
            TdpError::StapmTimeOverflow => Some("ALIB STAPM time scaling overflow".to_owned()),
            TdpError::TemperatureOverflow => Some("ALIB temperature scaling overflow".to_owned()),
        }
    }
}

// ---------------------------------------------------------------------------
// ALIB: the payload and the command
// ---------------------------------------------------------------------------

/// The four bytes of a number, the least significant first.
pub open spec fn le_bytes(v: u32) -> Seq<u8> {
    seq![
        (v % 256) as u8,
        (v / 256 % 256) as u8,
        (v / 65536 % 256) as u8,
        (v / 16777216) as u8,
    ]
}

/// The number of four bytes, the least significant first.
pub open spec fn le_value(b: Seq<u8>) -> int {
    b[0] + 256 * b[1] + 65536 * b[2] + 16777216 * b[3]
}

/// One parameter of the payload: its identifier and its value.
pub open spec fn alib_param(param: u8, value: u32) -> Seq<u8> {
    seq![param] + le_bytes(value)
}

/// Appends one parameter to an ALIB payload.
pub fn append_alib_param(payload: &mut Vec<u8>, param: u8, value: u32)
    ensures
        final(payload)@ == old(payload)@ + alib_param(param, value),
{
    payload.push(param);
    payload.push((value % 256) as u8);
    payload.push((value / 256 % 256) as u8);
    payload.push((value / 65536 % 256) as u8);
    payload.push((value / 16777216) as u8);
    assert(payload@ =~= old(payload)@ + alib_param(param, value));
}

/// The values that the payload carries for a limit.
pub struct AlibValues {
    pub power: u32,
    pub slow_time: u32,
    pub stapm_time: u32,
    pub temp_target: u32,
}

/// The scaled values, or the first of them that does not fit.
pub open spec fn alib_values(config: AcpiCallAlibConfig, limit: u32) -> Result<
    AlibValues,
    TdpError,
> {
    if limit * config.power_scale > u32::MAX {
        Err(TdpError::PowerOverflow)
    } else if config.slow_time * config.time_scale > u32::MAX {
        Err(TdpError::SlowTimeOverflow)
    } else if config.stapm_time * config.time_scale > u32::MAX {
        Err(TdpError::StapmTimeOverflow)
    } else if config.temp_target * config.temp_scale > u32::MAX {
        Err(TdpError::TemperatureOverflow)
    } else {
        Ok(
            AlibValues {
                power: (limit * config.power_scale) as u32,
                slow_time: (config.slow_time * config.time_scale) as u32,
                stapm_time: (config.stapm_time * config.time_scale) as u32,
                temp_target: (config.temp_target * config.temp_scale) as u32,
            },
        )
    }
}

/// The payload: its own length in two bytes, then seven parameters.
pub open spec fn alib_payload(config: AcpiCallAlibConfig, v: AlibValues) -> Seq<u8> {
    seq![37u8, 0u8] + alib_param(config.stapm_limit_id, v.power) + alib_param(
        config.fast_limit_id,
        v.power,
    ) + alib_param(config.slow_limit_id, v.power) + alib_param(config.slow_time_id, v.slow_time)
        + alib_param(config.stapm_time_id, v.stapm_time) + alib_param(
        config.temp_target_id,
        v.temp_target,
    ) + alib_param(config.skin_limit_id, v.power)
}

/// The payload of the ALIB call that sets the power limit to `limit`.
pub fn build_acpi_call_alib_payload(config: &AcpiCallAlibConfig, limit: u32) -> (r: Result<
    Vec<u8>,
    TdpError,
>)
    ensures
        match alib_values(*config, limit) {
            Ok(v) => r matches Ok(p) && p@ == alib_payload(*config, v),
            Err(e) => r matches Err(f) && f == e,
        },
{
    let power: u32 = match limit.checked_mul(config.power_scale) {
        Some(v) => v,
        None => return Err(TdpError::PowerOverflow),
    };
    let slow_time: u32 = match config.slow_time.checked_mul(config.time_scale) {
        Some(v) => v,
        None => return Err(TdpError::SlowTimeOverflow),
    };
    let stapm_time: u32 = match config.stapm_time.checked_mul(config.time_scale) {
        Some(v) => v,
        None => return Err(TdpError::StapmTimeOverflow),
    };
    let temp_target: u32 = match config.temp_target.checked_mul(config.temp_scale) {
        Some(v) => v,
        None => return Err(TdpError::TemperatureOverflow),
    };
    let mut payload: Vec<u8> = Vec::new();
    payload.push(37);
    payload.push(0);
    assert(payload@ =~= seq![37u8, 0u8]);
    append_alib_param(&mut payload, config.stapm_limit_id, power);
    append_alib_param(&mut payload, config.fast_limit_id, power);
    append_alib_param(&mut payload, config.slow_limit_id, power);
    append_alib_param(&mut payload, config.slow_time_id, slow_time);
    append_alib_param(&mut payload, config.stapm_time_id, stapm_time);
    append_alib_param(&mut payload, config.temp_target_id, temp_target);
    append_alib_param(&mut payload, config.skin_limit_id, power);
    Ok(payload)
}

/// Bytes in hexadecimal, two digits each.
pub open spec fn hex_bytes(b: Seq<u8>) -> Seq<char>
    decreases b.len(),
{
    if b.len() == 0 {
        Seq::empty()
    } else {
        hex_bytes(b.drop_last()) + hexadecimal_2(b.last() as nat)
    }
}

/// The command that hands `payload` to function 12 of the ACPI method.
pub open spec fn acpi_call_command(method: Seq<char>, payload: Seq<u8>) -> Seq<char> {
    method + " 0x0c b"@ + hex_bytes(payload)
}

pub fn build_acpi_call_command(method: &str, payload: &[u8]) -> (r: String)
    ensures
        r@ == acpi_call_command(method@, payload@),
{
    let mut r: String = concat(method, " 0x0c b");
    let ghost head = r@;
    assert(payload@.take(0) =~= Seq::<u8>::empty());
    assert(r@ =~= head + hex_bytes(payload@.take(0)));
    for i in 0..payload.len()
        invariant
            r@ == head + hex_bytes(payload@.take(i as int)),
    {
        assert(payload@.take(i + 1).drop_last() =~= payload@.take(i as int));
        push_hexadecimal_2(&mut r, payload[i] as u32);
        assert(r@ =~= head + hex_bytes(payload@.take(i + 1)));
    }
    assert(payload@.take(payload@.len() as int) =~= payload@);
    r
}

/// The bytes of a number stand for the number.
#[verifier::rlimit(40)]
pub proof fn law_le_bytes_read_back(v: u32)
    ensures
        le_value(le_bytes(v)) == v,
{
}

/// The payload holds its own length, and after it the seven parameters at
/// their places, each with its scaled value.
pub proof fn law_alib_payload_layout(config: AcpiCallAlibConfig, v: AlibValues)
    ensures
        alib_payload(config, v).len() == 37,
        alib_payload(config, v)[0] + 256 * alib_payload(config, v)[1] == alib_payload(
            config,
            v,
        ).len(),
        alib_payload(config, v).subrange(2, 7) == alib_param(config.stapm_limit_id, v.power),
        alib_payload(config, v).subrange(7, 12) == alib_param(config.fast_limit_id, v.power),
        alib_payload(config, v).subrange(12, 17) == alib_param(config.slow_limit_id, v.power),
        alib_payload(config, v).subrange(17, 22) == alib_param(config.slow_time_id, v.slow_time),
        alib_payload(config, v).subrange(22, 27) == alib_param(config.stapm_time_id, v.stapm_time),
        alib_payload(config, v).subrange(27, 32) == alib_param(
            config.temp_target_id,
            v.temp_target,
        ),
        alib_payload(config, v).subrange(32, 37) == alib_param(config.skin_limit_id, v.power),
{
    let p = alib_payload(config, v);
    assert(p.subrange(2, 7) =~= alib_param(config.stapm_limit_id, v.power));
    assert(p.subrange(7, 12) =~= alib_param(config.fast_limit_id, v.power));
    assert(p.subrange(12, 17) =~= alib_param(config.slow_limit_id, v.power));
    assert(p.subrange(17, 22) =~= alib_param(config.slow_time_id, v.slow_time));
    assert(p.subrange(22, 27) =~= alib_param(config.stapm_time_id, v.stapm_time));
    assert(p.subrange(27, 32) =~= alib_param(config.temp_target_id, v.temp_target));
    assert(p.subrange(32, 37) =~= alib_param(config.skin_limit_id, v.power));
}

proof fn lemma_param_value(p: Seq<u8>, at: int, id: u8, value: u32)
    requires
        0 <= at,
        at + 5 <= p.len(),
        p.subrange(at, at + 5) == alib_param(id, value),
    ensures
        p[at] == id,
        le_value(p.subrange(at + 1, at + 5)) == value,
{
    assert(p[at] == p.subrange(at, at + 5)[0]);
    assert(p.subrange(at + 1, at + 5) =~= p.subrange(at, at + 5).skip(1));
    assert(alib_param(id, value).skip(1) =~= le_bytes(value));
    law_le_bytes_read_back(value);
}

/// There is a payload exactly if all scaled values fit in 32 bits. It carries
/// the limit times its scale as the value of each of the four power limits, and
/// the times and the temperature times their scales, each behind its identifier.
pub proof fn law_alib_values_are_scaled(config: AcpiCallAlibConfig, limit: u32)
    ensures
        alib_values(config, limit) is Ok <==> limit * config.power_scale <= u32::MAX
            && config.slow_time * config.time_scale <= u32::MAX && config.stapm_time
            * config.time_scale <= u32::MAX && config.temp_target * config.temp_scale <= u32::MAX,
        alib_values(config, limit) matches Ok(v) ==> {
            let p = alib_payload(config, v);
            &&& p.len() == 37
            &&& le_value(p.subrange(3, 7)) == limit * config.power_scale
            &&& le_value(p.subrange(8, 12)) == limit * config.power_scale
            &&& le_value(p.subrange(13, 17)) == limit * config.power_scale
            &&& le_value(p.subrange(18, 22)) == config.slow_time * config.time_scale
            &&& le_value(p.subrange(23, 27)) == config.stapm_time * config.time_scale
            &&& le_value(p.subrange(28, 32)) == config.temp_target * config.temp_scale
            &&& le_value(p.subrange(33, 37)) == limit * config.power_scale
            &&& p[2] == config.stapm_limit_id
            &&& p[7] == config.fast_limit_id
            &&& p[12] == config.slow_limit_id
            &&& p[17] == config.slow_time_id
            &&& p[22] == config.stapm_time_id
            &&& p[27] == config.temp_target_id
            &&& p[32] == config.skin_limit_id
        },
{
    match alib_values(config, limit) {
        Ok(v) => {
            let p = alib_payload(config, v);
            law_alib_payload_layout(config, v);
            lemma_param_value(p, 2, config.stapm_limit_id, v.power);
            lemma_param_value(p, 7, config.fast_limit_id, v.power);
            lemma_param_value(p, 12, config.slow_limit_id, v.power);
            lemma_param_value(p, 17, config.slow_time_id, v.slow_time);
            lemma_param_value(p, 22, config.stapm_time_id, v.stapm_time);
            lemma_param_value(p, 27, config.temp_target_id, v.temp_target);
            lemma_param_value(p, 32, config.skin_limit_id, v.power);
        },
        Err(_) => {},
    }
}

/// Two limits that can be set and differ have payloads that differ, unless power
/// is scaled to nothing.
pub proof fn law_alib_limits_differ(config: AcpiCallAlibConfig, a: u32, b: u32)
    requires
        a != b,
        config.power_scale != 0,
    ensures
        (alib_values(config, a), alib_values(config, b)) matches (Ok(v), Ok(w)) ==> alib_payload(
            config,
            v,
        ) != alib_payload(config, w),
{
    law_alib_values_are_scaled(config, a);
    law_alib_values_are_scaled(config, b);
    assert(a * config.power_scale != b * config.power_scale) by (nonlinear_arith)
        requires
            a != b,
            config.power_scale != 0,
    ;
}

proof fn lemma_hex_byte_injective(a: u8, b: u8)
    requires
        hexadecimal_2(a as nat) == hexadecimal_2(b as nat),
    ensures
        a == b,
{
    lemma_hexadecimal_pair(a as nat);
    lemma_hexadecimal_pair(b as nat);
    let s = hexadecimal_2(a as nat);
    assert(s[0] == hex_char(a as nat / 16) && s[0] == hex_char(b as nat / 16));
    assert(s[1] == hex_char(a as nat % 16) && s[1] == hex_char(b as nat % 16));
}

proof fn lemma_hex_bytes_len(p: Seq<u8>)
    ensures
        hex_bytes(p).len() == 2 * p.len(),
    decreases p.len(),
{
    if p.len() > 0 {
        lemma_hex_bytes_len(p.drop_last());
        lemma_hexadecimal_pair(p.last() as nat);
    }
}

proof fn lemma_hex_bytes_injective(p: Seq<u8>, q: Seq<u8>)
    requires
        hex_bytes(p) == hex_bytes(q),
    ensures
        p == q,
    decreases p.len(),
{
    lemma_hex_bytes_len(p);
    lemma_hex_bytes_len(q);
    if p.len() > 0 {
        let s = hex_bytes(p);
        lemma_hexadecimal_pair(p.last() as nat);
        lemma_hexadecimal_pair(q.last() as nat);
        lemma_hex_bytes_len(p.drop_last());
        lemma_hex_bytes_len(q.drop_last());
        let n = s.len() - 2;
        assert(s.take(n) =~= hex_bytes(p.drop_last()));
        assert(s.take(n) =~= hex_bytes(q.drop_last()));
        assert(s.skip(n) =~= hexadecimal_2(p.last() as nat));
        assert(s.skip(n) =~= hexadecimal_2(q.last() as nat));
        lemma_hex_byte_injective(p.last(), q.last());
        lemma_hex_bytes_injective(p.drop_last(), q.drop_last());
        assert(p.drop_last().push(p.last()) =~= p);
        assert(q.drop_last().push(q.last()) =~= q);
    } else {
        assert(p =~= q);
    }
}

/// A command determines its payload: two payloads with the same command for
/// one method are the same.
pub proof fn law_command_determines_payload(method: Seq<char>, p: Seq<u8>, q: Seq<u8>)
    requires
        acpi_call_command(method, p) == acpi_call_command(method, q),
    ensures
        p == q,
{
    let head = method + " 0x0c b"@;
    assert(acpi_call_command(method, p).skip(head.len() as int) =~= hex_bytes(p));
    assert(acpi_call_command(method, q).skip(head.len() as int) =~= hex_bytes(q));
    lemma_hex_bytes_injective(p, q);
}

/// The number of a hexadecimal digit in lower case.
pub open spec fn hex_digit_value(c: char) -> int {
    if '0' <= c <= '9' {
        c as int - '0' as int
    } else {
        c as int - 'a' as int + 10
    }
}

/// The command is the method, the function and a buffer; the buffer has two
/// hexadecimal digits for each byte of the payload, the higher one first.
pub proof fn law_command_holds_payload(method: Seq<char>, p: Seq<u8>, i: int)
    requires
        0 <= i < p.len(),
    ensures
        acpi_call_command(method, p).len() == method.len() + 7 + 2 * p.len(),
        acpi_call_command(method, p).take(method.len() as int) == method,
        acpi_call_command(method, p).skip(method.len() as int).take(7) == " 0x0c b"@,
        hex_digit_value(acpi_call_command(method, p)[method.len() + 7 + 2 * i]) * 16
            + hex_digit_value(acpi_call_command(method, p)[method.len() + 7 + 2 * i + 1]) == p[i],
    decreases p.len(),
{
    reveal_strlit(" 0x0c b");
    let c = acpi_call_command(method, p);
    let head = method + " 0x0c b"@;
    lemma_hex_bytes_len(p);
    lemma_hex_bytes_len(p.drop_last());
    lemma_hexadecimal_pair(p.last() as nat);
    assert(c.take(method.len() as int) =~= method);
    assert(c.skip(method.len() as int).take(7) =~= " 0x0c b"@);
    if i < p.len() - 1 {
        law_command_holds_payload(method, p.drop_last(), i);
        assert(c.take(c.len() - 2) =~= acpi_call_command(method, p.drop_last()));
    } else {
        let s = hexadecimal_2(p.last() as nat);
        assert(c[c.len() - 2] == s[0]);
        assert(c[c.len() - 1] == s[1]);
    }
}

// ---------------------------------------------------------------------------
// The limit managers
// ---------------------------------------------------------------------------

/// The manager of power limits that a device uses.
#[derive(Debug)]
pub enum TdpLimitManager {
    AmdgpuHwmon { performance_profile: Option<String> },
    FirmwareAttribute { attribute: String, performance_profile: Option<String> },
    RemoteInterface,
    AcpiCallAlib { config: AcpiCallAlibConfig },
}

/// The manager that a configuration asks for; without one, a remote one.
pub open spec fn manager_for(config: Option<TdpLimitConfig>) -> Result<TdpLimitManager, TdpError> {
    match config {
        None => Ok(TdpLimitManager::RemoteInterface),
        Some(config) => match config.method {
            TdpLimitingMethod::FirmwareAttribute => match config.firmware_attribute {
                Some(f) => Ok(
                    TdpLimitManager::FirmwareAttribute {
                        attribute: f.attribute,
                        performance_profile: f.performance_profile,
                    },
                ),
                None => Err(TdpError::FirmwareAttributeMissing),
            },
            TdpLimitingMethod::AmdgpuHwmon => Ok(
                TdpLimitManager::AmdgpuHwmon { performance_profile: config.performance_profile },
            ),
            TdpLimitingMethod::RemoteInterface => Ok(TdpLimitManager::RemoteInterface),
            TdpLimitingMethod::AcpiCallAlib => match config.acpi_call_alib {
                Some(c) => Ok(TdpLimitManager::AcpiCallAlib { config: c }),
                None => Err(TdpError::AcpiCallAlibMissing),
            },
        },
    }
}

fn copy_text(s: &Option<String>) -> (r: Option<String>)
    ensures
        r == *s,
{
    match s {
        Some(t) => Some(t.clone()),
        None => None,
    }
}

fn copy_alib(c: &AcpiCallAlibConfig) -> (r: AcpiCallAlibConfig)
    ensures
        r == *c,
{
    AcpiCallAlibConfig {
        alib_method: c.alib_method.clone(),
        stapm_limit_id: c.stapm_limit_id,
        fast_limit_id: c.fast_limit_id,
        slow_limit_id: c.slow_limit_id,
        slow_time_id: c.slow_time_id,
        stapm_time_id: c.stapm_time_id,
        temp_target_id: c.temp_target_id,
        skin_limit_id: c.skin_limit_id,
        power_scale: c.power_scale,
        time_scale: c.time_scale,
        temp_scale: c.temp_scale,
        slow_time: c.slow_time,
        stapm_time: c.stapm_time,
        temp_target: c.temp_target,
    }
}

/// The manager of power limits for a configuration.
pub fn tdp_limit_manager(config: &Option<TdpLimitConfig>) -> (r: Result<TdpLimitManager, TdpError>)
    ensures
        r == manager_for(*config),
{
    match config {
        None => Ok(TdpLimitManager::RemoteInterface),
        Some(config) => match config.method {
            TdpLimitingMethod::FirmwareAttribute => match &config.firmware_attribute {
                Some(f) => Ok(
                    TdpLimitManager::FirmwareAttribute {
                        attribute: f.attribute.clone(),
                        performance_profile: copy_text(&f.performance_profile),
                    },
                ),
                None => Err(TdpError::FirmwareAttributeMissing),
            },
            TdpLimitingMethod::AmdgpuHwmon => Ok(
                TdpLimitManager::AmdgpuHwmon {
                    performance_profile: copy_text(&config.performance_profile),
                },
            ),
            TdpLimitingMethod::RemoteInterface => Ok(TdpLimitManager::RemoteInterface),
            TdpLimitingMethod::AcpiCallAlib => match &config.acpi_call_alib {
                Some(c) => Ok(TdpLimitManager::AcpiCallAlib { config: copy_alib(c) }),
                None => Err(TdpError::AcpiCallAlibMissing),
            },
        },
    }
}

impl TdpLimitManager {
    /// Whether setting the limit takes the root manager.
    pub fn needs_root(&self) -> (r: bool)
        ensures
            r == !(*self is RemoteInterface),
    {
        match self {
            TdpLimitManager::RemoteInterface => false,
            _ => true,
        }
    }
}

/// Whether limits can be set while `current` is the platform profile. `needed`
/// is the profile under which they can, if there is such a condition;
/// `current` is `None` on a device without performance profiles.
pub fn is_active_profile(needed: &Option<String>, current: &Option<String>) -> (r: bool)
    ensures
        r == match (*needed, *current) {
            (Some(n), Some(c)) => n@ == c@,
            _ => true,
        },
{
    match (needed, current) {
        (Some(n), Some(c)) => *c == *n,
        _ => true,
    }
}

/// What came of opening a file.
#[derive(Clone, Copy, Debug, PartialEq, Eq, Structural)]
pub enum OpenOutcome {
    Opened,
    NotFound,
    PermissionDenied,
    OtherError,
}

/// Whether the ACPI call file can be used: `None` if opening it failed in a way
/// that does not tell.
pub fn is_active_acpi_call(open: OpenOutcome) -> (r: Option<bool>)
    ensures
        r == match open {
            OpenOutcome::Opened => Some(true),
            OpenOutcome::NotFound => Some(false),
            OpenOutcome::PermissionDenied => Some(false),
            OpenOutcome::OtherError => None,
        },
{
    match open {
        OpenOutcome::Opened => Some(true),
        OpenOutcome::NotFound => Some(false),
        OpenOutcome::PermissionDenied => Some(false),
        OpenOutcome::OtherError => None,
    }
}

/// The limits that a configuration allows.
pub open spec fn range_of(config: Option<TdpLimitConfig>) -> Result<RangeConfig, TdpError> {
    match config {
        None => Err(TdpError::NotConfigured),
        Some(c) => match c.range {
            Some(range) => Ok(range),
            None => Err(TdpError::NoRange),
        },
    }
}

/// The range of limits of the hwmon and the ALIB method.
pub fn configured_tdp_limit_range(config: &Option<TdpLimitConfig>) -> (r: Result<
    RangeConfig,
    TdpError,
>)
    ensures
        r == range_of(*config),
{
    match config {
        None => Err(TdpError::NotConfigured),
        Some(c) => match c.range {
            Some(range) => Ok(range),
            None => Err(TdpError::NoRange),
        },
    }
}

/// Whether a limit may be set: limiting is active, the range is known, and the
/// limit lies in it; else the first of these that fails.
pub open spec fn admitted(active: bool, range: Result<RangeConfig, TdpError>, limit: u32) -> Result<
    (),
    TdpError,
> {
    if !active {
        Err(TdpError::NotActive)
    } else {
        match range {
            Err(e) => Err(e),
            Ok(range) => if range.min <= limit <= range.max {
                Ok(())
            } else {
                Err(TdpError::InvalidLimit)
            },
        }
    }
}

fn admit_limit(active: bool, range: Result<RangeConfig, TdpError>, limit: u32) -> (r: Result<
    (),
    TdpError,
>)
    ensures
        r == admitted(active, range, limit),
{
    if !active {
        return Err(TdpError::NotActive);
    }
    match range {
        Err(e) => Err(e),
        Ok(range) => if range.min <= limit && limit <= range.max {
            Ok(())
        } else {
            Err(TdpError::InvalidLimit)
        },
    }
}

/// A limit may be set exactly if limiting is active and the limit lies in the
/// range, both bounds included; if limiting is not active, that is reported
/// whatever the limit is.
pub proof fn law_limit_admitted_in_range(
    active: bool,
    range: Result<RangeConfig, TdpError>,
    limit: u32,
)
    ensures
        admitted(active, range, limit) is Ok <==> active && (range matches Ok(r) && r.min <= limit
            && limit <= r.max),
        !active ==> admitted(active, range, limit) == Err::<(), TdpError>(TdpError::NotActive),
        active ==> (range matches Err(e) ==> admitted(active, range, limit) == Err::<(), TdpError>(
            e,
        )),
        active && range is Ok && admitted(active, range, limit) is Err ==> admitted(
            active,
            range,
            limit,
        ) == Err::<(), TdpError>(TdpError::InvalidLimit),
{
}

/// A limit of the configuration is one that can be set: both ends of the range
/// are admitted, and what lies beyond them is not.
pub proof fn law_range_is_that_of_config(config: TdpLimitConfig, range: RangeConfig, limit: u32)
    requires
        config.range == Some(range),
        range.min <= range.max,
    ensures
        admitted(true, range_of(Some(config)), range.min) is Ok,
        admitted(true, range_of(Some(config)), range.max) is Ok,
        limit < range.min || limit > range.max ==> admitted(
            true,
            range_of(Some(config)),
            limit,
        ) is Err,
        admitted(true, range_of(None), limit) is Err,
        admitted(true, range_of(Some(TdpLimitConfig { range: None, ..config })), limit) is Err,
{
}

/// The manager is that of the configured method: a remote one exactly if none is
/// configured or the remote one is, else the one of the method, with what is
/// configured for it; a method without its own configuration is an error.
pub proof fn law_manager_is_of_method(config: Option<TdpLimitConfig>)
    ensures
        manager_for(config) matches Ok(m) ==> {
            &&& m is RemoteInterface <==> config is None || (config->0).method
                == TdpLimitingMethod::RemoteInterface
            &&& m is AmdgpuHwmon <==> config is Some && (config->0).method
                == TdpLimitingMethod::AmdgpuHwmon
            &&& m is FirmwareAttribute <==> config is Some && (config->0).method
                == TdpLimitingMethod::FirmwareAttribute
            &&& m is AcpiCallAlib <==> config is Some && (config->0).method
                == TdpLimitingMethod::AcpiCallAlib
            &&& m matches TdpLimitManager::AmdgpuHwmon { performance_profile }
                ==> performance_profile == (config->0).performance_profile
            &&& m matches TdpLimitManager::FirmwareAttribute { attribute, performance_profile }
                ==> (config->0).firmware_attribute matches Some(f) && attribute == f.attribute
                && performance_profile == f.performance_profile
            &&& m matches TdpLimitManager::AcpiCallAlib { config: c }
                ==> (config->0).acpi_call_alib == Some(c)
        },
        manager_for(config) == Err::<TdpLimitManager, TdpError>(TdpError::FirmwareAttributeMissing)
            <==> (config matches Some(c) && c.method == TdpLimitingMethod::FirmwareAttribute
            && c.firmware_attribute is None),
        manager_for(config) == Err::<TdpLimitManager, TdpError>(TdpError::AcpiCallAlibMissing)
            <==> (config matches Some(c) && c.method == TdpLimitingMethod::AcpiCallAlib
            && c.acpi_call_alib is None),
{
}

// --- hwmon ---

/// The limit in watts that the contents of a power cap file stand for.
pub open spec fn amdgpu_limit(contents: Seq<char>) -> Result<u32, TdpError> {
    match u32_of(trimmed_end(contents)) {
        Some(microwatts) => Ok((microwatts / 1_000_000) as u32),
        None => Err(TdpError::BadNumber),
    }
}

/// What is written to set a limit in watts: as many microwatts.
pub open spec fn amdgpu_data(limit: u32) -> Seq<char> {
    decimal(limit as nat) + "000000"@
}

/// The limit that the hwmon method reads.
pub fn get_amdgpu_tdp_limit(active: bool, contents: &str) -> (r: Result<u32, TdpError>)
    ensures
        r == (if active {
            amdgpu_limit(contents@)
        } else {
            Err(TdpError::NotActive)
        }),
{
    if !active {
        return Err(TdpError::NotActive);
    }
    match parse_u32(trim_end(contents).as_str()) {
        Some(microwatts) => Ok(microwatts / 1_000_000),
        None => Err(TdpError::BadNumber),
    }
}

/// What the hwmon method writes to both power caps to set `limit`.
pub fn set_amdgpu_tdp_limit(active: bool, config: &Option<TdpLimitConfig>, limit: u32) -> (r:
    Result<String, TdpError>)
    ensures
        match admitted(active, range_of(*config), limit) {
            Ok(()) => r matches Ok(data) && data@ == amdgpu_data(limit),
            Err(e) => r matches Err(f) && f == e,
        },
{
    match admit_limit(active, configured_tdp_limit_range(config), limit) {
        Ok(()) => Ok(concat(to_decimal(limit as u64).as_str(), "000000")),
        Err(e) => Err(e),
    }
}

proof fn lemma_append_zero(s: Seq<char>)
    requires
        s.len() > 0,
        all_digits(s),
    ensures
        all_digits(s.push('0')),
        digits_value(s.push('0')) == digits_value(s) * 10,
{
    assert(s.push('0').drop_last() =~= s);
    assert forall|i: int| 0 <= i < s.push('0').len() implies is_digit(
        #[trigger] s.push('0')[i],
    ) by {
        if i < s.len() {
            assert(s.push('0')[i] == s[i]);
        }
    }
}

proof fn lemma_amdgpu_data(limit: u32)
    ensures
        number_of(amdgpu_data(limit)) == Some((limit * 1_000_000) as nat),
        trimmed_end(amdgpu_data(limit)) == amdgpu_data(limit),
{
    reveal_strlit("000000");
    let d = decimal(limit as nat);
    lemma_decimal(limit as nat);
    let d1 = d.push('0');
    let d2 = d1.push('0');
    let d3 = d2.push('0');
    let d4 = d3.push('0');
    let d5 = d4.push('0');
    let d6 = d5.push('0');
    lemma_append_zero(d);
    lemma_append_zero(d1);
    lemma_append_zero(d2);
    lemma_append_zero(d3);
    lemma_append_zero(d4);
    lemma_append_zero(d5);
    assert(amdgpu_data(limit) =~= d6);
    assert(is_digit(d6[0]));
    assert(!is_white(d6.last()));
}

/// The limit that was set is the limit that is read, if its microwatts fit in
/// 32 bits.
pub proof fn law_amdgpu_limit_reads_back(limit: u32)
    requires
        limit * 1_000_000 <= u32::MAX,
    ensures
        amdgpu_limit(amdgpu_data(limit)) == Ok::<u32, TdpError>(limit),
{
    lemma_amdgpu_data(limit);
}

/// What is written for a limit in watts is the number of its microwatts.
pub proof fn law_amdgpu_data_is_microwatts(limit: u32)
    ensures
        number_of(amdgpu_data(limit)) == Some((limit * 1_000_000) as nat),
{
    lemma_amdgpu_data(limit);
}

/// The limit that is read is the whole watts of the power cap, whatever white
/// space follows it.
pub proof fn law_amdgpu_limit_is_whole_watts(contents: Seq<char>)
    ensures
        match u32_of(trimmed_end(contents)) {
            Some(microwatts) => amdgpu_limit(contents) matches Ok(limit) && limit * 1_000_000
                <= microwatts && microwatts < (limit + 1) * 1_000_000,
            None => amdgpu_limit(contents) is Err,
        },
{
}

// --- ALIB ---

/// The ALIB method cannot read the limit.
pub fn get_acpi_call_alib_tdp_limit() -> (r: Result<u32, TdpError>)
    ensures
        r == Err::<u32, TdpError>(TdpError::NoReadback),
{
    Err(TdpError::NoReadback)
}

/// The command that the ALIB method writes to set `limit`.
pub fn set_acpi_call_alib_tdp_limit(
    alib: &AcpiCallAlibConfig,
    active: bool,
    config: &Option<TdpLimitConfig>,
    limit: u32,
) -> (r: Result<String, TdpError>)
    ensures
        match admitted(active, range_of(*config), limit) {
            Ok(()) => match alib_values(*alib, limit) {
                Ok(v) => r matches Ok(command) && command@ == acpi_call_command(
                    alib.alib_method@,
                    alib_payload(*alib, v),
                ),
                Err(e) => r matches Err(f) && f == e,
            },
            Err(e) => r matches Err(f) && f == e,
        },
{
    match admit_limit(active, configured_tdp_limit_range(config), limit) {
        Ok(()) => match build_acpi_call_alib_payload(alib, limit) {
            Ok(payload) => Ok(
                build_acpi_call_command(alib.alib_method.as_str(), payload.as_slice()),
            ),
            Err(e) => Err(e),
        },
        Err(e) => Err(e),
    }
}

// --- firmware attribute ---

/// The number in an attribute file.
pub open spec fn attribute_value(contents: Seq<char>) -> Result<u32, TdpError> {
    match u32_of(trimmed(contents)) {
        Some(n) => Ok(n),
        None => Err(TdpError::BadNumber),
    }
}

fn parse_attribute(contents: &str) -> (r: Result<u32, TdpError>)
    ensures
        r == attribute_value(contents@),
{
    match parse_u32(trim(contents).as_str()) {
        Some(n) => Ok(n),
        None => Err(TdpError::BadNumber),
    }
}

/// The limit that the firmware attribute method reads.
pub fn get_firmware_tdp_limit(active: bool, contents: &str) -> (r: Result<u32, TdpError>)
    ensures
        r == (if active {
            attribute_value(contents@)
        } else {
            Err(TdpError::NotActive)
        }),
{
    if !active {
        return Err(TdpError::NotActive);
    }
    parse_attribute(contents)
}

/// The range that the contents of the two bound files stand for.
pub open spec fn firmware_range(min: Seq<char>, max: Seq<char>) -> Result<RangeConfig, TdpError> {
    match (attribute_value(min), attribute_value(max)) {
        (Ok(min), Ok(max)) => Ok(RangeConfig { min, max }),
        _ => Err(TdpError::BadNumber),
    }
}

/// The range of limits of the firmware attribute method.
pub fn get_firmware_tdp_limit_range(min: &str, max: &str) -> (r: Result<RangeConfig, TdpError>)
    ensures
        r == firmware_range(min@, max@),
{
    match (parse_attribute(min), parse_attribute(max)) {
        (Ok(min), Ok(max)) => Ok(RangeConfig { min, max }),
        _ => Err(TdpError::BadNumber),
    }
}

/// A lower bound: 0 if it could not be read or is not a number.
pub open spec fn lower_bound(contents: Option<String>) -> u32 {
    match contents {
        Some(s) => match u32_of(trimmed(s@)) {
            Some(n) => n,
            None => 0,
        },
        None => 0,
    }
}

fn read_lower_bound(contents: &Option<String>) -> (r: u32)
    ensures
        r == lower_bound(*contents),
{
    match contents {
        Some(s) => match parse_u32(trim(s.as_str()).as_str()) {
            Some(n) => n,
            None => 0,
        },
        None => 0,
    }
}

pub open spec fn at_least(limit: u32, min: u32) -> u32 {
    if limit < min {
        min
    } else {
        limit
    }
}

fn raise_to(limit: u32, min: u32) -> (r: u32)
    ensures
        r == at_least(limit, min),
{
    if limit < min {
        min
    } else {
        limit
    }
}

/// What is written to the three limit attributes, in this order.
#[derive(Debug, PartialEq, Eq)]
pub struct FirmwareLimits {
    pub spl: String,
    pub sppt: String,
    pub fppt: String,
}

/// What the firmware attribute method writes to set `limit`: the limit itself,
/// and for the two boost limits at least their own lower bounds.
pub fn set_firmware_tdp_limit(
    active: bool,
    min: &str,
    max: &str,
    sppt_min: &Option<String>,
    fppt_min: &Option<String>,
    limit: u32,
) -> (r: Result<FirmwareLimits, TdpError>)
    ensures
        match admitted(active, firmware_range(min@, max@), limit) {
            Ok(()) => {
                &&& r matches Ok(w)
                &&& w.spl@ == decimal(limit as nat)
                &&& w.sppt@ == decimal(at_least(limit, lower_bound(*sppt_min)) as nat)
                &&& w.fppt@ == decimal(at_least(limit, lower_bound(*fppt_min)) as nat)
            },
            Err(e) => r matches Err(f) && f == e,
        },
        r matches Ok(w) ==> {
            &&& attribute_value(w.spl@) == Ok::<u32, TdpError>(limit)
            &&& attribute_value(w.sppt@) matches Ok(n) && n >= limit && n >= lower_bound(*sppt_min)
            &&& attribute_value(w.fppt@) matches Ok(n) && n >= limit && n >= lower_bound(*fppt_min)
        },
{
    match admit_limit(active, get_firmware_tdp_limit_range(min, max), limit) {
        Ok(()) => {
            let sppt: u32 = raise_to(limit, read_lower_bound(sppt_min));
            let fppt: u32 = raise_to(limit, read_lower_bound(fppt_min));
            proof {
                law_firmware_limit_reads_back(limit);
                law_firmware_limit_reads_back(sppt);
                law_firmware_limit_reads_back(fppt);
            }
            Ok(
                FirmwareLimits {
                    spl: to_decimal(limit as u64),
                    sppt: to_decimal(sppt as u64),
                    fppt: to_decimal(fppt as u64),
                },
            )
        },
        Err(e) => Err(e),
    }
}

proof fn lemma_plain_number_not_trimmed(n: nat)
    ensures
        trimmed(decimal(n)) == decimal(n),
{
    lemma_decimal(n);
    let d = decimal(n);
    assert(is_digit(d[0]));
    assert(is_digit(d[d.len() - 1]));
    assert(!is_white(d[0]));
    assert(!is_white(d.last()));
}

/// The firmware attribute method reads back the limit that it set.
pub proof fn law_firmware_limit_reads_back(limit: u32)
    ensures
        attribute_value(decimal(limit as nat)) == Ok::<u32, TdpError>(limit),
{
    lemma_decimal(limit as nat);
    lemma_plain_number_not_trimmed(limit as nat);
}

/// Neither boost limit is below the limit or below its own lower bound.
pub proof fn law_boost_limits_not_below(limit: u32, min: u32)
    ensures
        at_least(limit, min) >= limit,
        at_least(limit, min) >= min,
        at_least(limit, min) == limit || at_least(limit, min) == min,
{
}

/// The range of the firmware is that of its two bound files, the lower bound
/// from the first.
pub proof fn law_firmware_range_reads_back(min: u32, max: u32)
    ensures
        firmware_range(decimal(min as nat), decimal(max as nat)) == Ok::<RangeConfig, TdpError>(
            RangeConfig { min, max },
        ),
{
    law_firmware_limit_reads_back(min);
    law_firmware_limit_reads_back(max);
}

/// A lower bound of a boost limit that can be read counts; one that cannot does
/// not raise the limit.
pub proof fn law_boost_bound_counts(bound: String, limit: u32, min: u32)
    requires
        bound@ == decimal(min as nat),
    ensures
        lower_bound(Some(bound)) == min,
        at_least(limit, lower_bound(None)) == limit,
{
    law_firmware_limit_reads_back(min);
}

// --- remote ---

/// Whether limits can be set by a remote manager: only while there is one.
pub fn is_active_remote(present: bool) -> (r: bool)
    ensures
        r == present,
{
    present
}

/// A remote limit can be read or set if there is a remote manager.
pub fn require_remote_manager(present: bool) -> (r: Result<(), TdpError>)
    ensures
        r == (if present {
            Ok::<(), TdpError>(())
        } else {
            Err(TdpError::NoRemoteManager)
        }),
{
    if present {
        Ok(())
    } else {
        Err(TdpError::NoRemoteManager)
    }
}

/// The bytes of a number weigh 1, 256, 65536 and 16777216, the lowest first.
pub proof fn law_le_bytes_weigh(v: u32)
    ensures
        le_bytes(v).len() == 4,
        le_bytes(v)[0] + 256 * le_bytes(v)[1] + 65_536 * le_bytes(v)[2] + 16_777_216 * le_bytes(
            v,
        )[3] == v,
{
    law_le_bytes_read_back(v);
}

/// White space around a number in an attribute does not matter. Before a number
/// that the hwmon method reads there must be none.
pub proof fn law_padded_attribute(left: Seq<char>, n: u32, right: Seq<char>)
    requires
        all_white(left),
        all_white(right),
    ensures
        attribute_value(left + decimal(n as nat) + right) == Ok::<u32, TdpError>(n),
        amdgpu_limit(decimal(n as nat) + right) == Ok::<u32, TdpError>((n / 1_000_000) as u32),
        left.len() > 0 ==> amdgpu_limit(left + decimal(n as nat) + right) == Err::<u32, TdpError>(
            TdpError::BadNumber,
        ),
{
    law_padded_number(left, n as nat, right);
    law_unsigned_reads_back(n as nat);
}

/// The range is read exactly if both bounds are, each from its own file. A bound
/// of a boost limit that is no number counts as 0.
pub proof fn law_bounds_are_read(min: Seq<char>, max: Seq<char>, bound: String)
    ensures
        firmware_range(min, max) is Ok <==> u32_of(trimmed(min)) is Some && u32_of(trimmed(max))
            is Some,
        firmware_range(min, max) matches Ok(r) ==> u32_of(trimmed(min)) == Some(r.min) && u32_of(
            trimmed(max),
        ) == Some(r.max),
        firmware_range(min, max) matches Err(e) ==> e == TdpError::BadNumber,
        u32_of(trimmed(bound@)) is None ==> lower_bound(Some(bound)) == 0,
        u32_of(trimmed(bound@)) matches Some(n) ==> lower_bound(Some(bound)) == n,
{
}

} // verus!
