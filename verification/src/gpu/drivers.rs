//! Which driver serves the GPU of a device.
use crate::gpu::amdgpu::{AmdgpuPerformanceLevelDriver, AmdgpuPowerProfileDriver};
use crate::gpu::intel::{card_config, DrmEntry, IntelGpuPerformanceLevelDriver};
use crate::gpu::values::{GpuPerformanceLevelDriverType, GpuPowerProfileDriverType};
use vstd::prelude::*;

verus! {

/// Why there is no driver.
#[derive(Clone, Copy, Debug, PartialEq, Eq, Structural)]
pub enum NoGpuDriver {
    /// "No GPU power profile driver configured".
    NotConfigured,
    /// "No Intel GPU found".
    NoCard,
}

/// The driver of power profiles that a device is configured with.
pub fn gpu_power_profile_driver(configured: Option<GpuPowerProfileDriverType>) -> (r: Result<
    AmdgpuPowerProfileDriver,
    NoGpuDriver,
>)
    ensures
        match configured {
            None => r matches Err(e) && e == NoGpuDriver::NotConfigured,
            Some(GpuPowerProfileDriverType::Amdgpu) => r is Ok,
        },
{
    match configured {
        None => Err(NoGpuDriver::NotConfigured),
        Some(GpuPowerProfileDriverType::Amdgpu) => Ok(AmdgpuPowerProfileDriver {  }),
    }
}

/// A driver of performance levels.
#[derive(Clone, Copy, Debug)]
pub enum GpuPerformanceLevelDriver {
    Amdgpu(AmdgpuPerformanceLevelDriver),
    Intel(IntelGpuPerformanceLevelDriver),
}

/// The driver of performance levels that a device is configured with; `entries`
/// are its graphics devices.
pub fn gpu_performance_level_driver(
    configured: Option<GpuPerformanceLevelDriverType>,
    entries: &Vec<DrmEntry>,
) -> (r: Result<GpuPerformanceLevelDriver, NoGpuDriver>)
    ensures
        match configured {
            None => r matches Err(e) && e == NoGpuDriver::NotConfigured,
            Some(GpuPerformanceLevelDriverType::Amdgpu) => r matches Ok(d) && d is Amdgpu,
            Some(GpuPerformanceLevelDriverType::Intel) => match r {
                Ok(d) => {
                    &&& d matches GpuPerformanceLevelDriver::Intel(i)
                    &&& i.card < entries@.len()
                    &&& card_config(entries@[i.card as int]) == Some(i.config)
                    &&& forall|j: int|
                        0 <= j < i.card ==> card_config(#[trigger] entries@[j]) is None
                },
                Err(e) => e == NoGpuDriver::NoCard && forall|j: int|
                    0 <= j < entries@.len() ==> card_config(#[trigger] entries@[j]) is None,
            },
        },
{
    match configured {
        None => Err(NoGpuDriver::NotConfigured),
        Some(GpuPerformanceLevelDriverType::Amdgpu) => Ok(
            GpuPerformanceLevelDriver::Amdgpu(AmdgpuPerformanceLevelDriver {  }),
        ),
        Some(GpuPerformanceLevelDriverType::Intel) => {
            match IntelGpuPerformanceLevelDriver::new(entries) {
                Some(d) => Ok(GpuPerformanceLevelDriver::Intel(d)),
                None => Err(NoGpuDriver::NoCard),
            }
        },
    }
}

} // verus!
