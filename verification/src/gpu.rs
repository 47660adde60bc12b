//! GPU settings: power profiles, performance levels and clocks.
pub mod amdgpu;
pub mod drivers;
pub mod intel;
pub mod values;

pub use self::amdgpu::{AmdgpuPerformanceLevelDriver, AmdgpuPowerProfileDriver, GpuError};
pub use self::drivers::{
    gpu_performance_level_driver, gpu_power_profile_driver, GpuPerformanceLevelDriver, NoGpuDriver,
};
pub use self::intel::{DrmEntry, FreqWrites, IntelGpuConfig, IntelGpuPerformanceLevelDriver};
pub use self::values::{
    AmdgpuPerformanceLevel, AmdgpuPowerProfile, GpuPerformanceLevel, GpuPerformanceLevelDriverType,
    GpuPowerProfile, GpuPowerProfileDriverType, IntelPerformanceLevel,
};
