//! Power: CPU settings, power limits, battery and platform profiles.
pub mod battery;
pub mod cpu;
pub mod download;
pub mod tdp;
pub mod values;

pub use self::battery::{
    find_battery_charge_path, get_available_platform_profiles, get_max_charge_level,
    get_platform_profile, set_max_charge_level, BatteryChargeLimitMethod,
};
pub use self::cpu::{
    find_cpu_boost_driver, get_available_cpu_scaling_governors, get_cpu_boost_state,
    get_cpu_scaling_governor, set_cpu_boost_state, set_cpu_scaling_governor, CpuBoostDriver,
    CpuSchedulerManager,
};
pub use self::download::{TdpManagerCommand, TdpManagerService};
pub use self::tdp::{tdp_limit_manager, TdpLimitManager};
pub use self::values::{CPUBoostState, CPUScalingGovernor, CpuScheduler, TdpLimitingMethod};
