//! The root manager: what it refuses, and what it runs.
use crate::cec::CrosEcHwController;
use crate::enums::{or_unknown, UnknownNumber};
use crate::gpu::amdgpu::AmdgpuPowerProfileDriver;
use crate::gpu::drivers::GpuPerformanceLevelDriver;
use crate::gpu::values::{
    AmdgpuPerformanceLevel, AmdgpuPowerProfile, GpuPerformanceLevel, GpuPowerProfile,
    IntelPerformanceLevel,
};
use crate::hardware::{FactoryResetKind, FanControlState, SteamDeckVariant};
use crate::numbers::{decimal, i32_of, law_signed_reads_back, signed_decimal, to_decimal};
use crate::platform::{PlatformConfig, ScriptConfig};
use crate::power::battery::{set_max_charge_level, InvalidLimit};
use crate::power::cpu::{scheduler_after, CpuSchedulerManager, SchedulerAction};
use crate::power::{CPUBoostState, CPUScalingGovernor, CpuScheduler};
use crate::systemd::JobMode;
use crate::text::{concat, texts, view_of};
use crate::wifi::values::{WifiBackend, WifiDebugMode, WifiPowerManagement};
use vstd::prelude::*;

verus! {

/// What a factory reset is answered with.
#[derive(Clone, Copy, Debug, PartialEq, Eq, Structural)]
pub enum PrepareFactoryResetResult {
    Unknown,
    RebootRequired,
}

impl PrepareFactoryResetResult {
    pub fn to_u32(self) -> (r: u32)
        ensures
            r == match self {
                PrepareFactoryResetResult::Unknown => 0u32,
                PrepareFactoryResetResult::RebootRequired => 1u32,
            },
    {
        match self {
            PrepareFactoryResetResult::Unknown => 0,
            PrepareFactoryResetResult::RebootRequired => 1,
        }
    }
}

/// What the platform does not offer.
#[derive(Clone, Copy, Debug, PartialEq, Eq, Structural)]
pub enum NotSupported {
    PrepareFactoryReset,
    UpdateBios,
    UpdateDock,
    TrimDevices,
    FormatDevice,
}

impl NotSupported {
    pub open spec fn name(self) -> Seq<char> {
        match self {
            NotSupported::PrepareFactoryReset => "PrepareFactoryReset"@,
            NotSupported::UpdateBios => "UpdateBios"@,
            NotSupported::UpdateDock => "UpdateDock"@,
            NotSupported::TrimDevices => "TrimDevices"@,
            NotSupported::FormatDevice => "FormatDevice"@,
        }
    }

    pub fn message(self) -> (r: String)
        ensures
            r@ == self.name() + " is not supported on this platform"@,
    {
        let name: &str = match self {
            NotSupported::PrepareFactoryReset => "PrepareFactoryReset",
            NotSupported::UpdateBios => "UpdateBios",
            NotSupported::UpdateDock => "UpdateDock",
            NotSupported::TrimDevices => "TrimDevices",
            NotSupported::FormatDevice => "FormatDevice",
        };
        concat(name, " is not supported on this platform")
    }
}

/// A script to run as a job, with the title of the job.
#[derive(Debug, PartialEq, Eq)]
pub struct Job {
    pub script: String,
    pub args: Vec<String>,
    pub title: String,
}

pub open spec fn is_job_of(job: Job, config: ScriptConfig, title: Seq<char>) -> bool {
    &&& job.script@ == config.script@
    &&& texts(job.args@) == texts(config.script_args@)
    &&& job.title@ == title
}

fn copy_texts(v: &Vec<String>) -> (r: Vec<String>)
    ensures
        texts(r@) == texts(v@),
{
    let mut r: Vec<String> = Vec::new();
    for i in 0..v.len()
        invariant
            r@ == v@.take(i as int),
    {
        r.push(v[i].clone());
    }
    assert(r@ =~= v@);
    r
}

fn job_of(config: &ScriptConfig, title: &str) -> (r: Job)
    ensures
        is_job_of(r, *config, title@),
{
    Job {
        script: config.script.clone(),
        args: copy_texts(&config.script_args),
        title: title.to_owned(),
    }
}

/// The script of a kind of reset.
pub open spec fn reset_script(
    config: crate::platform::ResetConfig,
    kind: FactoryResetKind,
) -> ScriptConfig {
    match kind {
        FactoryResetKind::User => config.user,
        FactoryResetKind::OS => config.os,
        FactoryResetKind::All => config.all,
    }
}

/// A step of answering a factory reset.
#[derive(Debug, PartialEq, Eq)]
pub enum ResetStep {
    /// Run the script, and answer by how it ends.
    Run { script: String, args: Vec<String> },
    /// Answer so.
    Answer(PrepareFactoryResetResult),
}

/// Discard a request that comes out of order, or act on it.
#[derive(Debug, PartialEq, Eq)]
pub enum Ordered<T> {
    Discard,
    Act(T),
}

/// Why a request fails.
#[derive(Clone, Copy, Debug, PartialEq, Eq, Structural)]
pub enum RootError {
    /// "GPU power profile settings not configured".
    NoGpuPowerProfile,
    /// "GPU performance settings not configured".
    NoGpuPerformance,
    /// "TDP limiting not configured".
    NoTdpLimiting,
    /// A text stands for no value.
    UnknownValue,
    /// A number stands for no value.
    InvalidArgs(UnknownNumber),
    /// The buffer size is no number.
    BadBufferSize,
    /// "operation not supported when wifi_debug_mode=tracing".
    Tracing,
    /// "Unknown model".
    UnknownModel,
    /// "No HDMI CEC hardware configured".
    NoCecHardware,
    /// The scheduler is not installed.
    NoScheduler,
    /// "No performance platform-profile configured".
    NoPerformanceProfile,
}

impl RootError {
    /// What is reported, where it is worded here and not by what failed.
    pub open spec fn text(self) -> Option<Seq<char>> {
        match self {
            RootError::NoGpuPowerProfile => Some("GPU power profile settings not configured"@),
            RootError::NoGpuPerformance => Some("GPU performance settings not configured"@),
            RootError::NoTdpLimiting => Some("TDP limiting not configured"@),
            RootError::UnknownValue => Some("Matching variant not found"@),
            RootError::InvalidArgs(_) => None,
            RootError::BadBufferSize => None,
            RootError::Tracing => Some("operation not supported when wifi_debug_mode=tracing"@),
            RootError::UnknownModel => Some("Unknown model"@),
            RootError::NoCecHardware => Some("No HDMI CEC hardware configured"@),
            RootError::NoScheduler => Some(
                "Cannot set CPU scheduler to LAVD; scx.service not installed"@,
            ),
            RootError::NoPerformanceProfile => Some("No performance platform-profile configured"@),
        }
    }

    /// What is reported, where it is worded here and not by what failed.
    pub fn message(self) -> (r: Option<String>)
        ensures
            view_of(r) == self.text(),
    {
        match self {
            RootError::NoGpuPowerProfile => Some(
                "GPU power profile settings not configured".to_owned(),
            ),
            RootError::NoGpuPerformance => Some(
                "GPU performance settings not configured".to_owned(),
            ),
            RootError::NoTdpLimiting => Some("TDP limiting not configured".to_owned()),
            RootError::UnknownValue => Some("Matching variant not found".to_owned()),
            RootError::InvalidArgs(_) => None,
            RootError::BadBufferSize => None,
            RootError::Tracing => Some(
                "operation not supported when wifi_debug_mode=tracing".to_owned(),
            ),
            RootError::UnknownModel => Some("Unknown model".to_owned()),
            RootError::NoCecHardware => Some("No HDMI CEC hardware configured".to_owned()),
            RootError::NoScheduler => Some(
                "Cannot set CPU scheduler to LAVD; scx.service not installed".to_owned(),
            ),
            RootError::NoPerformanceProfile => Some(
                "No performance platform-profile configured".to_owned(),
            ),
        }
    }
}

/// The option of the buffer size.
#[derive(Clone, Copy, Debug, PartialEq, Eq, Structural)]
pub enum BufferSize {
    Missing,
    /// It is there, but no number.
    Bad,
    Size(u32),
}

/// What a change of the debug mode comes to.
#[derive(Clone, Copy, Debug, PartialEq, Eq, Structural)]
pub enum DebugModeChange {
    /// It is the mode already.
    Unchanged,
    Change { mode: WifiDebugMode, buffer_size: u32 },
}

/// The debug mode once a change is made.
pub open spec fn mode_after(current: WifiDebugMode, change: DebugModeChange) -> WifiDebugMode {
    match change {
        DebugModeChange::Unchanged => current,
        DebugModeChange::Change { mode, .. } => mode,
    }
}

/// The size of the trace buffer unless one is given.
pub const DEFAULT_BUFFER_SIZE: u32 = 20000;

/// The root manager.
#[derive(Debug)]
pub struct SteamOSManager {
    pub wifi_debug_mode: WifiDebugMode,
    /// Whether Wi-Fi can be traced.
    pub should_trace: bool,
}

impl SteamOSManager {
    /// The manager of a device; `variant` is `None` if it is not known. Only the
    /// Galileo can be traced.
    pub fn new(variant: Option<SteamDeckVariant>) -> (r: SteamOSManager)
        ensures
            r.wifi_debug_mode == WifiDebugMode::Off,
            r.should_trace == (variant == Some(SteamDeckVariant::Galileo)),
    {
        let should_trace: bool = match variant {
            Some(SteamDeckVariant::Galileo) => true,
            _ => false,
        };
        SteamOSManager { wifi_debug_mode: WifiDebugMode::Off, should_trace }
    }

    /// Starts a factory reset: the script of its kind is run, if there is one.
    pub fn prepare_factory_reset(&self, config: &Option<PlatformConfig>, kind: u32) -> (r: Result<
        ResetStep,
        NotSupported,
    >)
        ensures
            match *config {
                Some(PlatformConfig { factory_reset: Some(reset), .. }) => {
                    &&& r matches Ok(step)
                    &&& match FactoryResetKind::numbered(kind) {
                        Some(k) => step matches ResetStep::Run { script, args } && script@
                            == reset_script(reset, k).script@ && texts(args@) == texts(
                            reset_script(reset, k).script_args@,
                        ),
                        None => step == ResetStep::Answer(PrepareFactoryResetResult::Unknown),
                    }
                },
                _ => r matches Err(e) && e == NotSupported::PrepareFactoryReset,
            },
    {
        let config: &PlatformConfig = match config {
            Some(config) => config,
            None => {
                return Err(NotSupported::PrepareFactoryReset);
            },
        };
        let reset = match &config.factory_reset {
            Some(reset) => reset,
            None => {
                return Err(NotSupported::PrepareFactoryReset);
            },
        };
        let script: &ScriptConfig = match FactoryResetKind::try_from(kind) {
            Ok(FactoryResetKind::User) => &reset.user,
            Ok(FactoryResetKind::OS) => &reset.os,
            Ok(FactoryResetKind::All) => &reset.all,
            Err(_) => {
                return Ok(ResetStep::Answer(PrepareFactoryResetResult::Unknown));
            },
        };
        Ok(
            ResetStep::Run {
                script: script.script.clone(),
                args: copy_texts(&script.script_args),
            },
        )
    }

    /// What a factory reset is answered with once its script ended.
    pub fn factory_reset_prepared(&self, success: bool) -> (r: PrepareFactoryResetResult)
        ensures
            r == (if success {
                PrepareFactoryResetResult::RebootRequired
            } else {
                PrepareFactoryResetResult::Unknown
            }),
    {
        if success {
            PrepareFactoryResetResult::RebootRequired
        } else {
            PrepareFactoryResetResult::Unknown
        }
    }

    /// The indices of the strings that hold the calibration of the ambient light
    /// sensors.
    pub fn als_calibration_indices(&self, variant: Option<SteamDeckVariant>) -> (r: Vec<
        &'static str,
    >)
        ensures
            match variant {
                Some(SteamDeckVariant::Jupiter) => r@.len() == 1 && r@[0]@ == "2"@,
                Some(SteamDeckVariant::Galileo) => r@.len() == 2 && r@[0]@ == "2"@ && r@[1]@
                    == "4"@,
                _ => r@.len() == 0,
            },
    {
        let mut r: Vec<&'static str> = Vec::new();
        match variant {
            Some(SteamDeckVariant::Jupiter) => {
                r.push("2");
            },
            Some(SteamDeckVariant::Galileo) => {
                r.push("2");
                r.push("4");
            },
            _ => {},
        }
        r
    }

    /// The file of the integration time of an ambient light sensor.
    pub fn als_integration_time_path(&self, variant: SteamDeckVariant, index: u32) -> (r: Result<
        String,
        RootError,
    >)
        ensures
            match variant {
                SteamDeckVariant::Unknown => r matches Err(e) && e == RootError::UnknownModel,
                _ => r matches Ok(path) && path@
                    == "/sys/devices/platform/AMDI0010:00/i2c-0/i2c-PRP0001:0"@ + decimal(
                    if variant == SteamDeckVariant::Jupiter {
                        1
                    } else {
                        index as nat
                    },
                ) + "/iio:device"@ + decimal(index as nat) + "/in_illuminance_integration_time"@,
            },
    {
        let i0: u32 = match variant {
            SteamDeckVariant::Jupiter => 1,
            SteamDeckVariant::Galileo => index,
            SteamDeckVariant::Unknown => {
                return Err(RootError::UnknownModel);
            },
        };
        let mut path: String =
            "/sys/devices/platform/AMDI0010:00/i2c-0/i2c-PRP0001:0".to_owned();
        path.append(to_decimal(i0 as u64).as_str());
        path.append("/iio:device");
        path.append(to_decimal(index as u64).as_str());
        path.append("/in_illuminance_integration_time");
        Ok(path)
    }

    pub fn update_bios(&self, config: &Option<PlatformConfig>) -> (r: Result<Job, NotSupported>)
        ensures
            match *config {
                Some(PlatformConfig { update_bios: Some(script), .. }) => r matches Ok(job)
                    && is_job_of(job, script, "updating BIOS"@),
                _ => r matches Err(e) && e == NotSupported::UpdateBios,
            },
    {
        match config {
            Some(PlatformConfig { update_bios: Some(script), .. }) => Ok(
                job_of(script, "updating BIOS"),
            ),
            _ => Err(NotSupported::UpdateBios),
        }
    }

    pub fn update_dock(&self, config: &Option<PlatformConfig>) -> (r: Result<Job, NotSupported>)
        ensures
            match *config {
                Some(PlatformConfig { update_dock: Some(script), .. }) => r matches Ok(job)
                    && is_job_of(job, script, "updating dock"@),
                _ => r matches Err(e) && e == NotSupported::UpdateDock,
            },
    {
        match config {
            Some(PlatformConfig { update_dock: Some(script), .. }) => Ok(
                job_of(script, "updating dock"),
            ),
            _ => Err(NotSupported::UpdateDock),
        }
    }

    pub fn trim_devices(&self, config: &Option<PlatformConfig>) -> (r: Result<Job, NotSupported>)
        ensures
            match *config {
                Some(PlatformConfig { storage: Some(storage), .. }) => r matches Ok(job)
                    && is_job_of(job, storage.trim_devices, "trimming devices"@),
                _ => r matches Err(e) && e == NotSupported::TrimDevices,
            },
    {
        match config {
            Some(PlatformConfig { storage: Some(storage), .. }) => Ok(
                job_of(&storage.trim_devices, "trimming devices"),
            ),
            _ => Err(NotSupported::TrimDevices),
        }
    }

    /// The job that formats a device.
    pub fn format_device(
        &self,
        config: &Option<PlatformConfig>,
        device: &str,
        label: &str,
        validate: bool,
    ) -> (r: Result<Job, NotSupported>)
        ensures
            match *config {
                Some(PlatformConfig { storage: Some(storage), .. }) => {
                    &&& r matches Ok(job)
                    &&& job.script@ == storage.format_device.script@
                    &&& texts(job.args@) == format_arguments(
                        storage.format_device,
                        device@,
                        label@,
                        validate,
                    )
                    &&& job.title@ == "formatting "@ + device@
                },
                _ => r matches Err(e) && e == NotSupported::FormatDevice,
            },
    {
        let c = match config {
            Some(PlatformConfig { storage: Some(storage), .. }) => &storage.format_device,
            _ => {
                return Err(NotSupported::FormatDevice);
            },
        };
        let mut args: Vec<String> = copy_texts(&c.script_args);
        let ghost a0 = texts(args@);
        args.push(c.label_flag.clone());
        args.push(label.to_owned());
        let ghost a1 = a0 + seq![c.label_flag@, label@];
        assert(texts(args@) =~= a1);
        match (validate, &c.validate_flag, &c.no_validate_flag) {
            (true, Some(flag), _) => {
                args.push(flag.clone());
            },
            (false, _, Some(flag)) => {
                args.push(flag.clone());
            },
            _ => {},
        }
        let ghost a2 = a1 + validation_arguments(*c, validate);
        assert(texts(args@) =~= a2);
        match &c.device_flag {
            Some(flag) => {
                args.push(flag.clone());
            },
            None => {},
        }
        args.push(device.to_owned());
        assert(texts(args@) =~= format_arguments(*c, device@, label@, validate));
        Ok(Job { script: c.script.clone(), args, title: concat("formatting ", device) })
    }

    /// A setting of the GPU's power profile; `in_order` tells whether the request
    /// came in order.
    pub fn set_gpu_power_profile(
        &self,
        in_order: bool,
        driver: &Option<AmdgpuPowerProfileDriver>,
        value: &str,
    ) -> (r: Result<Ordered<GpuPowerProfile>, RootError>)
        ensures
            r == (if !in_order {
                Ok::<Ordered<GpuPowerProfile>, RootError>(Ordered::Discard)
            } else if driver is None {
                Err(RootError::NoGpuPowerProfile)
            } else {
                match AmdgpuPowerProfile::spelled(value@) {
                    Some(v) => Ok(Ordered::Act(GpuPowerProfile::Amdgpu(v))),
                    None => Err(RootError::UnknownValue),
                }
            }),
    {
        if !in_order {
            return Ok(Ordered::Discard);
        }
        match driver {
            None => Err(RootError::NoGpuPowerProfile),
            Some(driver) => match driver.power_profile_from_str(value) {
                Ok(profile) => Ok(Ordered::Act(profile)),
                Err(_) => Err(RootError::UnknownValue),
            },
        }
    }

    /// A setting of the GPU's performance level.
    pub fn set_gpu_performance_level(
        &self,
        in_order: bool,
        driver: &Option<GpuPerformanceLevelDriver>,
        level: &str,
    ) -> (r: Result<Ordered<GpuPerformanceLevel>, RootError>)
        ensures
            r == (if !in_order {
                Ok::<Ordered<GpuPerformanceLevel>, RootError>(Ordered::Discard)
            } else {
                match *driver {
                    None => Err(RootError::NoGpuPerformance),
                    Some(GpuPerformanceLevelDriver::Amdgpu(_)) => {
                        match AmdgpuPerformanceLevel::spelled(level@) {
                            Some(v) => Ok(Ordered::Act(GpuPerformanceLevel::Amdgpu(v))),
                            None => Err(RootError::UnknownValue),
                        }
                    },
                    Some(GpuPerformanceLevelDriver::Intel(_)) => {
                        match IntelPerformanceLevel::spelled(level@) {
                            Some(v) => Ok(Ordered::Act(GpuPerformanceLevel::Intel(v))),
                            None => Err(RootError::UnknownValue),
                        }
                    },
                }
            }),
    {
        if !in_order {
            return Ok(Ordered::Discard);
        }
        let parsed = match driver {
            None => {
                return Err(RootError::NoGpuPerformance);
            },
            Some(GpuPerformanceLevelDriver::Amdgpu(driver)) => driver.performance_level_from_str(
                level,
            ),
            Some(GpuPerformanceLevelDriver::Intel(driver)) => driver.performance_level_from_str(
                level,
            ),
        };
        match parsed {
            Ok(level) => Ok(Ordered::Act(level)),
            Err(_) => Err(RootError::UnknownValue),
        }
    }

    /// A setting of the GPU's clock; `configured` tells whether there is a
    /// driver.
    pub fn set_manual_gpu_clock(&self, in_order: bool, configured: bool, clocks: u32) -> (r: Result<
        Ordered<u32>,
        RootError,
    >)
        ensures
            r == ordered(in_order, configured, clocks, RootError::NoGpuPerformance),
    {
        order_request(in_order, configured, clocks, RootError::NoGpuPerformance)
    }

    /// A setting of the power limit.
    pub fn set_tdp_limit(&self, in_order: bool, configured: bool, limit: u32) -> (r: Result<
        Ordered<u32>,
        RootError,
    >)
        ensures
            r == ordered(in_order, configured, limit, RootError::NoTdpLimiting),
    {
        order_request(in_order, configured, limit, RootError::NoTdpLimiting)
    }

    /// The names of the CPU schedulers that can be set.
    pub fn available_cpu_schedulers(&self, manager: &CpuSchedulerManager) -> (r: Vec<String>)
        ensures
            texts(r@) == (if manager.is_installed() {
                seq!["none"@, "lavd"@]
            } else {
                seq!["none"@]
            }),
    {
        let schedulers: Vec<CpuScheduler> = manager.get_available_cpu_schedulers();
        let mut r: Vec<String> = Vec::new();
        for i in 0..schedulers.len()
            invariant
                r@.len() == i,
                forall|j: int| 0 <= j < i ==> (#[trigger] r@[j])@ == schedulers@[j].spelling(),
        {
            r.push(schedulers[i].to_string());
        }
        assert(texts(r@) =~= (if manager.is_installed() {
            seq!["none"@, "lavd"@]
        } else {
            seq!["none"@]
        }));
        r
    }

    /// The name of the CPU scheduler in use.
    pub fn cpu_scheduler(&self, manager: &CpuSchedulerManager) -> (r: String)
        ensures
            r@ == manager.scheduler().spelling(),
    {
        manager.get_cpu_scheduler().to_string()
    }

    /// What a request for a CPU scheduler comes to.
    pub fn set_cpu_scheduler(&self, manager: &CpuSchedulerManager, scheduler: &str) -> (r: Result<
        (CpuScheduler, SchedulerAction),
        RootError,
    >)
        requires
            manager.wf(),
        ensures
            r == match CpuScheduler::spelled(scheduler@) {
                None => Err::<(CpuScheduler, SchedulerAction), RootError>(RootError::UnknownValue),
                Some(s) => if manager.scheduler() == s {
                    Ok((s, SchedulerAction::Nothing))
                } else if s == CpuScheduler::Kernel {
                    Ok((s, SchedulerAction::Stop(JobMode::Fail)))
                } else if manager.is_installed() {
                    Ok((s, SchedulerAction::Start(JobMode::Fail)))
                } else {
                    Err(RootError::NoScheduler)
                },
            },
            r matches Ok((s, action)) ==> s.spelling() == scheduler@ && scheduler_after(
                manager.scheduler(),
                action,
            ) == s,
    {
        let wanted: CpuScheduler = match CpuScheduler::from_str(scheduler) {
            Ok(s) => s,
            Err(_) => {
                return Err(RootError::UnknownValue);
            },
        };
        proof {
            wanted.law_only_spelling_reads(scheduler@);
        }
        match manager.set_cpu_scheduler(wanted) {
            Ok(action) => Ok((wanted, action)),
            Err(_) => Err(RootError::NoScheduler),
        }
    }

    /// The CPU governor that a request asks for.
    pub fn set_cpu_scaling_governor(&self, governor: &str) -> (r: Result<
        CPUScalingGovernor,
        RootError,
    >)
        ensures
            r == match CPUScalingGovernor::spelled(governor@) {
                Some(g) => Ok::<CPUScalingGovernor, RootError>(g),
                None => Err(RootError::UnknownValue),
            },
    {
        match CPUScalingGovernor::from_str(governor) {
            Ok(g) => Ok(g),
            Err(_) => Err(RootError::UnknownValue),
        }
    }

    /// The CPU boost state that a request asks for.
    pub fn set_cpu_boost_state(&self, state: u32) -> (r: Result<CPUBoostState, UnknownNumber>)
        ensures
            r == or_unknown(CPUBoostState::numbered(state), state as i64),
    {
        CPUBoostState::try_from(state)
    }

    /// The Wi-Fi power saving that a request asks for.
    pub fn set_wifi_power_management_state(&self, state: u32) -> (r: Result<
        WifiPowerManagement,
        UnknownNumber,
    >)
        ensures
            r == or_unknown(WifiPowerManagement::numbered(state), state as i64),
    {
        WifiPowerManagement::try_from(state)
    }

    /// The fan control that a request asks for.
    pub fn set_fan_control_state(&self, state: u32) -> (r: Result<FanControlState, RootError>)
        ensures
            r == match FanControlState::numbered(state) {
                Some(s) => Ok::<FanControlState, RootError>(s),
                None => Err(RootError::InvalidArgs(UnknownNumber { number: state as i64 })),
            },
    {
        match FanControlState::try_from(state) {
            Ok(s) => Ok(s),
            Err(e) => Err(RootError::InvalidArgs(e)),
        }
    }

    /// The platform profile to write to, which has to be configured.
    pub fn set_performance_profile<'a>(&self, platform_profile_name: &'a Option<String>) -> (r:
        Result<&'a str, RootError>)
        ensures
            match *platform_profile_name {
                Some(name) => r matches Ok(n) && n@ == name@,
                None => r matches Err(e) && e == RootError::NoPerformanceProfile,
            },
    {
        match platform_profile_name {
            Some(name) => Ok(name.as_str()),
            None => Err(RootError::NoPerformanceProfile),
        }
    }

    pub fn wifi_debug_mode_state(&self) -> (r: u32)
        ensures
            r == self.wifi_debug_mode.number(),
    {
        self.wifi_debug_mode.to_u32()
    }

    /// What a request for a debug mode comes to.
    pub fn set_wifi_debug_mode(&self, mode: u32, buffer_size: BufferSize) -> (r: Result<
        DebugModeChange,
        RootError,
    >)
        ensures
            r == match WifiDebugMode::numbered(mode) {
                None => Err::<DebugModeChange, RootError>(
                    RootError::InvalidArgs(UnknownNumber { number: mode as i64 }),
                ),
                Some(wanted) => if wanted == self.wifi_debug_mode {
                    Ok(DebugModeChange::Unchanged)
                } else {
                    match buffer_size {
                        BufferSize::Bad => Err(RootError::BadBufferSize),
                        BufferSize::Missing => Ok(
                            DebugModeChange::Change {
                                mode: wanted,
                                buffer_size: DEFAULT_BUFFER_SIZE,
                            },
                        ),
                        BufferSize::Size(size) => Ok(
                            DebugModeChange::Change { mode: wanted, buffer_size: size },
                        ),
                    }
                },
            },
            r matches Ok(change) ==> mode_after(self.wifi_debug_mode, change).number() == mode,
            r matches Ok(DebugModeChange::Change { mode: m, .. }) ==> m != self.wifi_debug_mode,
    {
        let wanted: WifiDebugMode = match WifiDebugMode::try_from(mode) {
            Ok(mode) => mode,
            Err(e) => {
                return Err(RootError::InvalidArgs(e));
            },
        };
        if self.wifi_debug_mode == wanted {
            return Ok(DebugModeChange::Unchanged);
        }
        match buffer_size {
            BufferSize::Size(size) => Ok(
                DebugModeChange::Change { mode: wanted, buffer_size: size },
            ),
            BufferSize::Missing => Ok(
                DebugModeChange::Change { mode: wanted, buffer_size: DEFAULT_BUFFER_SIZE },
            ),
            BufferSize::Bad => Err(RootError::BadBufferSize),
        }
    }

    /// Notes whether the debug mode was changed.
    pub fn wifi_debug_mode_set(&mut self, mode: WifiDebugMode, success: bool)
        ensures
            *final(self) == (if success {
                SteamOSManager { wifi_debug_mode: mode, ..*old(self) }
            } else {
                *old(self)
            }),
    {
        if success {
            self.wifi_debug_mode = mode;
        }
    }

    /// The backend that a request asks for; none can be chosen while Wi-Fi is
    /// traced.
    pub fn set_wifi_backend(&self, backend: u32) -> (r: Result<WifiBackend, RootError>)
        ensures
            r == (if self.wifi_debug_mode == WifiDebugMode::Tracing {
                Err::<WifiBackend, RootError>(RootError::Tracing)
            } else {
                match WifiBackend::numbered(backend) {
                    Some(backend) => Ok(backend),
                    None => Err(RootError::InvalidArgs(UnknownNumber { number: backend as i64 })),
                }
            }),
    {
        if self.wifi_debug_mode == WifiDebugMode::Tracing {
            return Err(RootError::Tracing);
        }
        match WifiBackend::try_from(backend) {
            Ok(backend) => Ok(backend),
            Err(e) => Err(RootError::InvalidArgs(e)),
        }
    }

    /// What is written to set the charge level; -1 stands for 0.
    pub fn set_max_charge_level(&self, in_order: bool, level: i32) -> (r: Result<
        Ordered<String>,
        InvalidLimit,
    >)
        ensures
            if !in_order {
                r matches Ok(o) && o is Discard
            } else if -1 <= level <= 100 {
                r matches Ok(o) && o matches Ordered::Act(data) && data@ == signed_decimal(
                    if level == -1 {
                        0
                    } else {
                        level as int
                    },
                )
            } else {
                r is Err
            },
            r matches Ok(Ordered::Act(data)) ==> (i32_of(data@) matches Some(n) && 0 <= n <= 100
                && n == if level < 0 { 0 } else { level }),
    {
        if !in_order {
            return Ok(Ordered::Discard);
        }
        let level: i32 = if level == -1 {
            0
        } else {
            level
        };
        proof {
            law_signed_reads_back(level as int);
        }
        match set_max_charge_level(level) {
            Ok(data) => Ok(Ordered::Act(data)),
            Err(e) => Err(e),
        }
    }

    /// Whether the device can be woken over HDMI: without hardware it cannot.
    pub fn hdmi_cec_can_awaken(&self, cec_hw: &Option<CrosEcHwController>, contents: &str) -> (r:
        bool)
        ensures
            r == match *cec_hw {
                Some(hw) => crate::cec::port_entry(
                    crate::text::lines_of(contents@),
                    hw.port,
                ) is Some,
                None => false,
            },
    {
        match cec_hw {
            Some(hw) => hw.can_awaken(contents),
            None => false,
        }
    }

    /// The hardware, which the other requests about it need.
    pub fn require_cec_hw<'a>(&self, cec_hw: &'a Option<CrosEcHwController>) -> (r: Result<
        &'a CrosEcHwController,
        RootError,
    >)
        ensures
            match *cec_hw {
                Some(hw) => r matches Ok(h) && *h == hw,
                None => r matches Err(e) && e == RootError::NoCecHardware,
            },
    {
        match cec_hw {
            Some(hw) => Ok(hw),
            None => Err(RootError::NoCecHardware),
        }
    }
}

/// What a request comes to that is discarded out of order and fails where
/// nothing is configured for it.
pub open spec fn ordered(in_order: bool, configured: bool, value: u32, error: RootError) -> Result<
    Ordered<u32>,
    RootError,
> {
    if !in_order {
        Ok(Ordered::Discard)
    } else if configured {
        Ok(Ordered::Act(value))
    } else {
        Err(error)
    }
}

fn order_request(in_order: bool, configured: bool, value: u32, error: RootError) -> (r: Result<
    Ordered<u32>,
    RootError,
>)
    ensures
        r == ordered(in_order, configured, value, error),
{
    if !in_order {
        return Ok(Ordered::Discard);
    }
    if configured {
        Ok(Ordered::Act(value))
    } else {
        Err(error)
    }
}

/// The flag about validation, if there is one for the choice.
pub open spec fn validation_arguments(
    c: crate::platform::FormatDeviceConfig,
    validate: bool,
) -> Seq<Seq<char>> {
    let flag = if validate {
        c.validate_flag
    } else {
        c.no_validate_flag
    };
    match flag {
        Some(flag) => seq![flag@],
        None => Seq::empty(),
    }
}

/// The arguments of the script that formats a device: its own, the label, the
/// flag about validation, and the device, behind its flag if it has one.
pub open spec fn format_arguments(
    c: crate::platform::FormatDeviceConfig,
    device: Seq<char>,
    label: Seq<char>,
    validate: bool,
) -> Seq<Seq<char>> {
    texts(c.script_args@) + seq![c.label_flag@, label] + validation_arguments(c, validate) + (
    match c.device_flag {
        Some(flag) => seq![flag@, device],
        None => seq![device],
    })
}

/// The device is always the last argument, and the label follows its flag.
pub proof fn law_format_arguments_end(
    c: crate::platform::FormatDeviceConfig,
    device: Seq<char>,
    label: Seq<char>,
    validate: bool,
)
    ensures
        format_arguments(c, device, label, validate).last() == device,
        format_arguments(c, device, label, validate)[c.script_args@.len() as int] == c.label_flag@,
        format_arguments(c, device, label, validate)[c.script_args@.len() as int + 1] == label,
{
}

/// A request that comes out of order is dropped, whatever else is wrong with it.
/// Else it is acted on, with its value, exactly if it is configured.
pub proof fn law_requests_in_order(in_order: bool, configured: bool, value: u32, error: RootError)
    ensures
        ordered(in_order, configured, value, error) == Ok::<Ordered<u32>, RootError>(
            Ordered::Discard,
        ) <==> !in_order,
        ordered(in_order, configured, value, error) is Err <==> in_order && !configured,
        ordered(in_order, configured, value, error) matches Err(e) ==> e == error,
        ordered(in_order, configured, value, error) matches Ok(Ordered::Act(v)) ==> v == value,
{
}

/// Only the script of the kind that is asked for matters to a reset.
pub proof fn law_reset_scripts(
    a: crate::platform::ResetConfig,
    b: crate::platform::ResetConfig,
    kind: FactoryResetKind,
)
    ensures
        kind == FactoryResetKind::User && a.user == b.user ==> reset_script(a, kind)
            == reset_script(b, kind),
        kind == FactoryResetKind::OS && a.os == b.os ==> reset_script(a, kind) == reset_script(
            b,
            kind,
        ),
        kind == FactoryResetKind::All && a.all == b.all ==> reset_script(a, kind) == reset_script(
            b,
            kind,
        ),
        reset_script(a, kind) == a.user || reset_script(a, kind) == a.os || reset_script(a, kind)
            == a.all,
{
}

/// The script's own arguments come first. The flag about validation is the one
/// for the choice, if there is one, and never the other one's; the device follows
/// its flag, if there is one.
pub proof fn law_format_arguments(
    c: crate::platform::FormatDeviceConfig,
    device: Seq<char>,
    label: Seq<char>,
    validate: bool,
)
    ensures
        ({
            let args = format_arguments(c, device, label, validate);
            let n = c.script_args@.len() as int;
            let flag = if validate {
                c.validate_flag
            } else {
                c.no_validate_flag
            };
            let flags: int = if flag is Some {
                1
            } else {
                0
            };
            let devices: int = if c.device_flag is Some {
                1
            } else {
                0
            };
            &&& args.len() == n + 2 + flags + devices + 1
            &&& args.take(n) == texts(c.script_args@)
            &&& args[n] == c.label_flag@ && args[n + 1] == label
            &&& (flag matches Some(f) ==> args[n + 2] == f@)
            &&& (c.device_flag matches Some(f) ==> args[args.len() - 2] == f@)
            &&& args.last() == device
        }),
{
    let args = format_arguments(c, device, label, validate);
    assert(args.take(c.script_args@.len() as int) =~= texts(c.script_args@));
}

/// A job runs the script that is configured, with each of its arguments in its
/// place and no others.
pub proof fn law_jobs_run_their_script(job: Job, config: ScriptConfig, title: Seq<char>, i: int)
    requires
        is_job_of(job, config, title),
    ensures
        job.script@ == config.script@,
        job.args@.len() == config.script_args@.len(),
        0 <= i < job.args@.len() ==> job.args@[i]@ == config.script_args@[i]@,
        job.title@ == title,
{
    assert(texts(job.args@).len() == job.args@.len());
    assert(texts(config.script_args@).len() == config.script_args@.len());
    if 0 <= i < job.args@.len() {
        assert(texts(job.args@)[i] == job.args@[i]@);
        assert(texts(config.script_args@)[i] == config.script_args@[i]@);
    }
}

} // verus!
