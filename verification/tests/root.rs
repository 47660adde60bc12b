use steamos_manager::cec::CrosEcHwController;
use steamos_manager::gpu::{
    AmdgpuPerformanceLevel, AmdgpuPerformanceLevelDriver, AmdgpuPowerProfile,
    AmdgpuPowerProfileDriver, GpuPerformanceLevel, GpuPerformanceLevelDriver, GpuPowerProfile,
};
use steamos_manager::hardware::{FactoryResetKind, FanControlState, SteamDeckVariant};
use steamos_manager::platform::{
    FormatDeviceConfig, PlatformConfig, ResetConfig, ScriptConfig, StorageConfig,
};
use steamos_manager::power::cpu::SchedulerAction;
use steamos_manager::power::{
    CPUBoostState, CPUScalingGovernor, CpuScheduler, CpuSchedulerManager,
};
use steamos_manager::root::{
    BufferSize, DebugModeChange, Job, NotSupported, Ordered, PrepareFactoryResetResult, ResetStep,
    RootError, SteamOSManager, DEFAULT_BUFFER_SIZE,
};
use steamos_manager::systemd::JobMode;
use steamos_manager::wifi::{WifiBackend, WifiDebugMode, WifiPowerManagement};

fn texts(texts: &[&str]) -> Vec<String> {
    texts.iter().map(|t| t.to_string()).collect()
}

fn script(path: &str, args: &[&str]) -> ScriptConfig {
    ScriptConfig {
        script: path.to_string(),
        script_args: texts(args),
    }
}

fn manager() -> SteamOSManager {
    SteamOSManager::new(Some(SteamDeckVariant::Jupiter))
}

#[test]
fn prepare_factory_reset() {
    let manager = manager();
    let config = Some(PlatformConfig {
        factory_reset: Some(ResetConfig {
            all: script("all", &["-a"]),
            os: script("os", &[]),
            user: script("user", &["-u", "-v"]),
        }),
        ..PlatformConfig::default()
    });
    for (kind, path, args) in [
        (FactoryResetKind::All, "all", texts(&["-a"])),
        (FactoryResetKind::OS, "os", texts(&[])),
        (FactoryResetKind::User, "user", texts(&["-u", "-v"])),
    ] {
        assert_eq!(
            manager.prepare_factory_reset(&config, kind.to_u32()),
            Ok(ResetStep::Run {
                script: path.to_string(),
                args
            })
        );
    }
    assert_eq!(
        manager.factory_reset_prepared(true),
        PrepareFactoryResetResult::RebootRequired
    );
    assert_eq!(
        manager.factory_reset_prepared(false),
        PrepareFactoryResetResult::Unknown
    );
}

#[test]
fn factory_reset_edges() {
    let manager = manager();
    let config = Some(PlatformConfig {
        factory_reset: Some(ResetConfig {
            all: script("all", &[]),
            os: script("os", &[]),
            user: script("user", &[]),
        }),
        ..PlatformConfig::default()
    });
    assert_eq!(
        manager.prepare_factory_reset(&config, 99),
        Ok(ResetStep::Answer(PrepareFactoryResetResult::Unknown))
    );
    for config in [None, Some(PlatformConfig::default())] {
        let error = manager.prepare_factory_reset(&config, 1).unwrap_err();
        assert_eq!(error, NotSupported::PrepareFactoryReset);
    }
    assert_eq!(PrepareFactoryResetResult::Unknown.to_u32(), 0);
    assert_eq!(PrepareFactoryResetResult::RebootRequired.to_u32(), 1);
    assert!(FactoryResetKind::try_from(0).is_err());
    assert_eq!(FactoryResetKind::from_str("os"), Ok(FactoryResetKind::OS));
    assert_eq!(FanControlState::try_from(1), Ok(FanControlState::Os));
    assert_eq!(FanControlState::Bios.to_string(), "bios");
}

#[test]
fn als_calibration_gain() {
    let manager = manager();
    let indices = |variant| manager.als_calibration_indices(Some(variant));
    assert_eq!(indices(SteamDeckVariant::Jupiter), vec!["2"]);
    assert_eq!(indices(SteamDeckVariant::Galileo), vec!["2", "4"]);
    assert!(indices(SteamDeckVariant::Unknown).is_empty());
    assert!(manager.als_calibration_indices(None).is_empty());
}

#[test]
fn als_paths() {
    let manager = manager();
    assert_eq!(
        manager.als_integration_time_path(SteamDeckVariant::Jupiter, 0).unwrap(),
        "/sys/devices/platform/AMDI0010:00/i2c-0/i2c-PRP0001:01/iio:device0/in_illuminance_integration_time"
    );
    assert_eq!(
        manager.als_integration_time_path(SteamDeckVariant::Galileo, 2).unwrap(),
        "/sys/devices/platform/AMDI0010:00/i2c-0/i2c-PRP0001:02/iio:device2/in_illuminance_integration_time"
    );
    assert_eq!(
        manager.als_integration_time_path(SteamDeckVariant::Unknown, 0),
        Err(RootError::UnknownModel)
    );
}

fn config() -> Option<PlatformConfig> {
    Some(PlatformConfig {
        update_bios: Some(script("bios", &["-b"])),
        update_dock: Some(script("dock", &[])),
        storage: Some(StorageConfig {
            trim_devices: script("trim", &[]),
            format_device: FormatDeviceConfig {
                script: "format".to_string(),
                script_args: texts(&["--force"]),
                label_flag: "--label".to_string(),
                device_flag: Some("--device".to_string()),
                validate_flag: Some("--check".to_string()),
                no_validate_flag: None,
            },
        }),
        ..PlatformConfig::default()
    })
}

fn job(script: &str, args: &[&str], title: &str) -> Result<Job, NotSupported> {
    Ok(Job {
        script: script.to_string(),
        args: texts(args),
        title: title.to_string(),
    })
}

#[test]
fn jobs() {
    let manager = manager();
    assert_eq!(
        manager.update_bios(&config()),
        job("bios", &["-b"], "updating BIOS")
    );
    assert_eq!(
        manager.update_dock(&config()),
        job("dock", &[], "updating dock")
    );
    assert_eq!(
        manager.trim_devices(&config()),
        job("trim", &[], "trimming devices")
    );
    assert_eq!(
        manager.format_device(&config(), "/dev/sda", "deck", true),
        job(
            "format",
            &["--force", "--label", "deck", "--check", "--device", "/dev/sda"],
            "formatting /dev/sda"
        )
    );
    assert_eq!(
        manager.format_device(&config(), "/dev/sda", "deck", false),
        job(
            "format",
            &["--force", "--label", "deck", "--device", "/dev/sda"],
            "formatting /dev/sda"
        )
    );
}

#[test]
fn jobs_without_configuration() {
    let manager = manager();
    let config = Some(PlatformConfig::default());
    assert_eq!(manager.update_bios(&config), Err(NotSupported::UpdateBios));
    assert_eq!(manager.update_dock(&config), Err(NotSupported::UpdateDock));
    assert_eq!(
        manager.trim_devices(&config),
        Err(NotSupported::TrimDevices)
    );
    assert_eq!(
        manager.format_device(&config, "d", "l", true),
        Err(NotSupported::FormatDevice)
    );
    assert_eq!(
        NotSupported::UpdateBios.message(),
        "UpdateBios is not supported on this platform"
    );
}

fn amdgpu_driver() -> Option<GpuPerformanceLevelDriver> {
    Some(GpuPerformanceLevelDriver::Amdgpu(
        AmdgpuPerformanceLevelDriver {},
    ))
}

#[test]
fn gpu_performance_level() {
    let manager = manager();
    let level = GpuPerformanceLevel::Amdgpu(AmdgpuPerformanceLevel::Low);
    let order = manager.set_gpu_performance_level(true, &amdgpu_driver(), &level.to_string());
    assert_eq!(order, Ok(Ordered::Act(level)));
    let driver = AmdgpuPerformanceLevelDriver {};
    let written = driver.set_performance_level(level).unwrap();
    assert_eq!(driver.get_performance_level(&written).unwrap(), level);
}

#[test]
fn manual_gpu_clock() {
    let manager = manager();
    assert_eq!(
        manager.set_manual_gpu_clock(true, true, 200),
        Ok(Ordered::Act(200))
    );
    assert_eq!(
        AmdgpuPerformanceLevelDriver {}.set_clocks(200).concat(),
        "s 0 200\ns 1 200\nc\n"
    );
}

#[test]
fn late_orders_are_discarded() {
    let manager = manager();
    assert_eq!(
        manager.set_gpu_performance_level(false, &None, "low"),
        Ok(Ordered::Discard)
    );
    assert_eq!(
        manager.set_manual_gpu_clock(false, false, 200),
        Ok(Ordered::Discard)
    );
    assert_eq!(
        manager.set_tdp_limit(false, true, 9),
        Ok(Ordered::Discard)
    );
    assert_eq!(
        manager.set_gpu_power_profile(false, &None, "vr"),
        Ok(Ordered::Discard)
    );
    assert_eq!(
        manager.set_max_charge_level(false, 1000),
        Ok(Ordered::Discard)
    );
}

#[test]
fn orders() {
    let manager = manager();
    assert_eq!(
        manager.set_gpu_power_profile(true, &Some(AmdgpuPowerProfileDriver {}), "vr"),
        Ok(Ordered::Act(GpuPowerProfile::Amdgpu(
            AmdgpuPowerProfile::VR
        )))
    );
    assert_eq!(
        manager.set_gpu_power_profile(true, &None, "vr"),
        Err(RootError::NoGpuPowerProfile)
    );
    assert_eq!(
        manager.set_gpu_power_profile(true, &Some(AmdgpuPowerProfileDriver {}), "x"),
        Err(RootError::UnknownValue)
    );
    assert_eq!(
        manager.set_gpu_performance_level(true, &None, "low"),
        Err(RootError::NoGpuPerformance)
    );
    assert_eq!(
        manager.set_gpu_performance_level(true, &amdgpu_driver(), "lowest"),
        Err(RootError::UnknownValue)
    );
    assert_eq!(
        manager.set_manual_gpu_clock(true, false, 1),
        Err(RootError::NoGpuPerformance)
    );
    assert_eq!(manager.set_tdp_limit(true, true, 9), Ok(Ordered::Act(9)));
    assert_eq!(
        manager.set_tdp_limit(true, false, 9),
        Err(RootError::NoTdpLimiting)
    );
    assert_eq!(
        manager.set_max_charge_level(true, 80),
        Ok(Ordered::Act("80".to_string()))
    );
    assert_eq!(
        manager.set_max_charge_level(true, -1),
        Ok(Ordered::Act("0".to_string()))
    );
    assert!(manager.set_max_charge_level(true, 101).is_err());
    assert!(manager.set_max_charge_level(true, -2).is_err());
    assert_eq!(
        manager.available_cpu_schedulers(&CpuSchedulerManager::new(Some(None))),
        texts(&["none", "lavd"])
    );
    assert_eq!(
        manager.available_cpu_schedulers(&CpuSchedulerManager::new(None)),
        texts(&["none"])
    );
}

#[test]
fn debug_mode() {
    let mut manager = manager();
    assert!(!manager.should_trace);
    assert!(SteamOSManager::new(Some(SteamDeckVariant::Galileo)).should_trace);
    assert_eq!(manager.wifi_debug_mode_state(), 0);
    assert_eq!(
        manager.set_wifi_debug_mode(0, BufferSize::Bad),
        Ok(DebugModeChange::Unchanged)
    );
    assert_eq!(
        manager.set_wifi_debug_mode(1, BufferSize::Bad),
        Err(RootError::BadBufferSize)
    );
    assert_eq!(
        manager.set_wifi_debug_mode(1, BufferSize::Missing),
        Ok(DebugModeChange::Change {
            mode: WifiDebugMode::Tracing,
            buffer_size: DEFAULT_BUFFER_SIZE
        })
    );
    assert_eq!(
        manager.set_wifi_debug_mode(1, BufferSize::Size(300)),
        Ok(DebugModeChange::Change {
            mode: WifiDebugMode::Tracing,
            buffer_size: 300
        })
    );
    assert!(matches!(
        manager.set_wifi_debug_mode(7, BufferSize::Missing),
        Err(RootError::InvalidArgs(n)) if n.number == 7
    ));
    assert_eq!(manager.set_wifi_backend(0), Ok(WifiBackend::Iwd));
    manager.wifi_debug_mode_set(WifiDebugMode::Tracing, false);
    assert_eq!(manager.wifi_debug_mode_state(), 0);
    manager.wifi_debug_mode_set(WifiDebugMode::Tracing, true);
    assert_eq!(manager.wifi_debug_mode_state(), 1);
    assert_eq!(manager.set_wifi_backend(0), Err(RootError::Tracing));
}

#[test]
fn cec_hardware() {
    let manager = manager();
    let hw = Some(CrosEcHwController { port: 1 });
    assert!(manager.hdmi_cec_can_awaken(&hw, "1 0\n"));
    assert!(!manager.hdmi_cec_can_awaken(&hw, "0 0\n"));
    assert!(!manager.hdmi_cec_can_awaken(&None, "1 0\n"));
    assert_eq!(manager.require_cec_hw(&hw).unwrap().port, 1);
    assert_eq!(
        manager.require_cec_hw(&None).err(),
        Some(RootError::NoCecHardware)
    );
}

#[test]
fn cpu_requests() {
    let manager = manager();
    let schedulers = CpuSchedulerManager::new(Some(None));
    assert_eq!(manager.cpu_scheduler(&schedulers), "none");
    assert_eq!(
        manager.set_cpu_scheduler(&schedulers, "lavd"),
        Ok((
            CpuScheduler::LAVD,
            SchedulerAction::Start(JobMode::Fail)
        ))
    );
    assert_eq!(
        manager.set_cpu_scheduler(&schedulers, "none"),
        Ok((CpuScheduler::Kernel, SchedulerAction::Nothing))
    );
    assert_eq!(
        manager.set_cpu_scheduler(&schedulers, "bfq"),
        Err(RootError::UnknownValue)
    );
    assert_eq!(
        manager.set_cpu_scheduler(&CpuSchedulerManager::new(None), "lavd"),
        Err(RootError::NoScheduler)
    );
    assert_eq!(
        manager.set_cpu_scaling_governor("schedutil"),
        Ok(CPUScalingGovernor::SchedUtil)
    );
    assert_eq!(
        manager.set_cpu_scaling_governor("Schedutil"),
        Err(RootError::UnknownValue)
    );
    assert_eq!(manager.set_cpu_boost_state(0), Ok(CPUBoostState::Disabled));
    assert!(manager.set_cpu_boost_state(2).is_err());
}

#[test]
fn other_requests() {
    let manager = manager();
    assert_eq!(
        manager.set_wifi_power_management_state(1),
        Ok(WifiPowerManagement::Enabled)
    );
    assert!(manager.set_wifi_power_management_state(2).is_err());
    assert_eq!(
        manager.set_fan_control_state(0),
        Ok(FanControlState::Bios)
    );
    assert!(matches!(
        manager.set_fan_control_state(5),
        Err(RootError::InvalidArgs(n)) if n.number == 5
    ));
    let name = Some("power-driver".to_string());
    assert_eq!(manager.set_performance_profile(&name), Ok("power-driver"));
    assert_eq!(
        manager.set_performance_profile(&None),
        Err(RootError::NoPerformanceProfile)
    );
}

#[test]
fn root_messages() {
    for (error, message) in [
        (
            RootError::NoGpuPowerProfile,
            "GPU power profile settings not configured",
        ),
        (
            RootError::NoGpuPerformance,
            "GPU performance settings not configured",
        ),
        (RootError::NoTdpLimiting, "TDP limiting not configured"),
        (RootError::UnknownValue, "Matching variant not found"),
        (
            RootError::Tracing,
            "operation not supported when wifi_debug_mode=tracing",
        ),
        (RootError::UnknownModel, "Unknown model"),
        (RootError::NoCecHardware, "No HDMI CEC hardware configured"),
        (
            RootError::NoScheduler,
            "Cannot set CPU scheduler to LAVD; scx.service not installed",
        ),
        (
            RootError::NoPerformanceProfile,
            "No performance platform-profile configured",
        ),
    ] {
        assert_eq!(error.message().unwrap(), message);
    }
    assert_eq!(RootError::BadBufferSize.message(), None);
}
