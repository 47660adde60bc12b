use steamos_manager::power::battery::{
    find_battery, BatterySearch, ChargePath, ChargePathError, InvalidLimit, PowerSupply, SupplyType,
};
use steamos_manager::power::cpu::{GovernorError, SchedulerAction, SchedulerNotInstalled};
use steamos_manager::power::{
    find_battery_charge_path, find_cpu_boost_driver, get_available_cpu_scaling_governors,
    get_available_platform_profiles, get_cpu_boost_state, get_cpu_scaling_governor,
    get_max_charge_level, get_platform_profile, set_cpu_boost_state, set_cpu_scaling_governor,
    set_max_charge_level, BatteryChargeLimitMethod, CPUBoostState, CPUScalingGovernor,
    CpuBoostDriver, CpuScheduler, CpuSchedulerManager, TdpLimitingMethod,
};
use steamos_manager::systemd::{EnableState, JobMode};

const GOVERNORS: [(&str, CPUScalingGovernor); 6] = [
    ("conservative", CPUScalingGovernor::Conservative),
    ("ondemand", CPUScalingGovernor::OnDemand),
    ("userspace", CPUScalingGovernor::UserSpace),
    ("powersave", CPUScalingGovernor::PowerSave),
    ("performance", CPUScalingGovernor::Performance),
    ("schedutil", CPUScalingGovernor::SchedUtil),
];

#[test]
fn cpu_governor_roundtrip() {
    for (text, governor) in GOVERNORS {
        assert_eq!(CPUScalingGovernor::from_str(text).unwrap(), governor);
        assert_eq!(governor.to_string(), text);
    }
    assert!(CPUScalingGovernor::from_str("usersave").is_err());
}

#[test]
fn cpu_boost_state_roundtrip() {
    for (n, state) in [(0u32, CPUBoostState::Disabled), (1, CPUBoostState::Enabled)] {
        assert_eq!(CPUBoostState::try_from(n).unwrap(), state);
        assert_eq!(state.to_u32(), n);
    }
    for (text, state) in [
        ("disabled", CPUBoostState::Disabled),
        ("enabled", CPUBoostState::Enabled),
    ] {
        assert_eq!(CPUBoostState::from_str(text).unwrap(), state);
        assert_eq!(state.to_string(), text);
    }
    for text in ["on", "enable", "enabled", "1"] {
        assert_eq!(
            CPUBoostState::from_str(text).unwrap(),
            CPUBoostState::Enabled
        );
    }
    for text in ["off", "disable", "disabled", "0"] {
        assert_eq!(
            CPUBoostState::from_str(text).unwrap(),
            CPUBoostState::Disabled
        );
    }
    assert!(CPUBoostState::try_from(2).is_err());
    assert!(CPUBoostState::from_str("enabld").is_err());
}

#[test]
fn unknown_numbers_are_told() {
    assert_eq!(CPUBoostState::try_from(2).unwrap_err().number, 2);
}

#[test]
fn other_values() {
    assert_eq!(CpuScheduler::from_str("none").unwrap(), CpuScheduler::Kernel);
    assert_eq!(CpuScheduler::from_str("lavd").unwrap(), CpuScheduler::LAVD);
    assert!(CpuScheduler::from_str("LAVD").is_err());
    assert_eq!(CpuScheduler::Kernel.to_string(), "none");
    assert_eq!(TdpLimitingMethod::AmdgpuHwmon.to_string(), "amdgpu_hwmon");
    assert_eq!(
        TdpLimitingMethod::from_str("firmware_attribute").unwrap(),
        TdpLimitingMethod::FirmwareAttribute
    );
}

fn all_governors() -> Vec<CPUScalingGovernor> {
    GOVERNORS.iter().map(|(_, g)| *g).collect()
}

#[test]
fn read_cpu_available_governors() {
    let contents = "conservative ondemand userspace powersave performance schedutil";
    assert_eq!(
        get_available_cpu_scaling_governors(contents),
        all_governors()
    );
}

#[test]
fn read_invalid_cpu_available_governors() {
    let contents = "conservative ondemand userspace rescascade powersave performance schedutil\n";
    assert_eq!(
        get_available_cpu_scaling_governors(contents),
        all_governors()
    );
}

#[test]
fn read_cpu_governor() {
    assert_eq!(
        get_cpu_scaling_governor("ondemand\n").unwrap(),
        CPUScalingGovernor::OnDemand
    );
}

#[test]
fn read_invalid_cpu_governor() {
    assert!(get_cpu_scaling_governor("rescascade\n").is_err());
}

fn names(names: &[&str]) -> Vec<Option<String>> {
    names.iter().map(|n| Some(n.to_string())).collect()
}

#[test]
fn governor_is_written_to_each_policy() {
    let writes = set_cpu_scaling_governor(
        CPUScalingGovernor::OnDemand,
        &names(&["policy0", "boost", "policy12"]),
    );
    assert_eq!(writes.contents, "ondemand");
    assert_eq!(writes.policies, vec!["policy0", "policy12"]);
    assert_eq!(writes.result, Ok(()));
    assert_eq!(
        get_cpu_scaling_governor(&writes.contents),
        Ok(CPUScalingGovernor::OnDemand)
    );
}

#[test]
fn governor_errors() {
    let writes = set_cpu_scaling_governor(CPUScalingGovernor::OnDemand, &names(&["boost"]));
    assert_eq!(writes.result, Err(GovernorError::NothingWritten));
    let writes = set_cpu_scaling_governor(
        CPUScalingGovernor::OnDemand,
        &vec![
            Some("policy0".to_string()),
            None,
            Some("policy1".to_string()),
        ],
    );
    assert_eq!(writes.policies, vec!["policy0"]);
    assert_eq!(writes.result, Err(GovernorError::BadName));
}

#[test]
fn read_cpu_boost_state_cpufreq() {
    let driver = find_cpu_boost_driver(true, false).unwrap();
    assert_eq!(driver, CpuBoostDriver::CpuFreq);
    assert_eq!(
        get_cpu_boost_state(driver, "1\n"),
        Some(CPUBoostState::Enabled)
    );
    assert_eq!(
        get_cpu_boost_state(driver, "0\n"),
        Some(CPUBoostState::Disabled)
    );
}

#[test]
fn read_invalid_cpu_boost_state_cpufreq() {
    let driver = find_cpu_boost_driver(true, false).unwrap();
    assert_eq!(get_cpu_boost_state(driver, "2\n"), None);
    assert_eq!(find_cpu_boost_driver(false, false), None);
}

#[test]
fn read_cpu_boost_state_intel_pstate() {
    let driver = find_cpu_boost_driver(false, true).unwrap();
    assert_eq!(driver, CpuBoostDriver::IntelPstate);
    assert_eq!(
        get_cpu_boost_state(driver, "0\n"),
        Some(CPUBoostState::Enabled)
    );
    assert_eq!(
        get_cpu_boost_state(driver, "1\n"),
        Some(CPUBoostState::Disabled)
    );
}

#[test]
fn read_invalid_cpu_boost_state_intel_pstate() {
    let driver = find_cpu_boost_driver(false, true).unwrap();
    assert_eq!(get_cpu_boost_state(driver, "2\n"), None);
    assert_eq!(find_cpu_boost_driver(false, false), None);
}

#[test]
fn boost_state_reads_back() {
    for driver in [CpuBoostDriver::CpuFreq, CpuBoostDriver::IntelPstate] {
        for state in [CPUBoostState::Enabled, CPUBoostState::Disabled] {
            let contents = set_cpu_boost_state(driver, state);
            assert_eq!(get_cpu_boost_state(driver, &contents), Some(state));
        }
    }
    assert_eq!(
        set_cpu_boost_state(CpuBoostDriver::IntelPstate, CPUBoostState::Enabled),
        "0"
    );
    assert_eq!(
        CpuBoostDriver::CpuFreq.path(),
        "/sys/devices/system/cpu/cpufreq/boost"
    );
}

#[test]
fn schedulers() {
    let mut manager = CpuSchedulerManager::new(Some(Some(EnableState::Enabled)));
    assert_eq!(manager.get_cpu_scheduler(), CpuScheduler::LAVD);
    assert_eq!(
        manager.get_available_cpu_schedulers(),
        vec![CpuScheduler::Kernel, CpuScheduler::LAVD]
    );
    assert_eq!(
        manager.set_cpu_scheduler(CpuScheduler::LAVD),
        Ok(SchedulerAction::Nothing)
    );
    assert_eq!(
        manager.set_cpu_scheduler(CpuScheduler::Kernel),
        Ok(SchedulerAction::Stop(JobMode::Fail))
    );
    manager.cpu_scheduler_set(CpuScheduler::Kernel, false);
    assert_eq!(manager.get_cpu_scheduler(), CpuScheduler::LAVD);
    manager.cpu_scheduler_set(CpuScheduler::Kernel, true);
    assert_eq!(manager.get_cpu_scheduler(), CpuScheduler::Kernel);
    assert_eq!(
        manager.set_cpu_scheduler(CpuScheduler::LAVD),
        Ok(SchedulerAction::Start(JobMode::Fail))
    );

    let manager = CpuSchedulerManager::new(None);
    assert_eq!(
        manager.get_available_cpu_schedulers(),
        vec![CpuScheduler::Kernel]
    );
    assert_eq!(
        manager.set_cpu_scheduler(CpuScheduler::LAVD),
        Err(SchedulerNotInstalled)
    );
    assert!(CpuSchedulerManager::is_supported(true));
}

fn supply(contents: &str, has_limit: bool) -> PowerSupply {
    PowerSupply {
        is_dir: true,
        supply_type: SupplyType::Contents(contents.to_string()),
        has_limit,
    }
}

#[test]
fn read_max_charge_level_acpi_sb() {
    assert_eq!(
        find_battery_charge_path(
            &Some(BatteryChargeLimitMethod::AcpiSb),
            &vec![supply("Battery\n", true)],
            false
        ),
        Ok(ChargePath::Supply(0))
    );
    assert_eq!(get_max_charge_level("10\n").unwrap(), 10);
    assert_eq!(get_max_charge_level("99\n").unwrap(), 99);
    assert!(set_max_charge_level(101).is_err());
    assert!(set_max_charge_level(-1).is_err());
}

#[test]
fn read_max_charge_level_hwmmon() {
    let method = BatteryChargeLimitMethod::HwmonAttribute {
        hwmon: String::from("steamdeck_hwmon"),
        attribute: String::from("max_battery_charge_level"),
    };
    assert_eq!(method.to_string(), "hwmon_attribute");
    let method = Some(method);
    assert_eq!(
        find_battery_charge_path(&method, &vec![], true),
        Ok(ChargePath::HwmonAttribute)
    );
    assert_eq!(
        find_battery_charge_path(&method, &vec![supply("Battery", true)], false),
        Err(ChargePathError::NotFound)
    );
    assert_eq!(get_max_charge_level("10\n").unwrap(), 10);
    assert_eq!(get_max_charge_level("99\n").unwrap(), 99);
    assert!(set_max_charge_level(101).is_err());
    assert!(set_max_charge_level(-1).is_err());
}

#[test]
fn battery_search() {
    let missing = PowerSupply {
        is_dir: true,
        supply_type: SupplyType::NotFound,
        has_limit: true,
    };
    let unreadable = PowerSupply {
        is_dir: true,
        supply_type: SupplyType::Unreadable,
        has_limit: true,
    };
    let supplies = vec![
        supply("Mains\n", true),
        missing,
        supply("Battery\n", false),
        supply("Battery", true),
    ];
    assert_eq!(find_battery(&supplies), BatterySearch::Found(3));
    let supplies = vec![supply("Mains", true), unreadable, supply("Battery", true)];
    assert_eq!(find_battery(&supplies), BatterySearch::Failed(1));
    let method = Some(BatteryChargeLimitMethod::AcpiSb);
    assert_eq!(
        find_battery_charge_path(&method, &supplies, true),
        Err(ChargePathError::Unreadable(1))
    );
    assert_eq!(find_battery(&vec![]), BatterySearch::NotFound);
    let error = find_battery_charge_path(&method, &vec![], true).unwrap_err();
    assert_eq!(error, ChargePathError::NotFound);
    assert_eq!(error.message().unwrap(), "Battery not found");
    let error = find_battery_charge_path(&None, &vec![], true).unwrap_err();
    assert_eq!(
        error.message().unwrap(),
        "No battery charge limit configured"
    );
    assert_eq!(ChargePathError::Unreadable(0).message(), None);
    assert_eq!(InvalidLimit.message(), "Invalid limit");
}

#[test]
fn charge_level_reads_back() {
    for level in 0..=100 {
        let data = set_max_charge_level(level).unwrap();
        assert_eq!(get_max_charge_level(&data), Some(level));
    }
    assert_eq!(set_max_charge_level(80).unwrap(), "80");
    assert_eq!(set_max_charge_level(-1), Err(InvalidLimit));
    assert_eq!(get_max_charge_level("-1\n"), Some(-1));
    assert_eq!(get_max_charge_level("full"), None);
}

#[test]
fn read_available_performance_profiles() {
    assert_eq!(get_available_platform_profiles("a b c\n"), &["a", "b", "c"]);
}

#[test]
fn platform_profile_edges() {
    assert_eq!(get_available_platform_profiles("a  b"), &["a", "", "b"]);
    assert_eq!(get_available_platform_profiles(""), &[""]);
    assert_eq!(get_platform_profile("balanced\n"), "balanced");
}
