use steamos_manager::power::tdp::OpenOutcome;
use steamos_manager::systemd::JobMode;
use steamos_manager::wifi::ini::holds_huge_key;
use steamos_manager::wifi::network::{
    add_interface_arguments, check_nm_settings, ensure_default_interface,
    keep_wifi_power_management_state, read_nm_settings, Entry, InterfaceAction, InterfaceState,
    NmError, NmStep, NoInterfaces,
};
use steamos_manager::wifi::trace::{
    is_wifi_crash, DebugModeError, DebugStep, NoHelperBlock, OverrideAction, OVERRIDE_CONTENTS,
    OVERRIDE_FOLDER, OVERRIDE_PATH, TRACE_CMD_PATH,
};
use steamos_manager::wifi::{
    extract_wifi_trace, generate_wifi_dump, get_nm_settings, get_wifi_backend,
    get_wifi_power_management_state, list_wifi_interfaces, set_nm_settings, set_wifi_backend,
    set_wifi_debug_mode, set_wifi_power_management_state, setup_iwd_config, start_tracing,
    stop_tracing, NmSettingWirelessPowersave, NmWifiSettings, WifiBackend, WifiDebugMode,
    WifiPowerManagement,
};

fn texts(texts: &[&str]) -> Vec<String> {
    texts.iter().map(|t| t.to_string()).collect()
}

fn settings(backend: WifiBackend, powersave: NmSettingWirelessPowersave) -> NmWifiSettings {
    NmWifiSettings { backend, powersave }
}

#[test]
fn test_wifi_backend_to_string() {
    assert_eq!(WifiBackend::Iwd.to_string(), "iwd");
    assert_eq!(WifiBackend::WPASupplicant.to_string(), "wpa_supplicant");
}

#[test]
fn test_setup_iwd_config() {
    assert_eq!(
        setup_iwd_config(false),
        OverrideAction::Remove {
            path: OVERRIDE_PATH.to_string()
        }
    );
    assert_eq!(
        setup_iwd_config(true),
        OverrideAction::Write {
            folder: OVERRIDE_FOLDER.to_string(),
            path: OVERRIDE_PATH.to_string(),
            contents: OVERRIDE_CONTENTS.to_string(),
        }
    );
    assert!(OVERRIDE_PATH.starts_with(OVERRIDE_FOLDER));
}

#[test]
fn test_get_nm_settings() {
    assert!(get_nm_settings(&vec![]).is_err());
    assert!(get_nm_settings(&texts(&["[device]"])).is_err());
    assert_eq!(
        get_nm_settings(&texts(&["[device]\nwifi.backend=iwd\n"])).unwrap(),
        settings(WifiBackend::Iwd, NmSettingWirelessPowersave::default())
    );
    assert!(get_nm_settings(&texts(&["[connection]\nwifi.powersave=2\n"])).is_err());
    assert_eq!(
        get_nm_settings(&texts(&[
            "[device]\nwifi.backend=iwd\n[connection]\nwifi.powersave=2\n"
        ]))
        .unwrap(),
        settings(
            WifiBackend::Iwd,
            NmSettingWirelessPowersave::try_from(2).unwrap()
        )
    );
}

#[test]
fn later_settings_go_before_earlier_ones() {
    assert_eq!(
        get_nm_settings(&texts(&[
            "[device]\nwifi.backend=iwd\n",
            "[connection]\nwifi.powersave=3\n",
            "[device]\nwifi.backend=wpa_supplicant\n",
        ]))
        .unwrap(),
        settings(
            WifiBackend::WPASupplicant,
            NmSettingWirelessPowersave::Enable
        )
    );
}

#[test]
fn plain_sections_are_read() {
    assert_eq!(
        get_nm_settings(&texts(&[
            "[main]\nplugins=keyfile\ndhcp=internal\n[device]\nwifi.backend=iwd\n",
            "",
            "[connection]\nipv6.privacy=2\nwifi.powersave=off\n[device]\n",
        ])),
        Ok(settings(
            WifiBackend::Iwd,
            NmSettingWirelessPowersave::try_from(0).unwrap()
        ))
    );
    assert_eq!(
        get_nm_settings(&texts(&[
            "[device]\nwifi.backend=iwd\n[connection]\nwifi.powersave=yes\n"
        ])),
        Ok(settings(
            WifiBackend::Iwd,
            NmSettingWirelessPowersave::try_from(1).unwrap()
        ))
    );
    assert_eq!(
        get_nm_settings(&texts(&[
            "[device]\nwifi.backend=iwd\n[connection]\nwifi.powersave=some\n"
        ])),
        Err(NmError::BadPowersave)
    );
}

#[test]
fn nm_errors() {
    assert_eq!(get_nm_settings(&vec![]), Err(NmError::NoBackend));
    assert_eq!(
        get_nm_settings(&texts(&["[device\n"])),
        Err(NmError::BadConfig)
    );
    assert_eq!(
        get_nm_settings(&texts(&["[device]\nwifi.backend=fake\n"])),
        Err(NmError::BadBackend)
    );
    assert_eq!(
        get_nm_settings(&texts(&[
            "[device]\nwifi.backend=iwd\n[connection]\nwifi.powersave=9\n"
        ])),
        Err(NmError::BadPowersave)
    );
    assert_eq!(
        read_nm_settings(Entry::Missing, Entry::Missing),
        Err(NmError::NoBackend)
    );
    assert_eq!(
        read_nm_settings(Entry::Value("iwd".to_string()), Entry::Value(1)),
        Ok(settings(
            WifiBackend::Iwd,
            NmSettingWirelessPowersave::Ignore
        ))
    );
    assert_eq!(
        read_nm_settings(Entry::Bad, Entry::Missing),
        Err(NmError::BadBackend)
    );
}

#[test]
fn huge_keys() {
    let huge = isize::MAX / 2;
    let most = isize::MAX / 256;
    assert!(holds_huge_key(&format!("a[ -{huge} ]=1")));
    assert!(holds_huge_key(&format!("a.b[0].c[0{huge}].d[-1]=1")));
    // the longest list that is not huge, and the ones behind it
    assert!(!holds_huge_key(&format!("a[{}]=1", most - 1)));
    assert!(holds_huge_key(&format!("a[{most}]=1")));
    assert!(!holds_huge_key(&format!("a[-{most}]=1")));
    assert!(holds_huge_key(&format!("a[-{}]=1", most + 1)));
    // the largest subscripts, and texts that are none
    assert!(holds_huge_key(&format!("a[{}]=1", isize::MAX)));
    assert!(holds_huge_key(&format!("a[{}]=1", isize::MIN)));
    assert!(!holds_huge_key(&format!("a[{}0]=1", isize::MAX)));
    assert!(!holds_huge_key(&format!("a[{}]=1", isize::MAX as usize + 1)));
    assert!(!holds_huge_key(&format!("a b[{huge}]=1")));
    assert!(!holds_huge_key(&format!("a[{huge}=1")));
    assert!(!holds_huge_key(&format!("a.[{huge}]=1")));
    assert!(!holds_huge_key(&format!("a[{huge}]b=1")));
    // escapes
    let escaped: String = huge.to_string().chars().map(|c| format!("\\x003{c}")).collect();
    assert!(holds_huge_key(&format!("a[{escaped}]=1")));
    assert!(holds_huge_key(&format!("a\\x005b{huge}]=1")));
    assert!(holds_huge_key("a[\\9\\9\\9\\9\\9\\9\\9\\9\\9\\9\\9\\9\\9\\9\\9\\9\\9\\9]=1"));
    assert!(holds_huge_key("a[999999999\\\n999999999]=1"));
    assert!(holds_huge_key(&format!("[a[{huge}\\]]\n")));
    assert!(holds_huge_key(&format!("a{}=1", ".a".repeat(1001))));
    assert!(!holds_huge_key(&format!("a{}=1", ".a".repeat(1000))));
    assert!(!holds_huge_key("[device]\nwifi.backend=iwd\n"));
    assert!(!holds_huge_key(&format!(
        "[device]\na[{huge}]=b[{huge}]\n# c[{huge}]\n"
    )));
    assert!(!holds_huge_key("[device"));

    let bad = format!("a[{huge}]=1\n[device]\nwifi.backend=iwd\n");
    assert_eq!(check_nm_settings(&texts(&[&bad])), None);
    assert_eq!(
        check_nm_settings(&texts(&["a[12345]=1\n[device]\nwifi.backend=iwd\n"])),
        Some(Ok(settings(
            WifiBackend::Iwd,
            NmSettingWirelessPowersave::Enable
        )))
    );
    assert_eq!(
        check_nm_settings(&texts(&["[device\n"])),
        Some(Err(NmError::BadConfig))
    );
    assert_eq!(
        check_nm_settings(&texts(&["[device]"])),
        Some(Err(NmError::NoBackend))
    );
    assert_eq!(check_nm_settings(&vec![]), Some(Err(NmError::NoBackend)));
}

#[test]
fn deep_keys_are_read() {
    let deep = format!(
        "a{}=1\n[device]\nwifi.backend=iwd\n",
        ".a".repeat(1000)
    );
    assert_eq!(
        check_nm_settings(&texts(&[&deep])),
        Some(Ok(settings(
            WifiBackend::Iwd,
            NmSettingWirelessPowersave::Enable
        )))
    );
}

#[test]
fn ordinary_lines_are_read() {
    assert_eq!(
        get_nm_settings(&texts(&[
            "# A comment = [x]\n; Another\n\n[Main]\nNo-Auto = a, b; #c [d]: \n\n[device]\n\
             wifi.backend\t=  wpa_supplicant\nempty=\n\n[connection]\nwifi.powersave = 3\n\
             wifi.powersave=2",
        ])),
        Ok(settings(
            WifiBackend::WPASupplicant,
            NmSettingWirelessPowersave::Disable
        ))
    );
    assert_eq!(
        get_nm_settings(&texts(&[
            "[device]\nwifi.backend=iwd\n[connection]\nwifi.powersave=True"
        ])),
        Ok(settings(
            WifiBackend::Iwd,
            NmSettingWirelessPowersave::try_from(1).unwrap()
        ))
    );
}

#[test]
fn wifi_messages() {
    assert_eq!(
        NmError::NoBackend.message().unwrap(),
        "Wi-Fi backend not found in config"
    );
    assert_eq!(NmError::BadConfig.message(), None);
    assert_eq!(
        DebugModeError::Backend(WifiBackend::WPASupplicant)
            .message()
            .unwrap(),
        "Setting Wi-Fi debug mode not supported with backend wpa_supplicant"
    );
    assert_eq!(
        DebugModeError::Settings(NmError::NoBackend).message(),
        NmError::NoBackend.message()
    );
    assert_eq!(
        DebugModeError::BufferTooSmall.message().unwrap(),
        "Buffer size too small"
    );
    assert_eq!(
        add_interface_arguments(),
        texts(&["phy", "phy0", "interface", "add", "wlan0", "type", "station"])
    );
}

fn written(steps: &[NmStep]) -> String {
    match &steps[0] {
        NmStep::Write(contents) => contents.clone(),
        _ => panic!("nothing is written"),
    }
}

#[test]
fn test_set_nm_settings_no_restart() {
    let wanted = settings(
        WifiBackend::WPASupplicant,
        NmSettingWirelessPowersave::Disable,
    );
    let steps = set_nm_settings(wanted, false);
    assert_eq!(
        written(&steps),
        "[connection]\nwifi.powersave=2\n[device]\nwifi.backend=wpa_supplicant\n"
    );
    assert_eq!(
        steps[1..],
        [NmStep::ReloadAndWait(
            "NetworkManager.service",
            JobMode::Fail
        )]
    );
    assert_eq!(get_nm_settings(&vec![written(&steps)]).unwrap(), wanted);
}

#[test]
fn test_set_nm_settings_restart() {
    let wanted = settings(
        WifiBackend::WPASupplicant,
        NmSettingWirelessPowersave::Disable,
    );
    let steps = set_nm_settings(wanted, true);
    assert_eq!(
        written(&steps),
        "[connection]\nwifi.powersave=2\n[device]\nwifi.backend=wpa_supplicant\n"
    );
    assert_eq!(get_nm_settings(&vec![written(&steps)]).unwrap(), wanted);
    assert_eq!(
        steps[1..],
        [
            NmStep::StopAndWait("NetworkManager.service", JobMode::Fail),
            NmStep::Disable("iwd.service"),
            NmStep::StopAndWait("iwd.service", JobMode::Fail),
            NmStep::EnsureInterface,
            NmStep::Start("NetworkManager.service", JobMode::Fail),
        ]
    );
}

#[test]
fn settings_read_back() {
    for backend in [WifiBackend::Iwd, WifiBackend::WPASupplicant] {
        for n in 0..4 {
            let powersave = NmSettingWirelessPowersave::try_from(n).unwrap();
            let wanted = settings(backend, powersave);
            let steps = set_nm_settings(wanted, false);
            let other = "[device]\nwifi.backend=iwd\n".to_string();
            assert_eq!(
                get_nm_settings(&vec![other, written(&steps)]).unwrap(),
                wanted
            );
        }
    }
}

#[test]
fn test_get_wifi_backend() {
    let backend = |contents: &str| get_wifi_backend(get_nm_settings(&texts(&[contents])));
    assert!(get_wifi_backend(get_nm_settings(&vec![])).is_err());
    assert!(backend("[device]").is_err());
    assert!(backend("[device]\nwifi.backend=fake\n").is_err());
    assert_eq!(
        backend("[device]\nwifi.backend=iwd\n").unwrap(),
        WifiBackend::Iwd
    );
    assert_eq!(
        backend("[device]\nwifi.backend=wpa_supplicant\n").unwrap(),
        WifiBackend::WPASupplicant
    );
}

#[test]
fn backend_keeps_powersave() {
    let before = settings(WifiBackend::Iwd, NmSettingWirelessPowersave::Enable);
    let steps = set_wifi_backend(Ok(before), WifiBackend::WPASupplicant).unwrap();
    assert_eq!(
        written(&steps),
        "[connection]\nwifi.powersave=3\n[device]\nwifi.backend=wpa_supplicant\n"
    );
    assert_eq!(
        set_wifi_backend(Err(NmError::NoBackend), WifiBackend::Iwd),
        Err(NmError::NoBackend)
    );
}

#[test]
fn powersave_keeps_backend() {
    let before = settings(WifiBackend::Iwd, NmSettingWirelessPowersave::Standard);
    let steps = keep_wifi_power_management_state(Ok(before), WifiPowerManagement::Disabled);
    assert_eq!(
        written(&steps.unwrap()),
        "[connection]\nwifi.powersave=2\n[device]\nwifi.backend=iwd\n"
    );
    assert_eq!(
        keep_wifi_power_management_state(Err(NmError::BadConfig), WifiPowerManagement::Enabled),
        Err(NmError::BadConfig)
    );
}

#[test]
fn test_power_management_enabled() {
    assert_eq!(list_wifi_interfaces("Interface eth0"), vec!["eth0"]);
    assert_eq!(
        get_wifi_power_management_state(&texts(&["Power save: on"])).unwrap(),
        WifiPowerManagement::Enabled
    );
}

#[test]
fn test_power_management_disabled() {
    assert_eq!(
        get_wifi_power_management_state(&texts(&["Power save: off"])).unwrap(),
        WifiPowerManagement::Disabled
    );
}

#[test]
fn test_power_management_multi_iface() {
    assert_eq!(
        list_wifi_interfaces("Interface eth0\nInterface eth1"),
        vec!["eth0", "eth1"]
    );
    assert_eq!(
        get_wifi_power_management_state(&texts(&["Power save: off", "Power save: on"])).unwrap(),
        WifiPowerManagement::Enabled
    );
}

#[test]
fn power_management_edges() {
    assert_eq!(get_wifi_power_management_state(&vec![]), Err(NoInterfaces));
    assert_eq!(
        list_wifi_interfaces("phy#0\n\tInterface wlan0\n\t\tifindex 3\n"),
        vec!["wlan0"]
    );
    assert_eq!(
        set_wifi_power_management_state(&texts(&["wlan0"]), WifiPowerManagement::Disabled),
        vec![texts(&["dev", "wlan0", "set", "power_save", "off"])]
    );
}

#[test]
fn interface_is_added_once() {
    let (state, action) = ensure_default_interface(InterfaceState::Starting, &vec![]);
    assert_eq!(action, InterfaceAction::Add);
    let mut state = state;
    for _ in 0..9 {
        let (next, action) = ensure_default_interface(state, &vec![]);
        assert_eq!(action, InterfaceAction::WaitAndList);
        state = next;
    }
    assert_eq!(
        ensure_default_interface(state, &texts(&["wlan0"])).1,
        InterfaceAction::Finish
    );
    assert_eq!(
        ensure_default_interface(state, &vec![]).1,
        InterfaceAction::WaitAndFail
    );
}

#[test]
fn wifi_debug_mode_roundtrip() {
    for (n, text, mode) in [
        (0u32, "off", WifiDebugMode::Off),
        (1, "tracing", WifiDebugMode::Tracing),
    ] {
        assert_eq!(WifiDebugMode::try_from(n).unwrap(), mode);
        assert_eq!(mode.to_u32(), n);
        assert_eq!(WifiDebugMode::from_str(text).unwrap(), mode);
        assert_eq!(mode.to_string(), text);
    }
    assert!(WifiDebugMode::try_from(2).is_err());
    assert!(WifiDebugMode::from_str("onf").is_err());
}

#[test]
fn wifi_power_management_roundtrip() {
    for (n, text, state) in [
        (0u32, "disabled", WifiPowerManagement::Disabled),
        (1, "enabled", WifiPowerManagement::Enabled),
    ] {
        assert_eq!(WifiPowerManagement::try_from(n).unwrap(), state);
        assert_eq!(state.to_u32(), n);
        assert_eq!(WifiPowerManagement::from_str(text).unwrap(), state);
        assert_eq!(state.to_string(), text);
    }
    for text in ["on", "enable", "enabled", "1"] {
        assert_eq!(
            WifiPowerManagement::from_str(text).unwrap(),
            WifiPowerManagement::Enabled
        );
    }
    for text in ["off", "disable", "disabled", "0"] {
        assert_eq!(
            WifiPowerManagement::from_str(text).unwrap(),
            WifiPowerManagement::Disabled
        );
    }
    assert!(WifiPowerManagement::try_from(2).is_err());
    assert!(WifiPowerManagement::from_str("onf").is_err());
}

#[test]
fn wifi_backend_roundtrip() {
    for (n, text, backend) in [
        (0u32, "iwd", WifiBackend::Iwd),
        (1, "wpa_supplicant", WifiBackend::WPASupplicant),
    ] {
        assert_eq!(WifiBackend::try_from(n).unwrap(), backend);
        assert_eq!(backend.to_u32(), n);
        assert_eq!(WifiBackend::from_str(text).unwrap(), backend);
        assert_eq!(backend.to_string(), text);
    }
    assert!(WifiBackend::try_from(2).is_err());
    assert!(WifiBackend::from_str("iwl").is_err());
}

#[test]
fn trace_extract() {
    assert_eq!(
        extract_wifi_trace("/tmp/wifi-trace"),
        texts(&["extract", "-o", "/tmp/wifi-trace"])
    );
    assert_eq!(TRACE_CMD_PATH, "/usr/bin/trace-cmd");
}

#[test]
fn tracing_arguments() {
    assert_eq!(
        start_tracing(2000),
        texts(&["start", "-e", "ath11k_wmi_diag", "-b", "2000"])
    );
    assert_eq!(stop_tracing(), texts(&["stop"]));
}

#[test]
fn debug_modes() {
    assert_eq!(
        set_wifi_debug_mode(Ok(WifiBackend::Iwd), WifiDebugMode::Tracing, 2000, true),
        Ok(vec![
            DebugStep::SetupIwdConfig(true),
            DebugStep::RestartIwd(JobMode::Fail),
            DebugStep::StartTracing(2000),
        ])
    );
    assert_eq!(
        set_wifi_debug_mode(Ok(WifiBackend::Iwd), WifiDebugMode::Off, 0, true),
        Ok(vec![
            DebugStep::StopTracing,
            DebugStep::SetupIwdConfig(false),
            DebugStep::RestartIwd(JobMode::Fail),
        ])
    );
    assert_eq!(
        set_wifi_debug_mode(Ok(WifiBackend::Iwd), WifiDebugMode::Tracing, 100, false),
        Err(DebugModeError::BufferTooSmall)
    );
    assert_eq!(
        set_wifi_debug_mode(
            Ok(WifiBackend::WPASupplicant),
            WifiDebugMode::Off,
            0,
            false
        ),
        Err(DebugModeError::Backend(WifiBackend::WPASupplicant))
    );
    assert_eq!(
        set_wifi_debug_mode(Err(NmError::NoBackend), WifiDebugMode::Off, 0, false),
        Err(DebugModeError::Settings(NmError::NoBackend))
    );
}

#[test]
fn firmware_dumps() {
    assert!(is_wifi_crash(true, &Some("ath11k_pci".to_string())));
    assert!(!is_wifi_crash(false, &Some("ath11k_pci".to_string())));
    assert!(!is_wifi_crash(true, &Some("amdgpu".to_string())));
    assert!(!is_wifi_crash(true, &None));
    assert_eq!(generate_wifi_dump(OpenOutcome::Opened), Ok(true));
    assert_eq!(generate_wifi_dump(OpenOutcome::NotFound), Ok(false));
    assert_eq!(
        generate_wifi_dump(OpenOutcome::PermissionDenied),
        Err(NoHelperBlock)
    );
}
