use steamos_manager::cec::{
    cec_hw_controller, CecAction, CecHwError, CecObject, CecStatus, CecUnit, CecdConfigFragment,
    CecdEvent, CecdReaction, CecdService, CecdServiceError, CecdSystemConfig, CrosEcHwController,
    HdmiCecBackend, HdmiCecControl, HdmiCecHardware, HdmiCecState,
};
use steamos_manager::systemd::{EnableState, JobMode};

const DEVICE: &str = "/com/steampowered/CecDaemon1/Devices/Cec0";
const DEVICE_INTERFACE: &str = "com.steampowered.CecDaemon1.CecDevice1";

fn object(path: &str, interfaces: &[&str]) -> CecObject {
    CecObject {
        path: path.to_string(),
        interfaces: interfaces.iter().map(|i| i.to_string()).collect(),
    }
}

fn daemon_object() -> CecObject {
    object(
        "/com/steampowered/CecDaemon1/Daemon",
        &["com.steampowered.CecDaemon1.Config1"],
    )
}

#[test]
fn hdmi_cec_state_roundtrip() {
    let numbers = [
        (0u32, HdmiCecState::Disabled),
        (1, HdmiCecState::ControlOnly),
        (2, HdmiCecState::ControlAndWake),
    ];
    for (n, state) in numbers {
        assert_eq!(HdmiCecState::try_from(n).unwrap(), state);
        assert_eq!(state.to_u32(), n);
    }
    let texts = [
        ("Disabled", HdmiCecState::Disabled),
        ("ControlOnly", HdmiCecState::ControlOnly),
        ("ControlAndWake", HdmiCecState::ControlAndWake),
    ];
    for (text, state) in texts {
        assert_eq!(HdmiCecState::from_str(text).unwrap(), state);
        assert_eq!(state.to_string(), text);
    }
    assert_eq!(
        HdmiCecState::from_str("control-only").unwrap(),
        HdmiCecState::ControlOnly
    );
    assert_eq!(
        HdmiCecState::from_str("control-and-wake").unwrap(),
        HdmiCecState::ControlAndWake
    );
    assert_eq!(HdmiCecState::Disabled.to_human_readable(), "disabled");
    assert_eq!(HdmiCecState::ControlOnly.to_human_readable(), "control-only");
    assert_eq!(
        HdmiCecState::ControlAndWake.to_human_readable(),
        "control-and-wake"
    );
    assert!(HdmiCecState::try_from(3).is_err());
    assert!(HdmiCecState::from_str("working").is_err());
}

#[test]
fn hdmi_cec_state_other_spellings() {
    for text in ["disable", "OFF", "Disabled"] {
        assert_eq!(HdmiCecState::from_str(text).unwrap(), HdmiCecState::Disabled);
    }
    assert_eq!(
        HdmiCecState::from_str("CONTROL-AND-WAKE").unwrap(),
        HdmiCecState::ControlAndWake
    );
    assert_eq!(HdmiCecState::from_str("WORKING").unwrap_err().value, "working");
    // the long s is not a letter of the words
    assert_eq!(
        HdmiCecState::from_str("DI\u{17f}ABLED").unwrap_err().value,
        "di\u{17f}abled"
    );
    assert_eq!(
        HdmiCecState::from_str("\u{c9}TAT").unwrap_err().value,
        "\u{e9}tat"
    );
}

#[test]
fn test_system_config_none() {
    assert_eq!(
        HdmiCecControl::configure_cecd(None, None),
        CecdSystemConfig::Remove
    );
}

#[test]
fn test_system_config_steam_deck() {
    let config =
        HdmiCecControl::configure_cecd(Some("Steam Deck".to_string()), Some((0xe0, 0x31, 0x9e)));
    match config {
        CecdSystemConfig::Write {
            osd_name,
            vendor_id,
        } => {
            assert_eq!(osd_name.unwrap(), "Steam Deck");
            let (a, b, c) = vendor_id.unwrap();
            assert_eq!(format!("{:02x}-{:02x}-{:02x}", a, b, c), "e0-31-9e");
        }
        CecdSystemConfig::Remove => panic!("no fragment"),
    }
}

#[test]
fn system_config_needs_one_value() {
    assert_eq!(
        HdmiCecControl::configure_cecd(None, Some((1, 2, 3))),
        CecdSystemConfig::Write {
            osd_name: None,
            vendor_id: Some((1, 2, 3))
        }
    );
}

#[test]
fn test_cros_get_awaken() {
    let cros_ec = CrosEcHwController { port: 0 };
    assert!(cros_ec.get_awaken("0 1\n").unwrap());
    assert!(!cros_ec.get_awaken("0 0\n").unwrap());
}

#[test]
fn test_cros_get_awaken_no_port() {
    let cros_ec = CrosEcHwController { port: 1 };
    assert!(cros_ec.get_awaken("0 1\n").is_err());
}

#[test]
fn test_cros_set_awaken() {
    let cros_ec = CrosEcHwController { port: 0 };
    assert_eq!(cros_ec.set_awaken(true), "0 1\n");
    assert_eq!(cros_ec.set_awaken(false), "0 0\n");
}

#[test]
fn test_cros_get_phys_addr() {
    let cros_ec = CrosEcHwController { port: 0 };
    assert_eq!(cros_ec.get_phys_addr("0 4660\n").unwrap(), 0x1234);
}

#[test]
fn test_cros_get_phys_addr_no_port() {
    let cros_ec = CrosEcHwController { port: 1 };
    assert!(cros_ec.get_phys_addr("0 4660\n").is_err());
}

#[test]
fn test_cros_set_phys_addr() {
    let cros_ec = CrosEcHwController { port: 0 };
    assert_eq!(cros_ec.set_phys_addr(0x1234), "0 4660\n");
}

#[test]
fn cros_reads_back_what_it_wrote() {
    for port in [0u8, 7, 255] {
        let cros_ec = CrosEcHwController { port };
        for awaken in [false, true] {
            assert_eq!(cros_ec.get_awaken(&cros_ec.set_awaken(awaken)), Ok(awaken));
        }
        for address in [0u16, 0x1234, 0xffff] {
            assert_eq!(
                cros_ec.get_phys_addr(&cros_ec.set_phys_addr(address)),
                Ok(address)
            );
        }
    }
}

#[test]
fn cros_errors() {
    let cros_ec = CrosEcHwController { port: 2 };
    assert_eq!(
        cros_ec.get_phys_addr("0 1\n1 2\n"),
        Err(CecHwError::PortNotFound)
    );
    assert_eq!(
        cros_ec.get_phys_addr("2 65536\n"),
        Err(CecHwError::BadAddress)
    );
    assert!(cros_ec.can_awaken("0 1\n2 0\n"));
    assert!(!cros_ec.can_awaken("20 0\n"));
}

#[test]
fn cros_controller_selection() {
    assert_eq!(
        cec_hw_controller(None, "0 1\n").err(),
        Some(CecHwError::NotConfigured)
    );
    assert_eq!(
        cec_hw_controller(Some(HdmiCecHardware::CrosEc { port: 1 }), "0 1\n").err(),
        Some(CecHwError::NotSupported)
    );
    assert_eq!(
        cec_hw_controller(Some(HdmiCecHardware::CrosEc { port: 0 }), "0 1\n")
            .unwrap()
            .port,
        0
    );
    assert_eq!(HdmiCecHardware::CrosEc { port: 0 }.to_string(), "cros_ec");
}

#[test]
fn legacy_states() {
    let control = HdmiCecControl::new(false);
    assert_eq!(control.backend, HdmiCecBackend::Legacy);
    let mode = JobMode::Fail;
    assert_eq!(
        control.set_enabled_state(HdmiCecState::Disabled),
        vec![
            CecAction::Mask(CecUnit::PlasmaRc),
            CecAction::Stop(CecUnit::PlasmaRc, mode),
            CecAction::Mask(CecUnit::Wakehook),
            CecAction::Stop(CecUnit::Wakehook, mode),
            CecAction::DaemonReload,
        ]
    );
    assert_eq!(
        HdmiCecControl::get_enabled_state(CecStatus::Legacy {
            plasma_rc: EnableState::Masked,
            wakehook: None
        }),
        Some(HdmiCecState::Disabled)
    );
    assert_eq!(
        HdmiCecControl::get_enabled_state(CecStatus::Legacy {
            plasma_rc: EnableState::Enabled,
            wakehook: Some(EnableState::Static)
        }),
        Some(HdmiCecState::ControlAndWake)
    );
    assert_eq!(CecUnit::PlasmaRc.name(), "plasma-remotecontrollers.service");
    assert_eq!(CecUnit::Wakehook.name(), "wakehook.service");
}

#[test]
fn cecd_states() {
    let control = HdmiCecControl::new(true);
    assert_eq!(control.backend, HdmiCecBackend::Cecd);
    for (state, wake_tv, uinput) in [
        (HdmiCecState::Disabled, false, false),
        (HdmiCecState::ControlOnly, false, true),
        (HdmiCecState::ControlAndWake, true, true),
    ] {
        assert_eq!(
            control.set_enabled_state(state),
            vec![
                CecAction::WriteConfig(CecdConfigFragment { wake_tv, uinput }),
                CecAction::ReloadCecd
            ]
        );
        assert_eq!(
            HdmiCecControl::get_enabled_state(CecStatus::Cecd { wake_tv, uinput }),
            Some(state)
        );
    }
}

#[test]
fn test_cecd_service_no_hw() {
    let control = HdmiCecControl::new(true);
    let service = CecdService::new(false, &control, &vec![daemon_object()]);
    assert_eq!(service.err(), Some(CecdServiceError::NoHardware));
}

#[test]
fn cecd_service_needs_the_daemon() {
    let control = HdmiCecControl::new(false);
    let service = CecdService::new(true, &control, &vec![object(DEVICE, &[DEVICE_INTERFACE])]);
    assert_eq!(service.err(), Some(CecdServiceError::NotCecd));
}

#[test]
fn test_cecd_service_no_device() {
    let control = HdmiCecControl::new(true);
    let service = CecdService::new(true, &control, &vec![daemon_object()]);
    assert_eq!(service.err(), Some(CecdServiceError::NoDevice));
}

#[test]
fn test_cecd_service_device() {
    let control = HdmiCecControl::new(true);
    let objects = vec![daemon_object(), object(DEVICE, &[DEVICE_INTERFACE])];
    let service = CecdService::new(true, &control, &objects);
    assert_eq!(service.unwrap().device, DEVICE);
}

#[test]
fn test_cecd_service_reconfigure() {
    let control = HdmiCecControl::new(true);
    let objects = vec![daemon_object(), object(DEVICE, &[DEVICE_INTERFACE])];
    let service = CecdService::new(true, &control, &objects).unwrap();
    assert_eq!(
        service.run(CecdEvent::Address(0x1234)),
        CecdReaction::SetPhysAddr(0x1234)
    );
    assert_eq!(service.run(CecdEvent::Ended), CecdReaction::Finish);
}

#[test]
fn cec_messages() {
    assert_eq!(
        CecHwError::NotConfigured.message().unwrap(),
        "HDMI CEC hardware not configured"
    );
    assert_eq!(
        CecHwError::NotSupported.message().unwrap(),
        "HDMI CEC hardware not supported"
    );
    assert_eq!(
        CecHwError::PortNotFound.message().unwrap(),
        "Port not found"
    );
    assert_eq!(CecHwError::BadAddress.message(), None);
    assert_eq!(
        CecdServiceError::NoHardware.message(),
        "No supported cec hardware backend found"
    );
    assert_eq!(CecdServiceError::NotCecd.message(), "Not using cecd");
    assert_eq!(CecdServiceError::NoDevice.message(), "No CEC device found");
}
