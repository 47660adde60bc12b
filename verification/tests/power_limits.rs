use steamos_manager::hardware::{
    AcpiCallAlibConfig, FanControlState, FanSpeedConfig, FirmwareAttributeConfig, RangeConfig,
    TdpLimitConfig,
};
use steamos_manager::power::download::{
    Handles, ServiceAction, ServiceInput, UpdateProgress, UpdateReply, UpdateRequest,
};
use steamos_manager::power::tdp::{
    append_alib_param, build_acpi_call_alib_payload, build_acpi_call_command,
    configured_tdp_limit_range, get_acpi_call_alib_tdp_limit, get_amdgpu_tdp_limit,
    get_firmware_tdp_limit, get_firmware_tdp_limit_range, is_active_acpi_call, is_active_profile,
    is_active_remote, require_remote_manager, set_acpi_call_alib_tdp_limit, set_amdgpu_tdp_limit,
    set_firmware_tdp_limit, OpenOutcome, TdpError,
};
use steamos_manager::power::{
    tdp_limit_manager, TdpLimitManager, TdpLimitingMethod, TdpManagerCommand, TdpManagerService,
};

fn config(method: TdpLimitingMethod, min: u32, max: u32) -> TdpLimitConfig {
    TdpLimitConfig {
        method,
        range: Some(RangeConfig { min, max }),
        download_mode_limit: None,
        performance_profile: None,
        firmware_attribute: None,
        acpi_call_alib: None,
    }
}

fn hwmon_config(download_mode_limit: Option<u32>) -> Option<TdpLimitConfig> {
    Some(TdpLimitConfig {
        download_mode_limit,
        ..config(TdpLimitingMethod::AmdgpuHwmon, 3, 15)
    })
}

#[test]
fn test_gpu_hwmon_get_tdp_limit() {
    let manager = tdp_limit_manager(&hwmon_config(None)).unwrap();
    assert!(matches!(
        manager,
        TdpLimitManager::AmdgpuHwmon {
            performance_profile: None
        }
    ));
    assert!(get_amdgpu_tdp_limit(true, "").is_err());
    assert_eq!(get_amdgpu_tdp_limit(true, "15000000\n").unwrap(), 15);
}

#[test]
fn test_gpu_hwmon_set_tdp_limit() {
    let config = hwmon_config(None);
    let low = set_amdgpu_tdp_limit(true, &config, 2).unwrap_err();
    assert_eq!(low.message().unwrap(), "Invalid limit");
    let high = set_amdgpu_tdp_limit(true, &config, 20).unwrap_err();
    assert_eq!(high.message().unwrap(), "Invalid limit");
    assert_eq!(set_amdgpu_tdp_limit(true, &config, 10).unwrap(), "10000000");
    assert_eq!(set_amdgpu_tdp_limit(true, &config, 15).unwrap(), "15000000");
}

#[test]
fn hwmon_limit_reads_back() {
    let config = hwmon_config(None);
    for limit in 3..=15 {
        let data = set_amdgpu_tdp_limit(true, &config, limit).unwrap();
        assert_eq!(get_amdgpu_tdp_limit(true, &data), Ok(limit));
    }
}

#[test]
fn hwmon_limit_errors() {
    assert_eq!(
        set_amdgpu_tdp_limit(false, &hwmon_config(None), 10),
        Err(TdpError::NotActive)
    );
    assert_eq!(get_amdgpu_tdp_limit(false, "1"), Err(TdpError::NotActive));
    assert_eq!(get_amdgpu_tdp_limit(true, "x"), Err(TdpError::BadNumber));
    assert_eq!(
        set_amdgpu_tdp_limit(true, &None, 10),
        Err(TdpError::NotConfigured)
    );
    let without_range = Some(TdpLimitConfig {
        range: None,
        ..config(TdpLimitingMethod::AmdgpuHwmon, 3, 15)
    });
    assert_eq!(
        configured_tdp_limit_range(&without_range),
        Err(TdpError::NoRange)
    );
    assert_eq!(
        configured_tdp_limit_range(&hwmon_config(None)),
        Ok(RangeConfig { min: 3, max: 15 })
    );
}

fn firmware_config(performance_profile: Option<&str>) -> TdpLimitConfig {
    TdpLimitConfig {
        firmware_attribute: Some(FirmwareAttributeConfig {
            attribute: "tdp0".to_string(),
            performance_profile: performance_profile.map(|p| p.to_string()),
        }),
        ..config(TdpLimitingMethod::FirmwareAttribute, 3, 15)
    }
}

fn firmware_limits(active: bool, limit: u32) -> Result<(String, String, String), TdpError> {
    set_firmware_tdp_limit(
        active,
        "6\n",
        "20\n",
        &Some("8\n".to_string()),
        &Some("9\n".to_string()),
        limit,
    )
    .map(|w| (w.spl, w.sppt, w.fppt))
}

fn triple(spl: &str, sppt: &str, fppt: &str) -> Result<(String, String, String), TdpError> {
    Ok((spl.to_string(), sppt.to_string(), fppt.to_string()))
}

#[test]
fn test_firmware_attribute_tdp_limiter() {
    let manager = tdp_limit_manager(&Some(firmware_config(Some("custom")))).unwrap();
    let needed = match manager {
        TdpLimitManager::FirmwareAttribute {
            attribute,
            performance_profile,
        } => {
            assert_eq!(attribute, "tdp0");
            performance_profile
        }
        _ => panic!("another manager"),
    };
    let active = is_active_profile(&needed, &Some("custom".to_string()));
    assert!(active);
    assert_eq!(get_firmware_tdp_limit(active, "10\n").unwrap(), 10);

    assert_eq!(firmware_limits(active, 15), triple("15", "15", "15"));
    assert_eq!(get_firmware_tdp_limit(active, "15").unwrap(), 15);
    assert!(firmware_limits(active, 25).is_err());
    assert_eq!(firmware_limits(active, 7), triple("7", "8", "9"));
    assert_eq!(get_firmware_tdp_limit(active, "7").unwrap(), 7);
    assert!(firmware_limits(active, 2).is_err());

    let active = is_active_profile(&needed, &Some("balanced".to_string()));
    assert!(!active);
    assert_eq!(firmware_limits(active, 10), Err(TdpError::NotActive));
}

#[test]
fn test_firmware_attribute_tdp_limiter_no_profile() {
    let manager = tdp_limit_manager(&Some(firmware_config(None))).unwrap();
    let needed = match manager {
        TdpLimitManager::FirmwareAttribute {
            performance_profile,
            ..
        } => performance_profile,
        _ => panic!("another manager"),
    };
    let active = is_active_profile(&needed, &None);
    assert!(active);
    assert_eq!(get_firmware_tdp_limit(active, "10\n").unwrap(), 10);
    assert_eq!(firmware_limits(active, 15), triple("15", "15", "15"));
    assert_eq!(firmware_limits(active, 25), Err(TdpError::InvalidLimit));
    assert_eq!(firmware_limits(active, 7), triple("7", "8", "9"));
    assert_eq!(firmware_limits(active, 2), Err(TdpError::InvalidLimit));
}

#[test]
fn firmware_edges() {
    // without a readable lower bound the limit is written as it is
    let limits = set_firmware_tdp_limit(true, "6", "20", &None, &Some("x".to_string()), 7).unwrap();
    assert_eq!(limits.sppt, "7");
    assert_eq!(limits.fppt, "7");
    assert_eq!(
        get_firmware_tdp_limit_range("6\n", "20\n"),
        Ok(RangeConfig { min: 6, max: 20 })
    );
    assert_eq!(
        get_firmware_tdp_limit_range("", "20\n"),
        Err(TdpError::BadNumber)
    );
    let missing = Some(config(TdpLimitingMethod::FirmwareAttribute, 3, 15));
    assert_eq!(
        tdp_limit_manager(&missing).err(),
        Some(TdpError::FirmwareAttributeMissing)
    );
}

fn gpd_acpi_call_alib_config() -> AcpiCallAlibConfig {
    AcpiCallAlibConfig {
        alib_method: String::from(r"\_SB.ALIB"),
        stapm_limit_id: 0x05,
        fast_limit_id: 0x06,
        slow_limit_id: 0x07,
        slow_time_id: 0x08,
        stapm_time_id: 0x01,
        temp_target_id: 0x03,
        skin_limit_id: 0x2e,
        power_scale: 1000,
        time_scale: 1,
        temp_scale: 1,
        slow_time: 10,
        stapm_time: 100,
        temp_target: 85,
    }
}

fn alib_config() -> TdpLimitConfig {
    TdpLimitConfig {
        acpi_call_alib: Some(gpd_acpi_call_alib_config()),
        ..config(TdpLimitingMethod::AcpiCallAlib, 4, 28)
    }
}

#[test]
fn test_acpi_call_alib_payload_encoding() {
    let payload = build_acpi_call_alib_payload(&gpd_acpi_call_alib_config(), 15).unwrap();
    assert_eq!(
        payload,
        vec![
            0x25, 0x00, 0x05, 0x98, 0x3a, 0x00, 0x00, 0x06, 0x98, 0x3a, 0x00, 0x00, 0x07, 0x98,
            0x3a, 0x00, 0x00, 0x08, 0x0a, 0x00, 0x00, 0x00, 0x01, 0x64, 0x00, 0x00, 0x00, 0x03,
            0x55, 0x00, 0x00, 0x00, 0x2e, 0x98, 0x3a, 0x00, 0x00,
        ]
    );
}

#[test]
fn alib_param_is_little_endian() {
    let mut payload = vec![9u8];
    append_alib_param(&mut payload, 0x2e, 0x0102_0304);
    assert_eq!(payload, vec![9, 0x2e, 4, 3, 2, 1]);
    assert_eq!(build_acpi_call_command("M", &[0x0a, 0xff]), "M 0x0c b0aff");
}

#[test]
fn test_acpi_call_alib_tdp_manager_inactive_without_acpi_node() {
    let manager = tdp_limit_manager(&Some(alib_config())).unwrap();
    assert!(matches!(manager, TdpLimitManager::AcpiCallAlib { .. }));
    assert_eq!(is_active_acpi_call(OpenOutcome::NotFound), Some(false));
}

#[test]
fn acpi_call_activity() {
    assert_eq!(is_active_acpi_call(OpenOutcome::Opened), Some(true));
    assert_eq!(
        is_active_acpi_call(OpenOutcome::PermissionDenied),
        Some(false)
    );
    assert_eq!(is_active_acpi_call(OpenOutcome::OtherError), None);
}

#[test]
fn test_acpi_call_alib_set_tdp_limit() {
    let alib = gpd_acpi_call_alib_config();
    let config = Some(alib_config());
    assert_eq!(
        set_acpi_call_alib_tdp_limit(&alib, true, &config, 15).unwrap(),
        String::from(r"\_SB.ALIB 0x0c b250005983a000006983a000007983a0000080a000000016400000003550000002e983a0000")
    );
}

#[test]
fn acpi_call_errors() {
    let alib = gpd_acpi_call_alib_config();
    let config = Some(alib_config());
    assert_eq!(
        set_acpi_call_alib_tdp_limit(&alib, false, &config, 15),
        Err(TdpError::NotActive)
    );
    assert_eq!(
        set_acpi_call_alib_tdp_limit(&alib, true, &config, 29),
        Err(TdpError::InvalidLimit)
    );
    assert_eq!(get_acpi_call_alib_tdp_limit(), Err(TdpError::NoReadback));

    let mut alib = gpd_acpi_call_alib_config();
    alib.power_scale = u32::MAX;
    assert_eq!(
        build_acpi_call_alib_payload(&alib, 15),
        Err(TdpError::PowerOverflow)
    );
    let mut alib = gpd_acpi_call_alib_config();
    alib.slow_time = 2;
    alib.time_scale = u32::MAX;
    assert_eq!(
        build_acpi_call_alib_payload(&alib, 15),
        Err(TdpError::SlowTimeOverflow)
    );
    let mut alib = gpd_acpi_call_alib_config();
    alib.slow_time = 1;
    alib.stapm_time = 2;
    alib.time_scale = u32::MAX;
    assert_eq!(
        build_acpi_call_alib_payload(&alib, 15),
        Err(TdpError::StapmTimeOverflow)
    );
    let mut alib = gpd_acpi_call_alib_config();
    alib.temp_scale = u32::MAX;
    assert_eq!(
        build_acpi_call_alib_payload(&alib, 15),
        Err(TdpError::TemperatureOverflow)
    );
}

#[test]
fn test_acpi_call_alib_factory_fails_without_config() {
    let config = Some(config(TdpLimitingMethod::AcpiCallAlib, 4, 28));
    assert_eq!(
        tdp_limit_manager(&config).err(),
        Some(TdpError::AcpiCallAlibMissing)
    );
}

#[test]
fn remote_manager() {
    let manager = tdp_limit_manager(&Some(config(TdpLimitingMethod::RemoteInterface, 3, 15)));
    assert!(!manager.unwrap().needs_root());
    assert!(tdp_limit_manager(&hwmon_config(None)).unwrap().needs_root());
    assert_eq!(require_remote_manager(true), Ok(()));
    assert!(is_active_remote(true));
    assert!(!is_active_remote(false));
    assert_eq!(
        require_remote_manager(false),
        Err(TdpError::NoRemoteManager)
    );
    assert!(!tdp_limit_manager(&None).unwrap().needs_root());
}

struct Deck {
    active: bool,
    limit: u32,
    fan_state: u32,
    fan_speed: u32,
    asked: Vec<UpdateRequest>,
}

impl Deck {
    fn new(limit: u32) -> Deck {
        Deck {
            active: true,
            limit,
            fan_state: FanControlState::Os.to_u32(),
            fan_speed: 0,
            asked: Vec::new(),
        }
    }

    fn update(&mut self, service: &mut TdpManagerService) -> bool {
        let progress = service.begin_update_download_mode();
        self.finish(service, progress)
    }

    fn finish(&mut self, service: &mut TdpManagerService, mut progress: UpdateProgress) -> bool {
        loop {
            match progress {
                UpdateProgress::Finished { success } => return success,
                UpdateProgress::Ask(step, request) => {
                    self.asked.push(request);
                    let reply = match request {
                        UpdateRequest::IsActive => UpdateReply::Active(self.active),
                        UpdateRequest::GetTdpLimit => UpdateReply::Limit(self.limit),
                        UpdateRequest::SetTdpLimit { limit, .. } => {
                            self.limit = limit;
                            UpdateReply::Done
                        }
                        UpdateRequest::GetFanControlState => UpdateReply::FanState(self.fan_state),
                        UpdateRequest::SetFanControlState(state) => {
                            self.fan_state = state.to_u32();
                            UpdateReply::Done
                        }
                        UpdateRequest::SetFanSpeed(rpm) => {
                            self.fan_speed = rpm;
                            UpdateReply::Done
                        }
                    };
                    progress = service.update_download_mode(step, reply);
                }
            }
        }
    }

    fn act(&mut self, service: &mut TdpManagerService, input: ServiceInput) -> bool {
        match service.run(input) {
            ServiceAction::SetTdpLimit { limit, .. } => {
                self.limit = limit;
                true
            }
            ServiceAction::OpenHandle(id) => {
                let progress = service.get_download_mode_handle(&id);
                self.finish(service, progress)
            }
            ServiceAction::Update => self.update(service),
            _ => false,
        }
    }
}

fn set(limit: u32) -> ServiceInput {
    ServiceInput::Command(TdpManagerCommand::SetTdpLimit(limit))
}

fn enter(id: &str) -> ServiceInput {
    ServiceInput::Command(TdpManagerCommand::EnterDownloadMode(id.to_string()))
}

fn left(id: &str) -> ServiceInput {
    ServiceInput::HandleClosed(id.to_string())
}

#[test]
fn test_low_power_lock() {
    let mut service = TdpManagerService::new(&hwmon_config(Some(6)), &None).unwrap();
    let mut deck = Deck::new(10);

    assert!(deck.act(&mut service, set(15)));
    assert_eq!(deck.limit, 15);
    assert!(service.download_mode_handles().is_empty());

    assert!(deck.act(&mut service, enter("test")));
    assert_eq!(deck.limit, 6);
    assert_eq!(
        service.download_mode_handles(),
        vec![(String::from("test"), 1u32)]
    );
    assert!(!deck.act(&mut service, set(15)));
    assert_eq!(deck.limit, 6);

    assert!(deck.act(&mut service, left("test")));
    assert_eq!(deck.limit, 15);
    assert!(deck.act(&mut service, set(12)));
    assert_eq!(deck.limit, 12);
    assert!(service.download_mode_handles().is_empty());
}

#[test]
fn handles_are_counted() {
    let mut service = TdpManagerService::new(&hwmon_config(Some(6)), &None).unwrap();
    let mut deck = Deck::new(15);
    deck.act(&mut service, enter("a"));
    deck.act(&mut service, enter("b"));
    deck.act(&mut service, enter("a"));
    let mut handles = service.download_mode_handles();
    handles.sort();
    assert_eq!(
        handles,
        vec![(String::from("a"), 2u32), (String::from("b"), 1u32)]
    );
    for id in ["a", "b"] {
        assert!(!deck.act(&mut service, left(id)));
        assert_eq!(deck.limit, 6);
    }
    // one that is not held changes nothing
    assert!(!deck.act(&mut service, left("b")));
    assert!(deck.act(&mut service, left("a")));
    assert_eq!(deck.limit, 15);
}

#[test]
fn first_limit_is_restored() {
    let mut service = TdpManagerService::new(&hwmon_config(Some(6)), &None).unwrap();
    let mut deck = Deck::new(15);
    deck.act(&mut service, enter("a"));
    for limit in [12, 6, 3] {
        deck.limit = limit;
        assert!(deck.update(&mut service));
        assert_eq!(deck.limit, 6);
    }
    deck.limit = 9;
    assert!(deck.act(&mut service, left("a")));
    assert_eq!(deck.limit, 15);
}

#[test]
fn tdp_messages() {
    assert_eq!(TdpError::BadNumber.message(), None);
    assert_eq!(
        TdpError::NotActive.message().unwrap(),
        "TDP limiting not active"
    );
    assert_eq!(
        TdpError::NoReadback.message().unwrap(),
        "Current TDP readback is not supported for acpi_call_alib"
    );
}

#[test]
fn closing_undoes_opening() {
    let mut handles = Handles::new();
    assert!(handles.is_empty());
    handles.open("x");
    handles.open("y");
    assert_eq!(handles.count("x"), Some(1));
    handles.open("x");
    assert!(!handles.close("x"));
    assert_eq!(handles.count("x"), Some(1));
    assert!(handles.close("x"));
    assert_eq!(handles.count("x"), None);
    assert_eq!(handles.list(), vec![(String::from("y"), 1u32)]);
}

#[test]
fn test_download_mode_fan_speed() {
    let fan = Some(FanSpeedConfig {
        download_mode_fan_speed: Some(2000),
    });
    let mut service = TdpManagerService::new(&hwmon_config(Some(6)), &fan).unwrap();
    let mut deck = Deck::new(15);
    deck.act(&mut service, set(6));
    deck.act(&mut service, enter("test"));
    assert_eq!(deck.fan_state, FanControlState::Bios.to_u32());
    assert_eq!(deck.fan_speed, 2000);
    let stop = deck
        .asked
        .iter()
        .position(|r| *r == UpdateRequest::SetFanControlState(FanControlState::Bios));
    let speed = deck
        .asked
        .iter()
        .position(|r| *r == UpdateRequest::SetFanSpeed(2000));
    assert!(stop.unwrap() < speed.unwrap());
    deck.act(&mut service, left("test"));
    assert_eq!(deck.fan_state, FanControlState::Os.to_u32());
}

#[test]
fn test_disabled_low_power_lock() {
    let mut service = TdpManagerService::new(&hwmon_config(None), &None).unwrap();
    let mut deck = Deck::new(10);
    assert!(deck.act(&mut service, set(15)));
    assert_eq!(deck.limit, 15);
    assert!(service.download_mode_handles().is_empty());
    assert_eq!(
        service.run(enter("test")),
        ServiceAction::ReplyNoDownloadMode
    );
}

#[test]
fn inactive_limits_are_left_alone() {
    let mut service = TdpManagerService::new(&hwmon_config(Some(6)), &None).unwrap();
    let mut deck = Deck::new(15);
    deck.active = false;
    deck.act(&mut service, enter("test"));
    assert_eq!(deck.limit, 15);
}

#[test]
fn service_actions() {
    let mut service = TdpManagerService::new(&hwmon_config(Some(6)), &None).unwrap();
    let command = |c| ServiceInput::Command(c);
    for (input, action) in [
        (
            command(TdpManagerCommand::SetTdpLimit(5)),
            ServiceAction::SetTdpLimit {
                limit: 5,
                root: true,
            },
        ),
        (
            command(TdpManagerCommand::GetTdpLimit),
            ServiceAction::ReplyTdpLimit,
        ),
        (
            command(TdpManagerCommand::GetTdpLimitRange),
            ServiceAction::ReplyTdpLimitRange,
        ),
        (
            command(TdpManagerCommand::IsActive),
            ServiceAction::ReplyIsActive,
        ),
        (
            command(TdpManagerCommand::UpdateDownloadMode),
            ServiceAction::Update,
        ),
        (
            command(TdpManagerCommand::ListDownloadModeHandles),
            ServiceAction::ReplyHandles,
        ),
        (
            command(TdpManagerCommand::SetProxy { present: true }),
            ServiceAction::SetProxy { present: true },
        ),
        (ServiceInput::ChannelClosed, ServiceAction::Stop),
        (ServiceInput::HandleLost, ServiceAction::Wait),
        (ServiceInput::NoHandle, ServiceAction::Wait),
    ] {
        assert_eq!(service.run(input), action);
    }
    assert!(matches!(
        service.manager(),
        TdpLimitManager::AmdgpuHwmon { .. }
    ));
}
