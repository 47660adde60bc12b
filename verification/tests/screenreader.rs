use serde_json::Value;
use steamos_manager::screenreader::orca::{EnableStep, OrcaReaction};
use steamos_manager::screenreader::settings::{
    check_option, load_values, set_orca_enabled, set_orca_option, set_orca_voice, OrcaError,
    OrcaLevel, OrcaValues, Voice,
};
use steamos_manager::screenreader::{OrcaManager, ScreenReaderAction, ScreenReaderMode};
use steamos_manager::systemd::JobMode;
use steamos_manager::uinput::{InputEvent, Key, UInputDevice, UInputError};

const SETTINGS: &str = r#"{
  "general": { "enableSpeech": true, "other": [1, 2] },
  "profiles": {
    "default": {
      "voices": {
        "default": {
          "average-pitch": 4.5,
          "rate": 70,
          "gain": 9.0,
          "family": { "name": "testvoice", "lang": "en" }
        }
      }
    }
  }
}"#;

fn voice(name: &str, language: &str) -> Voice {
    Voice {
        name: name.to_string(),
        language: language.to_string(),
        variant: None,
    }
}

fn voices() -> Vec<Voice> {
    vec![
        voice("testvoice", "en-GB"),
        voice("deux", "fr-FR"),
        voice("other", "en-GB"),
    ]
}

fn manager() -> OrcaManager {
    OrcaManager::new(Some(SETTINGS.to_string()), false, voices())
}

fn at(json: &str, path: &[&str]) -> Value {
    let parsed: Value = serde_json::from_str(json).unwrap();
    let mut v = &parsed;
    for p in path {
        v = &v[*p];
    }
    v.clone()
}

const DEFAULT_VOICE: [&str; 4] = ["profiles", "default", "voices", "default"];

fn in_voice(json: &str, path: &[&str]) -> Value {
    let mut all = DEFAULT_VOICE.to_vec();
    all.extend(path);
    at(json, &all)
}

#[test]
fn values_are_loaded() {
    let manager = manager();
    assert_eq!(f64::from_bits(manager.pitch()), 4.5);
    assert_eq!(f64::from_bits(manager.rate()), 70.0);
    assert_eq!(f64::from_bits(manager.volume()), 9.0);
    assert_eq!(manager.voice(), "testvoice");
    assert_eq!(manager.mode(), ScreenReaderMode::Browse);
    assert_eq!(manager.keyboard.name(), "steamos-manager");

    for settings in [None, Some("{".to_string())] {
        let manager = OrcaManager::new(settings, true, vec![]);
        assert_eq!(f64::from_bits(manager.pitch()), 5.0);
        assert_eq!(f64::from_bits(manager.rate()), 50.0);
        assert_eq!(f64::from_bits(manager.volume()), 10.0);
        assert_eq!(manager.voice(), "");
        assert!(manager.enabled());
    }
}

#[test]
fn test_enable_disable() {
    let mut manager = OrcaManager::new(None, false, voices());
    assert_eq!(
        manager.set_enabled(true),
        vec![
            EnableStep::SetDesktopSetting(true),
            EnableStep::WriteSettings(true),
            EnableStep::RestartOrca(JobMode::Fail),
        ]
    );
    manager.enabled_set(true);
    assert!(manager.enabled());
    assert_eq!(
        manager.set_enabled(false),
        vec![
            EnableStep::SetDesktopSetting(false),
            EnableStep::WriteSettings(false),
            EnableStep::StopOrca(JobMode::Fail),
        ]
    );
    manager.enabled_set(false);
    assert!(!manager.enabled());

    manager.load_values(SETTINGS).unwrap();
    let data = manager.set_orca_enabled(SETTINGS, false).unwrap();
    assert_eq!(at(&data, &["general", "enableSpeech"]), Value::from(false));
    assert_eq!(
        manager.set_enabled(false),
        vec![EnableStep::StopOrca(JobMode::Fail)]
    );
    assert_eq!(manager.stop_orca(), EnableStep::StopOrca(JobMode::Fail));
}

#[test]
fn other_settings_are_kept() {
    let data = set_orca_enabled(SETTINGS, false).unwrap();
    assert_eq!(at(&data, &["general", "enableSpeech"]), Value::from(false));
    assert_eq!(
        at(&data, &["general", "other"]),
        at(SETTINGS, &["general", "other"])
    );
    assert_eq!(at(&data, &["profiles"]), at(SETTINGS, &["profiles"]));
    let data = set_orca_option(SETTINGS, "rate", Value::from(1.5)).unwrap();
    assert_eq!(in_voice(&data, &["rate"]), Value::from(1.5));
    assert_eq!(in_voice(&data, &["gain"]), Value::from(9.0));
    assert_eq!(at(&data, &["general"]), at(SETTINGS, &["general"]));
}

#[test]
fn missing_parts_are_made() {
    let data = set_orca_enabled("{}", true).unwrap();
    assert_eq!(at(&data, &["general", "enableSpeech"]), Value::from(true));
    let data = set_orca_option("{}", "gain", Value::from(2.0)).unwrap();
    assert_eq!(in_voice(&data, &["gain"]), Value::from(2.0));
    assert_eq!(
        data,
        "{\n  \"profiles\": {\n    \"default\": {\n      \"voices\": {\n        \"default\": {\n          \"gain\": 2.0\n        }\n      }\n    }\n  }\n}"
    );
}

#[test]
fn test_pitch() {
    let mut manager = manager();
    let data = manager.set_pitch(SETTINGS, Value::from(5.0));
    assert_eq!(
        in_voice(&data.unwrap(), &["average-pitch"]),
        Value::from(5.0)
    );
    manager.pitch_set(5.0f64.to_bits());
    assert_eq!(f64::from_bits(manager.pitch()), 5.0);
    assert_eq!(
        manager.set_pitch(SETTINGS, Value::from(-1.0)),
        Err(OrcaError::OutOfRange)
    );
    assert_eq!(
        manager.set_pitch(SETTINGS, Value::from(12.0)),
        Err(OrcaError::OutOfRange)
    );
    assert!(manager.set_pitch("", Value::from(7.0)).is_err());
    assert_eq!(f64::from_bits(manager.pitch()), 5.0);
}

#[test]
fn test_rate() {
    let mut manager = manager();
    let data = manager.set_rate(SETTINGS, Value::from(5.0));
    assert_eq!(in_voice(&data.unwrap(), &["rate"]), Value::from(5.0));
    manager.rate_set(5.0f64.to_bits());
    assert_eq!(f64::from_bits(manager.rate()), 5.0);
    assert_eq!(
        manager.set_rate(SETTINGS, Value::from(-1.0)),
        Err(OrcaError::OutOfRange)
    );
    assert_eq!(
        manager.set_rate(SETTINGS, Value::from(101.0)),
        Err(OrcaError::OutOfRange)
    );
    assert!(manager.set_rate("", Value::from(7.0)).is_err());
    assert_eq!(f64::from_bits(manager.rate()), 5.0);
}

#[test]
fn test_volume() {
    let mut manager = manager();
    let data = manager.set_volume(SETTINGS, Value::from(5.0));
    assert_eq!(in_voice(&data.unwrap(), &["gain"]), Value::from(5.0));
    manager.volume_set(5.0f64.to_bits());
    assert_eq!(f64::from_bits(manager.volume()), 5.0);
    assert_eq!(
        manager.set_volume(SETTINGS, Value::from(-1.0)),
        Err(OrcaError::OutOfRange)
    );
    assert_eq!(
        manager.set_volume(SETTINGS, Value::from(12.0)),
        Err(OrcaError::OutOfRange)
    );
    assert!(manager.set_volume("", Value::from(7.0)).is_err());
    assert_eq!(f64::from_bits(manager.volume()), 5.0);
}

#[test]
fn option_ranges() {
    for (option, max) in [("average-pitch", 10.0), ("rate", 100.0), ("gain", 10.0)] {
        for value in [0.0, -0.0, 0.5, max] {
            assert_eq!(check_option(option, &Value::from(value)), Ok(()));
        }
        for value in [-f64::MIN_POSITIVE, -1.0, max + 0.001, f64::MAX] {
            assert_eq!(
                check_option(option, &Value::from(value)),
                Err(OrcaError::OutOfRange)
            );
        }
        assert_eq!(
            check_option(option, &Value::from(f64::NAN)),
            Err(OrcaError::OutOfRange)
        );
    }
    assert_eq!(
        check_option("speed", &Value::from(1.0)),
        Err(OrcaError::InvalidOption)
    );
}

#[test]
fn test_voice() {
    let mut manager = manager();
    let data = manager.set_voice("testvoice", SETTINGS).unwrap();
    assert_eq!(
        in_voice(&data, &["family", "name"]),
        Value::from("testvoice")
    );
    manager.voice_set("testvoice");
    assert_eq!(manager.voice(), "testvoice");
    assert_eq!(
        manager.set_voice("testvoice", ""),
        Err(OrcaError::BadJson)
    );
    assert_eq!(manager.voice(), "testvoice");
    assert_eq!(
        manager.set_voice("nobody", SETTINGS),
        Err(OrcaError::InvalidVoice)
    );
}

#[test]
fn voice_families() {
    let data = set_orca_voice("{}", &voice("deux", "fr-CA")).unwrap();
    assert_eq!(in_voice(&data, &["family", "name"]), Value::from("deux"));
    assert_eq!(in_voice(&data, &["family", "lang"]), Value::from("fr"));
    assert_eq!(in_voice(&data, &["family", "dialect"]), Value::from("CA"));
    assert_eq!(in_voice(&data, &["family", "variant"]), Value::Null);
    assert_eq!(in_voice(&data, &["established"]), Value::from(true));
    let plain = Voice {
        variant: Some("male1".to_string()),
        ..voice("un", "fr")
    };
    let data = set_orca_voice(&data, &plain).unwrap();
    assert_eq!(in_voice(&data, &["family", "lang"]), Value::from("fr"));
    assert_eq!(
        in_voice(&data, &["family", "variant"]),
        Value::from("male1")
    );
}

fn values(rate: u64, voice: &str) -> OrcaValues {
    OrcaValues {
        pitch: 0,
        rate,
        volume: 0,
        voice: voice.to_string(),
    }
}

#[test]
fn what_is_written_is_loaded() {
    let data = set_orca_option(SETTINGS, "rate", Value::from(31.0)).unwrap();
    let data = set_orca_voice(&data, &voice("deux", "fr-FR")).unwrap();
    let (loaded, result) = load_values(&data, values(0, ""));
    assert_eq!(result, Ok(()));
    assert_eq!(f64::from_bits(loaded.rate), 31.0);
    assert_eq!(loaded.voice, "deux");
    let (loaded, result) = load_values("[", values(7, "x"));
    assert_eq!(result, Err(OrcaError::BadJson));
    assert_eq!(loaded, values(7, "x"));
}

#[test]
fn settings_that_are_no_objects() {
    for (data, level) in [
        ("[]", OrcaLevel::Json),
        (r#"{"profiles":1}"#, OrcaLevel::Profiles),
        (r#"{"profiles":{"default":1}}"#, OrcaLevel::DefaultProfile),
        (
            r#"{"profiles":{"default":{"voices":1}}}"#,
            OrcaLevel::Voices,
        ),
        (
            r#"{"profiles":{"default":{"voices":{"default":1}}}}"#,
            OrcaLevel::DefaultVoice,
        ),
    ] {
        assert_eq!(
            set_orca_option(data, "rate", Value::from(1.0)),
            Err(OrcaError::NotObject(level))
        );
    }
    assert_eq!(
        set_orca_enabled(r#"{"general":1}"#, true),
        Err(OrcaError::NotObject(OrcaLevel::General))
    );
    assert_eq!(
        set_orca_enabled("", true),
        Err(OrcaError::BadJson)
    );
    assert_eq!(
        OrcaLevel::Json.message(),
        "orca user-settings.conf json is not an object"
    );
}

#[test]
fn locales() {
    let mut manager = manager();
    let mut locales = manager.get_voice_locales();
    locales.sort();
    assert_eq!(locales, vec!["en-GB", "fr-FR"]);
    assert_eq!(manager.locale(), "");
    assert!(manager.get_voices().is_empty());
    assert_eq!(
        manager.set_locale("de-DE"),
        Err(OrcaError::InvalidLocale)
    );
    manager.set_locale("en-GB").unwrap();
    assert_eq!(manager.locale(), "en-GB");
    let mut names = manager.get_voices();
    names.sort();
    assert_eq!(names, vec!["other", "testvoice"]);
    let mut map = manager.get_voices_map();
    map.sort();
    assert_eq!(map.len(), 2);
    assert_eq!(map[1], ("fr-FR".to_string(), vec!["deux".to_string()]));
}

struct Expected {
    events: Vec<InputEvent>,
}

impl Expected {
    fn new() -> Expected {
        Expected { events: Vec::new() }
    }

    fn key(mut self, key: Key, pressed: bool) -> Expected {
        self.events.push(InputEvent::Key { key, pressed });
        self.events.push(InputEvent::Synchronize);
        self
    }

    fn press(self, key: Key) -> Expected {
        self.key(key, true).key(key, false)
    }
}

fn keys(manager: &OrcaManager, action: ScreenReaderAction) -> Vec<InputEvent> {
    match manager.trigger_action(action, 0) {
        OrcaReaction::Keys(events) => events,
        OrcaReaction::StopTalking => panic!("no keys"),
    }
}

#[test]
fn test_read_next_word() {
    let expected = Expected::new()
        .key(Key::LeftCtrl, true)
        .press(Key::Right)
        .key(Key::LeftCtrl, false);
    assert_eq!(
        keys(&manager(), ScreenReaderAction::ReadNextWord),
        expected.events
    );
}

#[test]
fn test_read_previous_word() {
    let expected = Expected::new()
        .key(Key::LeftCtrl, true)
        .press(Key::Left)
        .key(Key::LeftCtrl, false);
    assert_eq!(
        keys(&manager(), ScreenReaderAction::ReadPreviousWord),
        expected.events
    );
}

#[test]
fn test_read_next_item() {
    assert_eq!(
        keys(&manager(), ScreenReaderAction::ReadNextItem),
        Expected::new().press(Key::Down).events
    );
}

#[test]
fn test_read_previous_item() {
    assert_eq!(
        keys(&manager(), ScreenReaderAction::ReadPreviousItem),
        Expected::new().press(Key::Up).events
    );
}

#[test]
fn test_move_to_next_landmark() {
    assert_eq!(
        keys(&manager(), ScreenReaderAction::MoveToNextLandmark),
        Expected::new().press(Key::M).events
    );
}

#[test]
fn test_move_to_previous_landmark() {
    let expected = Expected::new()
        .key(Key::LeftShift, true)
        .press(Key::M)
        .key(Key::LeftShift, false);
    assert_eq!(
        keys(&manager(), ScreenReaderAction::MoveToPreviousLandmark),
        expected.events
    );
}

#[test]
fn test_move_to_next_heading() {
    assert_eq!(
        keys(&manager(), ScreenReaderAction::MoveToNextHeading),
        Expected::new().press(Key::H).events
    );
}

#[test]
fn test_move_to_previous_heading() {
    let expected = Expected::new()
        .key(Key::LeftShift, true)
        .press(Key::H)
        .key(Key::LeftShift, false);
    assert_eq!(
        keys(&manager(), ScreenReaderAction::MoveToPreviousHeading),
        expected.events
    );
}

fn toggled() -> Vec<InputEvent> {
    Expected::new()
        .key(Key::Insert, true)
        .press(Key::A)
        .key(Key::Insert, false)
        .events
}

#[test]
fn test_toggle_mode_to_focus() {
    let mut manager = manager();
    manager.mode = ScreenReaderMode::Browse;
    assert_eq!(keys(&manager, ScreenReaderAction::ToggleMode), toggled());
    manager.action_triggered(ScreenReaderAction::ToggleMode);
    assert_eq!(manager.mode, ScreenReaderMode::Focus);
}

#[test]
fn test_toggle_mode_to_browse() {
    let mut manager = manager();
    manager.mode = ScreenReaderMode::Focus;
    assert_eq!(keys(&manager, ScreenReaderAction::ToggleMode), toggled());
    manager.action_triggered(ScreenReaderAction::ToggleMode);
    assert_eq!(manager.mode, ScreenReaderMode::Browse);
}

#[test]
fn test_set_mode_to_focus() {
    let mut manager = manager();
    manager.mode = ScreenReaderMode::Browse;
    let expected = Expected::new()
        .key(Key::Insert, true)
        .press(Key::A)
        .press(Key::A)
        .key(Key::Insert, false);
    assert_eq!(manager.set_mode(ScreenReaderMode::Focus), expected.events);
    manager.mode_set(ScreenReaderMode::Focus);
    assert_eq!(manager.mode, ScreenReaderMode::Focus);
}

#[test]
fn test_set_mode_to_browse() {
    let mut manager = manager();
    manager.mode = ScreenReaderMode::Focus;
    let expected = Expected::new()
        .key(Key::Insert, true)
        .press(Key::A)
        .press(Key::A)
        .press(Key::A)
        .key(Key::Insert, false);
    assert_eq!(manager.set_mode(ScreenReaderMode::Browse), expected.events);
    manager.mode_set(ScreenReaderMode::Browse);
    assert_eq!(manager.mode, ScreenReaderMode::Browse);
}

#[test]
fn test_set_mode_same() {
    let mut manager = manager();
    manager.mode = ScreenReaderMode::Browse;
    assert!(manager.set_mode(ScreenReaderMode::Browse).is_empty());
    assert_eq!(manager.mode, ScreenReaderMode::Browse);
}

#[test]
fn stop_talking_presses_no_key() {
    assert_eq!(
        manager().trigger_action(ScreenReaderAction::StopTalking, 5),
        OrcaReaction::StopTalking
    );
}

#[test]
fn every_key_can_be_sent() {
    let bits = OrcaManager::keybits();
    for action in [
        ScreenReaderAction::ReadNextWord,
        ScreenReaderAction::ReadPreviousWord,
        ScreenReaderAction::ReadNextItem,
        ScreenReaderAction::ReadPreviousItem,
        ScreenReaderAction::MoveToNextLandmark,
        ScreenReaderAction::MoveToPreviousLandmark,
        ScreenReaderAction::MoveToNextHeading,
        ScreenReaderAction::MoveToPreviousHeading,
        ScreenReaderAction::ToggleMode,
    ] {
        let mut held: Vec<Key> = Vec::new();
        for event in keys(&manager(), action) {
            if let InputEvent::Key { key, pressed } = event {
                assert!(bits.contains(&key));
                if pressed {
                    held.push(key);
                } else {
                    held.retain(|k| *k != key);
                }
            }
        }
        assert!(held.is_empty());
    }
}

#[test]
fn spellings() {
    assert_eq!(
        ScreenReaderMode::from_str("focus").unwrap(),
        ScreenReaderMode::Focus
    );
    assert_eq!(ScreenReaderMode::Browse.to_string(), "browse");
    assert!(ScreenReaderMode::from_str("blink").is_err());
    assert!(ScreenReaderAction::from_str("nothing").is_err());
}

#[test]
fn input_device() {
    let mut device = UInputDevice::new();
    assert_eq!(device.name(), "");
    device.set_name("keys".to_string()).unwrap();
    assert_eq!(device.name(), "keys");
    device.check_open().unwrap();
    device.open(false).unwrap();
    device.open(true).unwrap();
    assert_eq!(device.check_open(), Err(UInputError::Reopen));
    assert_eq!(device.open(true), Err(UInputError::Reopen));
    assert_eq!(
        device.set_name("other".to_string()),
        Err(UInputError::NameAfterOpening)
    );
    assert_eq!(device.name(), "keys");
    let mut queue = Vec::new();
    device.key_down(&mut queue, Key::A);
    device.key_up(&mut queue, Key::A);
    device.key_press(&mut queue, Key::H);
    assert_eq!(
        queue,
        Expected::new().press(Key::A).press(Key::H).events
    );
}
