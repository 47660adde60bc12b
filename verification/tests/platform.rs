use steamos_manager::platform::{
    FileAccess, FileMetadata, FormatDeviceConfig, PlatformConfig, ResetConfig, ScriptConfig,
    ScriptStatus, ServiceConfig, ServiceStatus, StorageConfig,
};

fn script(path: &str) -> ScriptConfig {
    ScriptConfig {
        script: path.to_string(),
        script_args: Vec::new(),
    }
}

fn missing() -> ScriptStatus {
    ScriptStatus {
        metadata: FileMetadata::Missing,
        access: FileAccess::Denied,
    }
}

fn found(is_file: bool, mode: u32, access: FileAccess) -> ScriptStatus {
    ScriptStatus {
        metadata: FileMetadata::Found { is_file, mode },
        access,
    }
}

fn runnable() -> ScriptStatus {
    found(true, 0o100700, FileAccess::Allowed)
}

fn unreadable() -> ScriptStatus {
    ScriptStatus {
        metadata: FileMetadata::OtherError,
        access: FileAccess::OtherError,
    }
}

#[test]
fn script_config_valid_no_path() {
    assert_eq!(script("").is_valid(missing(), false), Some(false));
}

#[test]
fn script_config_valid_root_no_path() {
    assert_eq!(script("").is_valid(missing(), true), Some(false));
}

#[test]
fn script_config_valid_directory() {
    let directory = found(false, 0o040755, FileAccess::Allowed);
    assert_eq!(script("/").is_valid(directory, false), Some(false));
}

#[test]
fn script_config_valid_root_directory() {
    let directory = found(false, 0o040755, FileAccess::Allowed);
    assert_eq!(script("/").is_valid(directory, true), Some(false));
}

#[test]
fn script_config_valid_noexec() {
    let file = found(true, 0o100600, FileAccess::Denied);
    assert_eq!(script("exe").is_valid(file, false), Some(false));
}

#[test]
fn script_config_root_valid_noexec() {
    let file = found(true, 0o100600, FileAccess::Denied);
    assert_eq!(script("exe").is_valid(file, true), Some(false));
}

#[test]
fn script_config_valid() {
    assert_eq!(script("exe").is_valid(runnable(), false), Some(true));
}

#[test]
fn script_config_root_valid() {
    assert_eq!(script("exe").is_valid(runnable(), true), Some(true));
}

#[test]
fn script_config_errors() {
    assert_eq!(script("exe").is_valid(unreadable(), false), None);
    let file = found(true, 0o100700, FileAccess::OtherError);
    assert_eq!(script("exe").is_valid(file, true), None);
    assert_eq!(script("exe").is_valid(file, false), Some(true));
}

fn reset() -> ResetConfig {
    ResetConfig {
        all: script("all"),
        os: script(""),
        user: script("user"),
    }
}

fn storage() -> StorageConfig {
    StorageConfig {
        trim_devices: script(""),
        format_device: FormatDeviceConfig {
            script: String::new(),
            script_args: Vec::new(),
            label_flag: "-l".to_string(),
            device_flag: None,
            validate_flag: None,
            no_validate_flag: None,
        },
    }
}

#[test]
fn configs_need_all_scripts() {
    let ok = runnable();
    assert_eq!(reset().is_valid(ok, ok, ok, false), Some(true));
    assert_eq!(reset().is_valid(ok, ok, missing(), false), Some(false));
    // the first that cannot run settles it
    assert_eq!(
        reset().is_valid(missing(), unreadable(), ok, false),
        Some(false)
    );
    assert_eq!(reset().is_valid(ok, unreadable(), missing(), false), None);
    assert_eq!(storage().is_valid(ok, ok, true), Some(true));
    assert_eq!(storage().is_valid(ok, missing(), true), Some(false));
    assert_eq!(
        storage().format_device.is_valid(missing(), true),
        Some(false)
    );
}

#[test]
fn services() {
    let known = ServiceStatus {
        loaded: Some(true),
        start: runnable(),
        stop: runnable(),
        status: missing(),
    };
    assert_eq!(
        ServiceConfig::Systemd("fan.service".to_string()).is_valid(known, true),
        Some(true)
    );
    let scripts = ServiceConfig::Script {
        start: script("start"),
        stop: script("stop"),
        status: script("status"),
    };
    assert_eq!(scripts.is_valid(known, true), Some(false));
}

#[test]
fn test_paths_fill_gaps() {
    let config = PlatformConfig {
        factory_reset: Some(reset()),
        storage: Some(storage()),
        update_bios: Some(script("")),
        ..PlatformConfig::default()
    };
    let config = config.set_test_paths("/exe");
    let reset = config.factory_reset.unwrap();
    assert_eq!(reset.all.script, "all");
    assert_eq!(reset.os.script, "/exe");
    let storage = config.storage.unwrap();
    assert_eq!(storage.trim_devices.script, "/exe");
    assert_eq!(storage.format_device.script, "/exe");
    assert_eq!(storage.format_device.label_flag, "-l");
    assert_eq!(config.update_bios.unwrap().script, "/exe");
    assert!(config.update_dock.is_none());
}
