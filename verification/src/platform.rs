//! What the platform offers, by scripts and services.
use vstd::prelude::*;

verus! {

/// What is known of a file.
#[derive(Clone, Copy, Debug, PartialEq, Eq, Structural)]
pub enum FileMetadata {
    Found { is_file: bool, mode: u32 },
    /// There is no such file, or it may not be looked at.
    Missing,
    OtherError,
}

/// Whether a file may be executed.
#[derive(Clone, Copy, Debug, PartialEq, Eq, Structural)]
pub enum FileAccess {
    Allowed,
    /// There is no such file, or it may not be executed.
    Denied,
    OtherError,
}

/// What is known of a script.
#[derive(Clone, Copy, Debug, PartialEq, Eq, Structural)]
pub struct ScriptStatus {
    pub metadata: FileMetadata,
    /// Whether this process may execute it; that is asked for root only.
    pub access: FileAccess,
}

/// Whether a script can be run, by root or by someone; `None` if that is not
/// known. For someone it is enough that anybody may execute it.
pub open spec fn is_runnable(status: ScriptStatus, root: bool) -> Option<bool> {
    match status.metadata {
        FileMetadata::Missing => Some(false),
        FileMetadata::OtherError => None,
        FileMetadata::Found { is_file, mode } => if !is_file {
            Some(false)
        } else if root {
            match status.access {
                FileAccess::Allowed => Some(true),
                FileAccess::Denied => Some(false),
                FileAccess::OtherError => None,
            }
        } else {
            Some(mode & 0o111 != 0)
        },
    }
}

/// Whether a script can be run, by root or by someone.
pub fn check_script(status: ScriptStatus, root: bool) -> (r: Option<bool>)
    ensures
        r == is_runnable(status, root),
{
    match status.metadata {
        FileMetadata::Missing => Some(false),
        FileMetadata::OtherError => None,
        FileMetadata::Found { is_file, mode } => {
            if !is_file {
                return Some(false);
            }
            if root {
                match status.access {
                    FileAccess::Allowed => Some(true),
                    FileAccess::Denied => Some(false),
                    FileAccess::OtherError => None,
                }
            } else {
                Some((mode & 0o111) != 0)
            }
        },
    }
}

/// One after the other: the second counts only if the first holds.
pub open spec fn both(a: Option<bool>, b: Option<bool>) -> Option<bool> {
    match a {
        Some(true) => b,
        _ => a,
    }
}

fn and_both(a: Option<bool>, b: Option<bool>) -> (r: Option<bool>)
    ensures
        r == both(a, b),
{
    match a {
        Some(true) => b,
        _ => a,
    }
}

/// A script with its arguments.
#[derive(Debug, PartialEq, Eq)]
pub struct ScriptConfig {
    pub script: String,
    pub script_args: Vec<String>,
}

impl ScriptConfig {
    /// Whether the script can be run.
    pub fn is_valid(&self, status: ScriptStatus, root: bool) -> (r: Option<bool>)
        ensures
            r == is_runnable(status, root),
    {
        check_script(status, root)
    }
}

/// The scripts of a factory reset.
#[derive(Debug, PartialEq, Eq)]
pub struct ResetConfig {
    pub all: ScriptConfig,
    pub os: ScriptConfig,
    pub user: ScriptConfig,
}

impl ResetConfig {
    /// Whether all scripts can be run.
    pub fn is_valid(
        &self,
        all: ScriptStatus,
        os: ScriptStatus,
        user: ScriptStatus,
        root: bool,
    ) -> (r: Option<bool>)
        ensures
            r == both(is_runnable(all, root), both(is_runnable(os, root), is_runnable(user, root))),
    {
        and_both(
            self.all.is_valid(all, root),
            and_both(self.os.is_valid(os, root), self.user.is_valid(user, root)),
        )
    }
}

/// A service, of the service manager or of scripts.
#[derive(Debug, PartialEq, Eq)]
pub enum ServiceConfig {
    Systemd(String),
    Script { start: ScriptConfig, stop: ScriptConfig, status: ScriptConfig },
}

/// What is known of a service.
#[derive(Clone, Copy, Debug, PartialEq, Eq, Structural)]
pub struct ServiceStatus {
    /// Whether the unit is loaded, if that is known.
    pub loaded: Option<bool>,
    pub start: ScriptStatus,
    pub stop: ScriptStatus,
    pub status: ScriptStatus,
}

impl ServiceConfig {
    /// Whether the service can be used.
    pub fn is_valid(&self, known: ServiceStatus, root: bool) -> (r: Option<bool>)
        ensures
            r == match *self {
                ServiceConfig::Systemd(_) => known.loaded,
                ServiceConfig::Script { .. } => both(
                    is_runnable(known.start, root),
                    both(is_runnable(known.stop, root), is_runnable(known.status, root)),
                ),
            },
    {
        match self {
            ServiceConfig::Systemd(_) => known.loaded,
            ServiceConfig::Script { start, stop, status } => and_both(
                start.is_valid(known.start, root),
                and_both(stop.is_valid(known.stop, root), status.is_valid(known.status, root)),
            ),
        }
    }
}

/// The script that formats a device, with the flags that it takes.
#[derive(Debug, PartialEq, Eq)]
pub struct FormatDeviceConfig {
    pub script: String,
    pub script_args: Vec<String>,
    pub label_flag: String,
    pub device_flag: Option<String>,
    pub validate_flag: Option<String>,
    pub no_validate_flag: Option<String>,
}

impl FormatDeviceConfig {
    /// Whether the script can be run.
    pub fn is_valid(&self, status: ScriptStatus, root: bool) -> (r: Option<bool>)
        ensures
            r == is_runnable(status, root),
    {
        check_script(status, root)
    }
}

/// The scripts of storage devices.
#[derive(Debug, PartialEq, Eq)]
pub struct StorageConfig {
    pub trim_devices: ScriptConfig,
    pub format_device: FormatDeviceConfig,
}

impl StorageConfig {
    /// Whether both scripts can be run.
    pub fn is_valid(&self, trim: ScriptStatus, format: ScriptStatus, root: bool) -> (r: Option<
        bool,
    >)
        ensures
            r == both(is_runnable(trim, root), is_runnable(format, root)),
    {
        and_both(self.trim_devices.is_valid(trim, root), self.format_device.is_valid(format, root))
    }
}

/// What the platform offers.
#[derive(Debug, PartialEq, Eq)]
pub struct PlatformConfig {
    pub factory_reset: Option<ResetConfig>,
    pub update_bios: Option<ScriptConfig>,
    pub update_dock: Option<ScriptConfig>,
    pub storage: Option<StorageConfig>,
    pub fan_control: Option<ServiceConfig>,
}

impl Default for PlatformConfig {
    fn default() -> (r: PlatformConfig)
        ensures
            r.factory_reset is None,
            r.update_bios is None,
            r.update_dock is None,
            r.storage is None,
            r.fan_control is None,
    {
        PlatformConfig {
            factory_reset: None,
            update_bios: None,
            update_dock: None,
            storage: None,
            fan_control: None,
        }
    }
}

/// A script that has no path is replaced.
pub open spec fn is_filled(before: ScriptConfig, after: ScriptConfig, exe: Seq<char>) -> bool {
    &&& after.script@ == (if before.script@.len() == 0 { exe } else { before.script@ })
    &&& after.script_args == before.script_args
}

fn fill_script(config: ScriptConfig, exe: &str) -> (r: ScriptConfig)
    ensures
        is_filled(config, r, exe@),
{
    if config.script.as_str().is_empty() {
        ScriptConfig { script: exe.to_owned(), script_args: config.script_args }
    } else {
        config
    }
}

fn fill_optional(config: Option<ScriptConfig>, exe: &str) -> (r: Option<ScriptConfig>)
    ensures
        match config {
            Some(before) => r matches Some(after) && is_filled(before, after, exe@),
            None => r is None,
        },
{
    match config {
        Some(c) => Some(fill_script(c, exe)),
        None => None,
    }
}

impl PlatformConfig {
    /// The configuration with `exe` wherever a script has no path.
    pub fn set_test_paths(self, exe: &str) -> (r: PlatformConfig)
        ensures
            match self.factory_reset {
                Some(before) => {
                    &&& r.factory_reset matches Some(after)
                    &&& is_filled(before.all, after.all, exe@)
                    &&& is_filled(before.os, after.os, exe@)
                    &&& is_filled(before.user, after.user, exe@)
                },
                None => r.factory_reset is None,
            },
            match self.storage {
                Some(before) => {
                    &&& r.storage matches Some(after)
                    &&& is_filled(before.trim_devices, after.trim_devices, exe@)
                    &&& after.format_device.script@ == (if before.format_device.script@.len() == 0 {
                        exe@
                    } else {
                        before.format_device.script@
                    })
                    &&& after.format_device == (FormatDeviceConfig {
                        script: after.format_device.script,
                        ..before.format_device
                    })
                },
                None => r.storage is None,
            },
            match self.update_bios {
                Some(before) => r.update_bios matches Some(after) && is_filled(before, after, exe@),
                None => r.update_bios is None,
            },
            match self.update_dock {
                Some(before) => r.update_dock matches Some(after) && is_filled(before, after, exe@),
                None => r.update_dock is None,
            },
            r.fan_control == self.fan_control,
    {
        let factory_reset: Option<ResetConfig> = match self.factory_reset {
            Some(c) => Some(
                ResetConfig {
                    all: fill_script(c.all, exe),
                    os: fill_script(c.os, exe),
                    user: fill_script(c.user, exe),
                },
            ),
            None => None,
        };
        let storage: Option<StorageConfig> = match self.storage {
            Some(c) => {
                let trim_devices: ScriptConfig = fill_script(c.trim_devices, exe);
                let mut format_device: FormatDeviceConfig = c.format_device;
                if format_device.script.as_str().is_empty() {
                    format_device.script = exe.to_owned();
                }
                Some(StorageConfig { trim_devices, format_device })
            },
            None => None,
        };
        PlatformConfig {
            factory_reset,
            update_bios: fill_optional(self.update_bios, exe),
            update_dock: fill_optional(self.update_dock, exe),
            storage,
            fan_control: self.fan_control,
        }
    }
}

/// A script that nobody may execute can be run by nobody, and a directory by
/// nobody either.
pub proof fn law_not_runnable(status: ScriptStatus, root: bool)
    requires
        status.metadata matches FileMetadata::Found { is_file, mode } ==> !is_file || (!root && mode
            & 0o111 == 0) || (root && status.access == FileAccess::Denied),
        status.metadata != FileMetadata::OtherError,
    ensures
        is_runnable(status, root) == Some(false),
{
}

// ---------------------------------------------------------------------------
// Laws
// ---------------------------------------------------------------------------

/// A script can be run exactly if it is a file that may be executed: by this
/// process if it is asked for root, else by its owner, its group or the others.
pub proof fn law_runnable_file(status: ScriptStatus, is_file: bool, mode: u32, root: bool)
    requires
        status.metadata == (FileMetadata::Found { is_file, mode }),
    ensures
        is_runnable(status, root) == Some(true) <==> is_file && if root {
            status.access == FileAccess::Allowed
        } else {
            mode / 64 % 2 == 1 || mode / 8 % 2 == 1 || mode % 2 == 1
        },
        is_runnable(status, root) is None <==> is_file && root && status.access
            == FileAccess::OtherError,
{
    assert((mode & 0o111 != 0) == (mode / 64 % 2 == 1 || mode / 8 % 2 == 1 || mode % 2 == 1))
        by (bit_vector);
}

/// Nothing is known of a script that could not be looked at, and a missing one
/// cannot be run, by nobody.
pub proof fn law_unseen_file(status: ScriptStatus, root: bool)
    ensures
        status.metadata is Missing ==> is_runnable(status, root) == Some(false),
        status.metadata is OtherError <==> is_runnable(status, root) is None && !(
        status.metadata is Found),
{
}

/// Several things can be used exactly if each of them can. The answer does not
/// depend on their order, but for whether it is known.
pub proof fn law_all_are_needed(a: Option<bool>, b: Option<bool>, c: Option<bool>)
    ensures
        both(a, both(b, c)) == Some(true) <==> a == Some(true) && b == Some(true) && c == Some(
            true,
        ),
        both(a, both(b, c)) == both(both(a, b), c),
        both(a, b) is Some ==> a is Some,
        a == Some(false) ==> both(a, b) == Some(false),
        a is Some && b is Some ==> both(a, b) == both(b, a) && both(a, b) is Some,
        a is None ==> both(a, b) is None,
        a == Some(true) && b is None ==> both(a, b) is None,
{
}

/// A filled script has a path if there is one to fill in. A path that was there
/// stays.
pub proof fn law_filled_script(before: ScriptConfig, after: ScriptConfig, exe: Seq<char>)
    requires
        is_filled(before, after, exe),
        exe.len() > 0,
    ensures
        after.script@.len() > 0,
        before.script@.len() > 0 ==> after.script@ == before.script@,
        before.script@.len() == 0 ==> after.script@ == exe,
        after.script_args@ == before.script_args@,
{
}

} // verus!
