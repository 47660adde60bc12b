//! Wi-Fi: backends, power saving and tracing.
pub mod ini;
pub mod network;
pub mod trace;
pub mod values;

pub use self::network::{
    get_nm_settings, get_wifi_backend, get_wifi_power_management_state, list_wifi_interfaces,
    set_nm_settings, set_wifi_backend, set_wifi_power_management_state, NmWifiSettings,
};
pub use self::trace::{
    extract_wifi_trace, generate_wifi_dump, set_wifi_debug_mode, setup_iwd_config, start_tracing,
    stop_tracing,
};
pub use self::values::{NmSettingWirelessPowersave, WifiBackend, WifiDebugMode, WifiPowerManagement};
