use steamos_manager::ctl::lists::{handle_list, is_text_le, plain_list, sorted_list};
use steamos_manager::ctl::properties::{
    collect_properties, get_all_properties, introspect, property_key, select_interfaces, Property,
};
use steamos_manager::ctl::states::{
    action_timestamp, print_cpu_boost_state, print_cpu_scaling_governor, print_fan_control_state,
    print_hdmi_cec_state, print_labelled, print_number, print_screen_reader_mode,
    print_wifi_backend, print_wifi_debug_mode, print_wifi_power_management_state,
};

fn texts(texts: &[&str]) -> Vec<String> {
    texts.iter().map(|t| t.to_string()).collect()
}

#[test]
fn order_of_texts() {
    let words = ["", "a", "a b", "ab", "b", "B", "\u{e9}", "\u{ffff}", "\u{10000}"];
    for a in words {
        for b in words {
            assert_eq!(is_text_le(a, b), a <= b);
        }
    }
}

#[test]
fn lists() {
    assert_eq!(
        sorted_list("Schedulers", texts(&["none", "lavd", "none"])),
        "Schedulers:\n\n- lavd\n- none\n- none\n"
    );
    assert_eq!(sorted_list("Voices", vec![]), "Voices:\n\n");
    assert_eq!(
        plain_list("Governors", &texts(&["powersave", "ondemand"])),
        "Governors:\n\npowersave\nondemand\n"
    );
    assert_eq!(
        handle_list(&vec![("b".to_string(), 2), ("a".to_string(), 1)]),
        "a: 1\nb: 2\n"
    );
}

#[test]
fn states() {
    assert_eq!(print_labelled("Voice", "deux"), "Voice: deux\n");
    assert_eq!(print_number("TDP Limit", 15), "TDP Limit: 15\n");
    assert_eq!(print_fan_control_state(1), "Fan control state: os\n");
    assert_eq!(
        print_fan_control_state(2),
        "Got unknown value 2 from backend\n"
    );
    assert_eq!(
        print_cpu_scaling_governor("powersave"),
        "CPU Governor: powersave\n"
    );
    assert_eq!(
        print_cpu_scaling_governor("fast"),
        "Unknown CPU governor or unable to get type from fast\n"
    );
    assert_eq!(print_cpu_boost_state(1), "CPU Boost State: enabled\n");
    assert_eq!(
        print_cpu_boost_state(3),
        "Got unknown value 3 from backend\n"
    );
    assert_eq!(print_wifi_backend("IWD"), "Wi-Fi backend: iwd\n");
    assert_eq!(
        print_wifi_backend("x"),
        "Got unknown value x from backend\n"
    );
    assert_eq!(print_wifi_debug_mode(0), "Wi-Fi debug mode: off\n");
    assert_eq!(
        print_wifi_debug_mode(9),
        "Got unknown value 9 from backend\n"
    );
    assert_eq!(
        print_wifi_power_management_state(0),
        "Wi-Fi power management state: disabled\n"
    );
    assert_eq!(
        print_hdmi_cec_state(2),
        "HDMI-CEC state: control-and-wake\n"
    );
    assert_eq!(
        print_hdmi_cec_state(4),
        "Got unknown value 4 from backend\n"
    );
    assert_eq!(
        print_screen_reader_mode("focus"),
        "Screen Reader Mode: focus\n"
    );
    assert_eq!(
        print_screen_reader_mode("x"),
        "Got unknown screen reader mode value x from backend\n"
    );
    assert_eq!(action_timestamp(3, 7), Some(3_000_000_007));
    assert_eq!(action_timestamp(-1, 0), None);
}

const XML: &str = r#"<!DOCTYPE node PUBLIC "-//freedesktop//DTD D-BUS Object Introspection 1.0//EN"
 "http://www.freedesktop.org/standards/dbus/1.0/introspect.dtd">
<node>
  <interface name="org.freedesktop.DBus.Properties"></interface>
  <interface name="com.steampowered.SteamOSManager1.Manager2">
    <property name="DeviceModel" type="(ss)" access="read"/>
  </interface>
  <interface name="com.steampowered.SteamOSManager1.TdpLimit1"></interface>
</node>"#;

#[test]
fn manager_interfaces() {
    let interfaces = introspect(XML).unwrap();
    let names: Vec<(String, String)> = interfaces
        .into_iter()
        .map(|i| (i.name, i.short_name))
        .collect();
    assert_eq!(
        names,
        vec![
            (
                "com.steampowered.SteamOSManager1.Manager2".to_string(),
                "Manager2".to_string()
            ),
            (
                "com.steampowered.SteamOSManager1.TdpLimit1".to_string(),
                "TdpLimit1".to_string()
            ),
        ]
    );
    assert!(introspect("<node>").is_none());
    assert!(introspect("").is_none());
    assert!(select_interfaces(&texts(&["com.steampowered.SteamOSManager1"])).is_empty());
}

fn property(key: &str, value: &str) -> Property {
    Property {
        key: key.to_string(),
        value: value.to_string(),
    }
}

#[test]
fn properties() {
    assert_eq!(property_key("Manager2", "Model"), "Manager2.Model");
    let given = || {
        vec![
            property("b", "1"),
            property("a", "2"),
            property("c", "3"),
            property("b", "4"),
        ]
    };
    assert_eq!(
        collect_properties(given()),
        vec![
            property("a", "2"),
            property("b", "4"),
            property("c", "3")
        ]
    );
    assert_eq!(get_all_properties(given()), "a: 2\nb: 4\nc: 3\n");
    assert_eq!(get_all_properties(vec![]), "");
}
