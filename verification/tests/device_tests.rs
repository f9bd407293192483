use airpods_bridge::device::{identify_model, is_airpods_alias, is_placeholder_alias};

#[test]
fn known_models() {
    assert_eq!(identify_model("X", "bluetooth:v004Cp200Ed0100"), "AirPods Pro (Gen 1)");
    assert_eq!(identify_model("X", "bluetooth:v004Cp2014d0100"), "AirPods Pro (Gen 2)");
    assert_eq!(identify_model("X", "bluetooth:v004Cp200Fd0100"), "AirPods Max");
    assert_eq!(identify_model("X", "bluetooth:v004Cp2013d0100"), "AirPods (Gen 3)");
}

#[test]
fn unknown_model_keeps_alias() {
    assert_eq!(identify_model("My Buds", "bluetooth:v004Cp9999d0100"), "My Buds");
    assert_eq!(identify_model("My Buds", "bluetooth:v0001p2014d0100"), "My Buds");
    assert_eq!(identify_model("My Buds", ""), "My Buds");
}

#[test]
fn airpods_alias_ignores_case() {
    assert!(is_airpods_alias("Kim's AIRPODS Pro"));
    assert!(is_airpods_alias("airpods"));
    assert!(!is_airpods_alias("Air Pods"));
    assert!(!is_airpods_alias(""));
}

#[test]
fn placeholder_alias() {
    assert!(is_placeholder_alias("AirPods"));
    assert!(!is_placeholder_alias("airpods"));
    assert!(!is_placeholder_alias("AirPods Pro"));
}

use airpods_bridge::device::{addresses_match, discovery_step, is_device_interface, is_wanted_device, DiscoveryStep};

#[test]
fn device_interface_name() {
    assert!(is_device_interface("org.bluez.Device1"));
    assert!(!is_device_interface("org.bluez.Adapter1"));
}

#[test]
fn addresses_ignore_case() {
    assert!(addresses_match("AA:bb:0C:DD:EE:FF", "aa:BB:0c:dd:ee:ff"));
    assert!(!addresses_match("AA:BB:CC:DD:EE:FF", "AA:BB:CC:DD:EE:F0"));
    assert!(!addresses_match("AA:BB", "AA:BB:CC"));
}

#[test]
fn wanted_device_by_address_or_paired_alias() {
    let mac = "AA:BB:CC:DD:EE:FF";
    assert!(is_wanted_device("Speaker", false, mac, Some("aa:bb:cc:dd:ee:ff")));
    assert!(!is_wanted_device("AirPods Pro", true, "11:22:33:44:55:66", Some(mac)));
    assert!(is_wanted_device("AirPods Pro", true, mac, None));
    assert!(!is_wanted_device("AirPods Pro", false, mac, None));
    assert!(!is_wanted_device("Speaker", true, mac, None));
}

#[test]
fn discovery_steps() {
    let mac = "AA:BB:CC:DD:EE:FF";
    assert_eq!(discovery_step("AirPods", true, false, true, mac, None), DiscoveryStep::RereadAlias);
    assert_eq!(discovery_step("AirPods", true, true, true, mac, None), DiscoveryStep::Take);
    assert_eq!(discovery_step("AirPods", false, false, true, mac, None), DiscoveryStep::Take);
    assert_eq!(discovery_step("Kim's AirPods", true, false, false, mac, None), DiscoveryStep::Skip);
    assert_eq!(discovery_step("Speaker", true, false, true, mac, Some(mac)), DiscoveryStep::Take);
    assert_eq!(discovery_step("Speaker", true, false, true, mac, None), DiscoveryStep::Skip);
}
