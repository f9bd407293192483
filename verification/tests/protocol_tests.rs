use airpods_bridge::protocol::{build_anc_payload, parse_data, HANDSHAKE, REQUEST_NOTIF};
use airpods_bridge::state::{AirPodsState, BatteryInfo};

fn both_buds() -> AirPodsState {
    let mut s = AirPodsState::default();
    s.left = BatteryInfo { level: Some(50), charging: false };
    s.right = BatteryInfo { level: Some(60), charging: false };
    s
}

#[test]
fn anc_payload_bytes() {
    let p = build_anc_payload(3, 7, 0x0d);
    assert_eq!(
        p,
        vec![0x04, 0x00, 0x04, 0x00, 0x0a, 0x00, 0x0d, 0x03, 0x07, 0x01, 0, 0, 0, 0, 0, 0]
    );
}

#[test]
fn fixed_frames() {
    assert_eq!(HANDSHAKE.len(), 16);
    assert_eq!(&HANDSHAKE[..7], &[0x00, 0x00, 0x04, 0x00, 0x01, 0x00, 0x02]);
    assert_eq!(REQUEST_NOTIF, [0x04, 0x00, 0x04, 0x00, 0x0f, 0x00, 0xff, 0xff, 0xff, 0xff]);
}

#[test]
fn battery_report_sets_all_components() {
    let mut s = AirPodsState::default();
    let data = [
        0x04, 0x00, 0x04, 0x00, 0x04, 0x00, 0x03, //
        0x02, 0x01, 0x55, 0x00, 0x01, //
        0x01, 0x01, 0x5a, 0x01, 0x01, //
        0x08, 0x01, 0x64, 0x03, 0x01, 0x00,
    ];
    assert!(parse_data(&data, &mut s));
    assert_eq!(s.right, BatteryInfo { level: Some(85), charging: false });
    assert_eq!(s.left, BatteryInfo { level: Some(90), charging: true });
    assert_eq!(s.case, BatteryInfo { level: Some(100), charging: true });
    // The same report again changes nothing.
    assert!(!parse_data(&data, &mut s));
}

#[test]
fn battery_report_after_other_bytes() {
    let mut s = AirPodsState::default();
    let data = [
        0xaa, 0xbb, 0x04, 0x00, 0x04, 0x00, 0x04, 0x00, 0x01, //
        0x04, 0x01, 0x20, 0x00, 0x01, 0x00,
    ];
    assert!(parse_data(&data, &mut s));
    assert_eq!(s.left, BatteryInfo { level: Some(32), charging: false });
}

#[test]
fn level_above_hundred_is_unknown() {
    let mut s = both_buds();
    let data = [0x04, 0x00, 0x04, 0x00, 0x04, 0x00, 0x01, 0x01, 0x01, 0xff, 0x01, 0x01, 0x00];
    assert!(parse_data(&data, &mut s));
    assert_eq!(s.left, BatteryInfo { level: None, charging: true });
}

#[test]
fn records_that_do_not_fit_are_skipped() {
    let mut s = AirPodsState::default();
    // Announces 3 records, only one fits whole (the last needs one byte more).
    let data = [
        0x04, 0x00, 0x04, 0x00, 0x04, 0x00, 0x03, //
        0x02, 0x01, 0x30, 0x00, 0x01, //
        0x01, 0x01, 0x40, 0x00,
    ];
    assert!(parse_data(&data, &mut s));
    assert_eq!(s.right.level, Some(48));
    assert_eq!(s.left.level, None);
}

#[test]
fn unknown_component_is_ignored() {
    let mut s = AirPodsState::default();
    let data = [0x04, 0x00, 0x04, 0x00, 0x04, 0x00, 0x01, 0x10, 0x01, 0x30, 0x00, 0x01, 0x00];
    assert!(!parse_data(&data, &mut s));
    assert_eq!(s.left.level, None);
}

#[test]
fn noise_control_message_sets_mode_and_seq() {
    let mut s = both_buds();
    let data = [0x04, 0x00, 0x04, 0x00, 0x09, 0x00, 0x0d, 0x02, 0x05, 0x00, 0x00];
    assert!(parse_data(&data, &mut s));
    assert_eq!(s.anc_mode.as_deref(), Some("Noise Cancellation"));
    assert_eq!(s.seq, 6);
    assert!(!parse_data(&data, &mut s));
}

#[test]
fn every_mode_name() {
    let names = ["Off", "Noise Cancellation", "Transparency", "Adaptive"];
    for (i, name) in names.iter().enumerate() {
        let mut s = both_buds();
        let data = [0x04, 0x00, 0x04, 0x00, 0x09, 0x00, 0x0e, (i + 1) as u8, 0x00, 0x00, 0x00];
        assert!(parse_data(&data, &mut s));
        assert_eq!(s.anc_mode.as_deref(), Some(*name));
    }
}

#[test]
fn unknown_mode_still_takes_seq() {
    let mut s = both_buds();
    s.anc_mode = Some("Off".to_string());
    let data = [0x04, 0x00, 0x04, 0x00, 0x09, 0x00, 0x01, 0x09, 0x20, 0x00, 0x00];
    assert!(!parse_data(&data, &mut s));
    assert_eq!(s.anc_mode.as_deref(), Some("Off"));
    assert_eq!(s.seq, 0x21);
}

#[test]
fn other_opcode_is_ignored() {
    let mut s = both_buds();
    let data = [0x04, 0x00, 0x04, 0x00, 0x09, 0x00, 0x0f, 0x02, 0x05, 0x00, 0x00];
    assert!(!parse_data(&data, &mut s));
    assert_eq!(s.anc_mode, None);
    assert_eq!(s.seq, 1);
}

#[test]
fn sequence_number_wraps() {
    let mut s = both_buds();
    let data = [0x04, 0x00, 0x04, 0x00, 0x09, 0x00, 0x0d, 0x01, 0xff, 0x00, 0x00];
    parse_data(&data, &mut s);
    assert_eq!(s.seq, 0);
}

#[test]
fn short_chunk_has_no_noise_control_message() {
    let mut s = both_buds();
    // Ten bytes: one position would be scanned, but the message needs nine more.
    let data = [0x04, 0x00, 0x04, 0x00, 0x09, 0x00, 0x0d, 0x02, 0x05];
    assert!(!parse_data(&data, &mut s));
    assert_eq!(s.anc_mode, None);
}

#[test]
fn missing_bud_forgets_mode() {
    let mut s = AirPodsState::default();
    s.left = BatteryInfo { level: Some(50), charging: false };
    s.anc_mode = Some("Transparency".to_string());
    let data = [0x04, 0x00, 0x04, 0x00, 0x09, 0x00, 0x0d, 0x02, 0x05, 0x00, 0x00];
    assert!(parse_data(&data, &mut s));
    assert_eq!(s.anc_mode, None);
    assert_eq!(s.seq, 1);
}

#[test]
fn empty_chunk_changes_nothing() {
    let mut s = both_buds();
    assert!(!parse_data(&[], &mut s));
    assert_eq!(s.left.level, Some(50));
}

#[test]
fn command_echo_round_trip() {
    for mode in 1u8..=4 {
        for op in [0x01u8, 0x0d, 0x0e] {
            let mut s = both_buds();
            let p = build_anc_payload(mode, 41, op);
            assert!(parse_data(&p, &mut s));
            assert_eq!(s.seq, 42);
            assert_eq!(s.left.level, Some(50));
            assert!(!parse_data(&p, &mut s));
        }
    }
    let mut s = both_buds();
    let p = build_anc_payload(2, 3, 0x0d);
    parse_data(&p, &mut s);
    assert_eq!(s.anc_mode.as_deref(), Some("Noise Cancellation"));
}

#[test]
fn parse_keeps_identity() {
    let mut s = both_buds();
    s.device_name = "Kitchen".to_string();
    s.session_fd = Some(7);
    s.connected = true;
    s.last_hash = "{}".to_string();
    let data = [
        0x04, 0x00, 0x04, 0x00, 0x04, 0x00, 0x01, 0x01, 0x01, 0x10, 0x00, 0x01, //
        0x04, 0x00, 0x04, 0x00, 0x09, 0x00, 0x0d, 0x03, 0x05, 0x00, 0x00,
    ];
    assert!(parse_data(&data, &mut s));
    assert_eq!(s.device_name, "Kitchen");
    assert_eq!(s.session_fd, Some(7));
    assert!(s.connected);
    assert_eq!(s.last_hash, "{}");
    assert_eq!(s.anc_mode.as_deref(), Some("Transparency"));
}

#[test]
fn levels_stay_percentages() {
    let mut s = AirPodsState::default();
    for raw in [0u8, 50, 100, 101, 200, 255] {
        let data = [0x04, 0x00, 0x04, 0x00, 0x04, 0x00, 0x01, 0x08, 0x01, raw, 0x00, 0x01];
        parse_data(&data, &mut s);
        if let Some(l) = s.case.level {
            assert!(l <= 100);
        }
    }
}

#[test]
fn quiet_data_changes_only_seq() {
    let mut s = both_buds();
    s.anc_mode = Some("Off".to_string());
    let before = s.clone();
    let data = [0x04, 0x00, 0x04, 0x00, 0x09, 0x00, 0x01, 0x01, 0x30, 0x00, 0x00];
    assert!(!parse_data(&data, &mut s));
    assert_eq!(s.seq, 0x31);
    assert_eq!(s.anc_mode, before.anc_mode);
    assert_eq!(s.left, before.left);
    assert_eq!(s.right, before.right);
    assert_eq!(s.case, before.case);
}

#[test]
fn last_battery_record_wins() {
    let mut s = AirPodsState::default();
    let data = [
        0x04, 0x00, 0x04, 0x00, 0x04, 0x00, 0x03, //
        0x01, 0x01, 0x10, 0x00, 0x01, //
        0x02, 0x01, 0x20, 0x00, 0x01, //
        0x04, 0x01, 0x30, 0x01, 0x01, 0x00,
    ];
    parse_data(&data, &mut s);
    assert_eq!(s.left, BatteryInfo { level: Some(0x30), charging: true });
    assert_eq!(s.right.level, Some(0x20));
    // The left bud changes back and forth each time: a change is reported
    // again, but the state after is the same.
    let before = s.clone();
    assert!(parse_data(&data, &mut s));
    assert_eq!(s.left, before.left);
    assert_eq!(s.right, before.right);
}

#[test]
fn last_noise_control_message_wins() {
    let mut s = both_buds();
    let data = [
        0x04, 0x00, 0x04, 0x00, 0x09, 0x00, 0x0d, 0x02, 0x05, 0x00, 0x00, //
        0x04, 0x00, 0x04, 0x00, 0x09, 0x00, 0x01, 0x03, 0x07, 0x00, 0x00, //
        0x04, 0x00, 0x04, 0x00, 0x09, 0x00, 0x0e, 0x09, 0x10, 0x00, 0x00,
    ];
    assert!(parse_data(&data, &mut s));
    assert_eq!(s.anc_mode.as_deref(), Some("Transparency"));
    assert_eq!(s.seq, 0x11);
}

#[test]
fn parsing_twice_is_parsing_once() {
    let data = [
        0x04, 0x00, 0x04, 0x00, 0x04, 0x00, 0x02, //
        0x01, 0x01, 0x50, 0x00, 0x01, //
        0x02, 0x01, 0x51, 0x01, 0x01, //
        0x04, 0x00, 0x04, 0x00, 0x09, 0x00, 0x0d, 0x04, 0x05, 0x00, 0x00,
    ];
    let mut s = AirPodsState::default();
    assert!(parse_data(&data, &mut s));
    let once = s.clone();
    assert!(!parse_data(&data, &mut s));
    assert_eq!(s.left, once.left);
    assert_eq!(s.right, once.right);
    assert_eq!(s.anc_mode, once.anc_mode);
    assert_eq!(s.anc_mode.as_deref(), Some("Adaptive"));
    assert_eq!(s.seq, once.seq);
}
