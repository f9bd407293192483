use airpods_bridge::control::handle_command;
use airpods_bridge::text::trim_line;
use airpods_bridge::protocol::{build_anc_payload, parse_data};
use airpods_bridge::state::{read_outcome, AirPodsState, BatteryInfo, Heartbeat, ReadOutcome};
use airpods_bridge::sysfs::sysfs_metrics;

#[test]
fn default_state() {
    let s = AirPodsState::default();
    assert_eq!(s.device_name, "AirPods");
    assert_eq!(s.model_name, "Unknown");
    assert_eq!(s.anc_mode, None);
    assert!(!s.connected);
    assert_eq!(s.left, BatteryInfo { level: None, charging: false });
    assert_eq!(s.session_fd, None);
    assert_eq!(s.seq, 1);
    assert_eq!(s.last_hash, "");
    assert!(!s.debug_mode);
}

#[test]
fn json_printed_once() {
    let mut s = AirPodsState::default();
    assert!(s.record_json("{\"a\":1}".to_string()));
    assert!(!s.record_json("{\"a\":1}".to_string()));
    assert!(s.record_json("{\"a\":2}".to_string()));
    assert_eq!(s.last_hash, "{\"a\":2}");
}

#[test]
fn session_lifecycle_and_heartbeat() {
    let mut s = AirPodsState::default();
    assert_eq!(s.heartbeat(), Heartbeat::Stop);
    s.mark_connected();
    assert_eq!(s.heartbeat(), Heartbeat::Wait);
    s.begin_session(9);
    assert_eq!(s.heartbeat(), Heartbeat::Send(9));
    s.end_session();
    assert!(!s.connected);
    assert_eq!(s.session_fd, None);
    assert_eq!(s.heartbeat(), Heartbeat::Stop);
}

#[test]
fn read_outcomes() {
    assert_eq!(read_outcome(12, false), ReadOutcome::Received(12));
    assert_eq!(read_outcome(0, true), ReadOutcome::Finished);
    assert_eq!(read_outcome(-1, true), ReadOutcome::Retry);
    assert_eq!(read_outcome(-1, false), ReadOutcome::Finished);
}

#[test]
fn identity_is_set() {
    let mut s = AirPodsState::default();
    s.set_identity("Kim's AirPods".to_string(), "AirPods Max".to_string());
    assert_eq!(s.device_name, "Kim's AirPods");
    assert_eq!(s.model_name, "AirPods Max");
}

fn ready(mode: &str, seq: u8) -> AirPodsState {
    let mut s = AirPodsState::default();
    s.session_fd = Some(5);
    s.anc_mode = Some(mode.to_string());
    s.seq = seq;
    s.left.level = Some(80);
    s.right.level = Some(80);
    s
}

#[test]
fn cycle_command_plans_next_mode() {
    let cases = [("Off", 2u8), ("Noise Cancellation", 3), ("Transparency", 1), ("Adaptive", 2)];
    for (mode, target) in cases {
        let s = ready(mode, 10);
        let plan = handle_command("cycle", &s).expect("a plan");
        assert_eq!(plan.fd, 5);
        assert_eq!(plan.payloads, vec![build_anc_payload(target, 10, 0x0d), build_anc_payload(target, 10, 0x01)]);
        assert_eq!(plan.next_seq, 11);
        assert!(!plan.single_earbud);
    }
}

#[test]
fn cycle_command_is_trimmed() {
    let s = ready("Off", 255);
    let plan = handle_command(trim_line("  cycle\n"), &s).expect("a plan");
    assert_eq!(plan.next_seq, 0);
    assert!(handle_command("  cycle\n", &s).is_none());
}

#[test]
fn trim_removes_unicode_white_space() {
    assert_eq!(trim_line("cycle\n"), "cycle");
    assert_eq!(trim_line("\u{3000}\t cy cle\u{85}\u{2029}"), "cy cle");
    assert_eq!(trim_line(" \r\n "), "");
    assert_eq!(trim_line("\u{200b}x"), "\u{200b}x");
    assert_eq!(trim_line("é "), "é");
}

#[test]
fn other_commands_are_ignored() {
    let s = ready("Off", 1);
    assert!(handle_command("cycles", &s).is_none());
    assert!(handle_command("", &s).is_none());
    assert!(handle_command("CYCLE", &s).is_none());
}

#[test]
fn cycle_needs_session_and_mode() {
    let mut s = ready("Off", 1);
    s.session_fd = None;
    assert!(handle_command("cycle", &s).is_none());
    let mut s = ready("Off", 1);
    s.anc_mode = None;
    assert!(handle_command("cycle", &s).is_none());
}

#[test]
fn single_earbud_is_flagged() {
    let mut s = ready("Off", 1);
    s.right.level = None;
    assert!(handle_command("cycle", &s).unwrap().single_earbud);
}

#[test]
fn cycle_echo_moves_through_modes() {
    let order = ["Off", "Noise Cancellation", "Transparency", "Off"];
    let mut s = ready("Off", 3);
    for next in &order[1..] {
        let plan = handle_command("cycle", &s).unwrap();
        for p in &plan.payloads {
            parse_data(p, &mut s);
            assert_eq!(s.anc_mode.as_deref(), Some(*next));
        }
    }
}

#[test]
fn status_files() {
    let mut s = AirPodsState::default();
    s.connected = true;
    s.model_name = "AirPods Pro (Gen 2)".to_string();
    s.left = BatteryInfo { level: Some(100), charging: true };
    s.right = BatteryInfo { level: Some(7), charging: false };
    s.case = BatteryInfo { level: Some(42), charging: true };
    let m = sysfs_metrics(&s);
    let got: Vec<(&str, String)> =
        m.iter().map(|e| (e.name, String::from_utf8(e.content.clone()).unwrap())).collect();
    assert_eq!(
        got,
        vec![
            ("connected", "true".to_string()),
            ("model_name", "AirPods Pro (Gen 2)".to_string()),
            ("device_name", "AirPods".to_string()),
            ("anc_mode", "N/A".to_string()),
            ("left_capacity", "100".to_string()),
            ("left_status", "Charging".to_string()),
            ("right_capacity", "7".to_string()),
            ("right_status", "Discharging".to_string()),
            ("case_capacity", "42".to_string()),
        ]
    );
}

#[test]
fn status_files_of_unknown_levels() {
    let mut s = AirPodsState::default();
    s.anc_mode = Some("Adaptive".to_string());
    let m = sysfs_metrics(&s);
    assert_eq!(m[0].content, b"false".to_vec());
    assert_eq!(m[3].content, b"Adaptive".to_vec());
    assert_eq!(m[4].content, b"0".to_vec());
    assert_eq!(m[8].content, b"0".to_vec());
}
