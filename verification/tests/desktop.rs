use qcy::app_core::{BatterySnapshot, DeviceSnapshot, SimpleNoise};
use qcy::desktop::{
    append_log, codec_text, snapshot_view, is_terminal_error, noise_index, should_reconcile_game_mode, snapshot_status_line,
    toggle_for_message, ToggleKind, TransportBackend, LOG_LIMIT,
};
use qcy::host::CodecInfo;

/* auto-game reconcile is edge-triggered */

#[test]
fn game_mode_reconcile_fires_only_on_the_connect_edge() {
    // disconnected -> connected: reconcile.
    assert!(should_reconcile_game_mode(false, true, true, true));
    // connected -> connected (keepalive/noise snapshots): never.
    assert!(!should_reconcile_game_mode(true, true, true, true));
    // disconnected -> disconnected: never.
    assert!(!should_reconcile_game_mode(false, false, true, true));
    // connected -> disconnected: never (desired-off never forces).
    assert!(!should_reconcile_game_mode(true, false, true, true));
    // Feature disabled or desired-off: never.
    assert!(!should_reconcile_game_mode(false, true, false, true));
    assert!(!should_reconcile_game_mode(false, true, true, false));
}

#[test]
fn game_mode_write_count_is_pinned_across_keepalive_snapshots() {
    // Simulate the resident-session event stream: one connect followed by
    // many connected snapshots (30 s keepalive refreshes). Exactly one
    // reconcile write may happen — the old behavior wrote on every
    // snapshot.
    let snapshots = [true, true, true, true, true, true, true, true];
    let mut prev_connected = false;
    let mut writes = 0;
    for connected in snapshots {
        if should_reconcile_game_mode(prev_connected, connected, true, true) {
            writes += 1;
        }
        prev_connected = connected;
    }
    assert_eq!(
        writes, 1,
        "one write on the connect edge, none per keepalive"
    );
}

/* reconnecting status line survives snapshots */

#[test]
fn snapshot_status_line_is_suppressed_while_reconnecting() {
    assert_eq!(snapshot_status_line(false, true), Some("Connected."));
    assert_eq!(snapshot_status_line(false, false), Some("Disconnected."));
    // While the supervisor re-bootstraps, StateChanged must not clobber
    // the recovery line — neither the connected=false snapshot right
    // after SessionLost nor a later restored snapshot.
    assert_eq!(snapshot_status_line(true, false), None);
    assert_eq!(snapshot_status_line(true, true), None);
}

#[test]
fn rebootstrap_errors_are_not_terminal() {
    assert!(!is_terminal_error(
        "re-bootstrap: connect failed: out of range"
    ));
    assert!(is_terminal_error("battery read failed: disconnected"));
    assert!(is_terminal_error("link state check failed: bus error"));
}

/* toggle rollback message routing */

#[test]
fn toggle_messages_are_routed_by_feature_prefix() {
    assert_eq!(
        toggle_for_message("game mode: disconnected"),
        Some(ToggleKind::GameMode)
    );
    assert_eq!(
        toggle_for_message("sleep mode: device is read-only"),
        Some(ToggleKind::SleepMode)
    );
    assert_eq!(
        toggle_for_message("in-ear detection: timeout"),
        Some(ToggleKind::InEarDetection)
    );
    // Success Infos carry the same prefix.
    assert_eq!(
        toggle_for_message("game mode on"),
        Some(ToggleKind::GameMode)
    );
    // Unrelated events route nowhere.
    assert_eq!(toggle_for_message("noise mode set to Anc"), None);
    assert_eq!(toggle_for_message("battery read failed"), None);
}

/* the UI must say which transport is actually running */

#[test]
fn transport_backend_badge_and_status_are_honest() {
    let bluez = TransportBackend::BlueZ;
    assert_eq!(bluez.badge(), "BlueZ transport");
    assert_eq!(bluez.label(), "bluez");
    assert!(!bluez.is_mock());
    assert!(bluez.status_line().starts_with("BlueZ transport"));

    let explicit = TransportBackend::MockExplicit;
    assert_eq!(explicit.badge(), "MOCK transport (development)");
    assert_eq!(explicit.label(), "mock");
    assert!(explicit.is_mock());

    // The fallback must be distinguishable from both: mock semantics,
    // but a badge/status that says WHY and never claims BlueZ.
    let fallback = TransportBackend::MockFallback {
        reason: "no system bus".into(),
    };
    assert_eq!(fallback.badge(), "MOCK transport (BlueZ unavailable)");
    assert_eq!(fallback.label(), "mock");
    assert!(fallback.is_mock());
    let status = fallback.status_line();
    assert!(status.contains("BlueZ unavailable"), "{status}");
    assert!(status.contains("no system bus"), "{status}");
    assert!(status.contains("simulated"), "{status}");
}


/* Exact values */

#[test]
fn codec_text_lists_the_known_facts() {
    let info = CodecInfo {
        codec: Some("aac".into()),
        sample_rate_hz: Some(44100),
        profile: Some("a2dp-sink".into()),
    };
    assert_eq!(codec_text(&info), "aac \u{00b7} 44100 Hz \u{00b7} a2dp-sink");
    let rate_only = CodecInfo {
        codec: None,
        sample_rate_hz: Some(48000),
        profile: None,
    };
    assert_eq!(codec_text(&rate_only), "48000 Hz");
    assert_eq!(
        codec_text(&CodecInfo::unknown()),
        "unknown (no active A2DP transport exposed by BlueZ)"
    );
}

#[test]
fn noise_modes_have_stable_ui_indices() {
    assert_eq!(noise_index(None), -1);
    assert_eq!(noise_index(Some(SimpleNoise::Off)), 0);
    assert_eq!(noise_index(Some(SimpleNoise::Transparency)), 6);
}

#[test]
fn log_append_stamps_the_line() {
    assert_eq!(append_log("", "[+5s]", "hello"), "[+5s] hello");
    assert_eq!(append_log("a\nb\n", "[+1s]", "x"), "a\nb\n[+1s] x");
    assert_eq!(append_log("a\r\nb", "[+1s]", "x"), "a\nb\n[+1s] x");
    assert_eq!(append_log("a\n\nb", "s", "x"), "a\n\nb\ns x");
}

#[test]
fn log_keeps_only_the_last_two_hundred_lines() {
    let current: Vec<String> = (0..200).map(|i| format!("l{i}")).collect();
    let out = append_log(&current.join("\n"), "s", "new");
    let lines: Vec<&str> = out.lines().collect();
    assert_eq!(lines.len(), LOG_LIMIT);
    assert_eq!(lines[0], "l1");
    assert_eq!(lines[199], "s new");
}

#[test]
fn snapshot_view_shows_dashes_for_unknown_values() {
    let empty = DeviceSnapshot::default();
    let v = snapshot_view(&empty);
    assert!(!v.connected);
    assert_eq!(v.device_name, "\u{2014}");
    assert_eq!(v.device_address, "\u{2014}");
    assert_eq!(v.rssi, "\u{2014}");
    assert_eq!(v.firmware, "\u{2014}");
    assert!(v.battery.is_none());
    assert_eq!(v.noise_mode, -1);

    let mut s = DeviceSnapshot::default();
    s.connected = true;
    s.name = "MeloBuds Pro".to_string();
    s.address = "84:AC:60:62:69:DA".to_string();
    s.rssi = Some(-57);
    s.firmware = Some("1.2.3".to_string());
    s.battery = Some(BatterySnapshot { left: 80, right: 75, case: 40, charging_left: false, charging_right: true, charging_case: false });
    s.noise = Some(SimpleNoise::Transparency);
    let v = snapshot_view(&s);
    assert_eq!(v.device_name, "MeloBuds Pro");
    assert_eq!(v.rssi, "-57 dBm");
    assert_eq!(v.firmware, "1.2.3");
    assert_eq!(v.battery.unwrap().right, 75);
    assert_eq!(v.noise_mode, 6);
}
