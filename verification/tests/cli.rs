use qcy::app_core::trace_value_is_truthy;
use qcy::cli::{
    anc_scene, battery_label, expect_no_more_args, firmware_label, parse_opts, pick_device,
    plan_args, parse_u8, resolve_scanned, checked_channel, media_subcommand, scan_line,
    system_eq_subcommand, CliCommand, MediaSub, SystemEqSub,
};
use qcy::host::MediaAction;
use qcy::transport::{DiscoveredDevice, TransportError};

fn args(values: &[&str]) -> Vec<String> {
    values.iter().map(|s| s.to_string()).collect()
}

/* flags are accepted anywhere on the command line */

#[test]
fn flags_before_the_command_word_are_parsed() {
    let (opts, rest) =
        parse_opts(args(&["--bluez", "--device", "AA:BB", "anc", "off"]))
            .expect("parse succeeds");
    assert!(opts.bluez);
    assert_eq!(opts.device.as_deref(), Some("AA:BB"));
    assert_eq!(rest, vec!["anc", "off"]);
}

#[test]
fn flags_after_the_command_word_are_honored_not_ignored() {
    // The audit case: `521cctl anc off --bluez` used to parse `--bluez`
    // as a positional argument and silently run on mock.
    let (opts, rest) =
        parse_opts(args(&["anc", "off", "--bluez"])).expect("parse succeeds");
    assert!(
        opts.bluez,
        "--bluez after the command word must select the BlueZ backend"
    );
    assert_eq!(rest, vec!["anc", "off"]);
}

#[test]
fn flags_interleaved_with_positionals_are_honored() {
    let (opts, rest) = parse_opts(args(&["status", "--adapter", "hci1", "--attest", "--channel", "7"]))
    .expect("parse succeeds");
    assert_eq!(opts.adapter, "hci1");
    assert!(opts.attest);
    assert_eq!(opts.channel, Some(7));
    assert_eq!(rest, vec!["status"]);
}

#[test]
fn last_backend_flag_wins() {
    let (opts, _) =
        parse_opts(args(&["--bluez", "--mock", "scan"])).expect("parse succeeds");
    assert!(!opts.bluez);
    let (opts, _) =
        parse_opts(args(&["--mock", "--bluez", "scan"])).expect("parse succeeds");
    assert!(opts.bluez);
}

/* unknown or malformed arguments are hard errors */

#[test]
fn unknown_flag_is_a_clear_error() {
    let err = parse_opts(args(&["anc", "off", "--bluetoooth"])).unwrap_err();
    assert!(err.contains("--bluetoooth"), "unexpected: {err}");
    assert!(err.contains("unknown flag"));
}

#[test]
fn unknown_short_flag_is_a_clear_error() {
    let err = parse_opts(args(&["-x", "scan"])).unwrap_err();
    assert!(err.contains("-x"), "unexpected: {err}");
}

#[test]
fn missing_flag_value_is_an_error() {
    for flag in ["--adapter", "--device", "--channel"] {
        let err = parse_opts(args(&["scan", flag])).unwrap_err();
        assert!(err.contains(flag), "unexpected: {err}");
        assert!(err.contains("requires a value"), "unexpected: {err}");
    }
}

#[test]
fn flag_followed_by_another_flag_is_an_error() {
    let err = parse_opts(args(&["--device", "--bluez", "scan"])).unwrap_err();
    assert!(err.contains("--device"), "unexpected: {err}");
}

#[test]
fn unparseable_channel_is_an_error_not_a_silent_default() {
    let err = parse_opts(args(&["--channel", "seven", "scan"])).unwrap_err();
    assert!(err.contains("--channel"), "unexpected: {err}");
    assert!(err.contains("seven"), "unexpected: {err}");
}

#[test]
fn help_flag_sets_help_from_any_position() {
    let (opts, _) = parse_opts(args(&["scan", "--help"])).expect("parse");
    assert!(opts.help);
    let (opts, _) = parse_opts(args(&["-h"])).expect("parse");
    assert!(opts.help);
}

/* the anc command maps to the validated 0x17 scene table */

#[test]
fn anc_scene_matches_the_validated_anc_setting_table() {
    // Same payloads as qcy_app::core::SimpleNoise::scene, pinned by
    // core_behavior.rs::noise_mode_maps_to_the_validated_anc_setting_table.
    let cases: &[(&str, [u8; 3])] = &[
        ("off", [0x02, 0x00, 0x00]),
        ("anc", [0x01, 0x01, 0x02]),
        ("indoor", [0x01, 0x01, 0x02]),
        ("commuting", [0x01, 0x02, 0x02]),
        ("noisy", [0x01, 0x03, 0x02]),
        ("wind", [0x01, 0x04, 0x02]),
        ("adaptive", [0x01, 0x05, 0x02]),
        ("transparency", [0x03, 0x02, 0x04]),
    ];
    for (mode, payload) in cases {
        let (label, scene) = anc_scene(mode).unwrap_or_else(|| panic!("{mode} maps"));
        assert_eq!(scene, *payload, "{mode} payload");
        assert!(!label.is_empty());
    }
    // The legacy CLI spelling keeps working and maps to indoor ANC.
    let (label, scene) = anc_scene("on").expect("on maps");
    assert_eq!(label, "anc");
    assert_eq!(scene, [0x01, 0x01, 0x02]);
}

#[test]
fn anc_scene_rejects_unknown_modes() {
    assert_eq!(anc_scene("loud"), None);
    assert_eq!(anc_scene(""), None);
}

/* write commands require explicit intent */

#[test]
fn bare_anc_is_an_error_asking_for_an_explicit_mode() {
    let err = plan_args(args(&["anc"])).unwrap_err();
    let TransportError::InvalidArgument(message) = err else {
        panic!("expected InvalidArgument, got {err:?}")
    };
    assert!(
        message.contains("anc requires an explicit mode"),
        "{message}"
    );
}

#[test]
fn unknown_anc_mode_is_an_error_before_any_transport_use() {
    let err = plan_args(args(&["anc", "loud"])).unwrap_err();
    let TransportError::InvalidArgument(message) = err else {
        panic!("expected InvalidArgument, got {err:?}")
    };
    assert!(message.contains("unknown anc mode"), "{message}");
}

#[test]
fn bare_game_mode_is_an_error_asking_for_explicit_intent() {
    let err = plan_args(args(&["game-mode"])).unwrap_err();
    let TransportError::InvalidArgument(message) = err else {
        panic!("expected InvalidArgument, got {err:?}")
    };
    assert!(
        message.contains("game-mode requires an explicit value"),
        "{message}"
    );
}

#[test]
fn unknown_game_mode_value_is_an_error() {
    let err = plan_args(args(&["game-mode", "maybe"])).unwrap_err();
    let TransportError::InvalidArgument(message) = err else {
        panic!("expected InvalidArgument, got {err:?}")
    };
    assert!(message.contains("unknown game-mode value"), "{message}");
}

#[test]
fn unexpected_extra_arguments_are_rejected() {
    let err = plan_args(args(&["scan", "leftover"])).unwrap_err();
    let TransportError::InvalidArgument(message) = err else {
        panic!("expected InvalidArgument, got {err:?}")
    };
    assert!(message.contains("unexpected argument"), "{message}");
    assert!(message.contains("leftover"), "{message}");

    let err = plan_args(args(&["anc", "off", "extra"])).unwrap_err();
    assert!(matches!(err, TransportError::InvalidArgument(_)));
}

#[test]
fn unknown_command_is_still_an_error() {
    let err = plan_args(args(&["frobnicate"])).unwrap_err();
    assert!(matches!(err, TransportError::InvalidArgument(_)));
}


#[test]
fn qcy_core_trace_is_truthy_parsed_not_mere_presence() {
    assert!(trace_value_is_truthy("1"));
    assert!(trace_value_is_truthy("true"));
    assert!(trace_value_is_truthy("TRUE"));
    assert!(trace_value_is_truthy("Yes"));
    assert!(trace_value_is_truthy(" yes "));
    assert!(!trace_value_is_truthy("0"));
    assert!(!trace_value_is_truthy("false"));
    assert!(!trace_value_is_truthy("no"));
    assert!(!trace_value_is_truthy(""));
    assert!(!trace_value_is_truthy("  "));
}

/* Exact values and edge cases */

#[test]
fn planned_commands_carry_their_arguments() {
    let (opts, cmd) = plan_args(args(&["anc", "on", "--spp", "--channel", "3"])).unwrap();
    assert!(opts.spp);
    assert_eq!(opts.channel, Some(3));
    assert_eq!(
        cmd,
        CliCommand::Anc {
            label: "anc",
            scene: [0x01, 0x01, 0x02]
        }
    );
    let (_, cmd) = plan_args(args(&["connect", "AA:BB"])).unwrap();
    assert_eq!(
        cmd,
        CliCommand::Connect {
            wanted: Some("AA:BB".to_string())
        }
    );
    let (_, cmd) = plan_args(args(&["battery"])).unwrap();
    assert_eq!(cmd, CliCommand::Status { firmware: false });
    let (_, cmd) = plan_args(args(&["game-mode", "off"])).unwrap();
    assert_eq!(cmd, CliCommand::GameMode(false));
    let (_, cmd) = plan_args(args(&[])).unwrap();
    assert_eq!(cmd, CliCommand::Help);
    let (_, cmd) = plan_args(args(&["system-eq", "on", "1.5", "2"])).unwrap();
    assert_eq!(
        cmd,
        CliCommand::SystemEq {
            sub: "on".to_string(),
            gains: vec!["1.5".to_string(), "2".to_string()]
        }
    );
}

#[test]
fn usage_errors_have_exact_messages() {
    let err = parse_opts(args(&["--channel", "256"])).unwrap_err();
    assert_eq!(err, "--channel: not a number: `256` (expected 1-30)");
    let err = parse_opts(args(&["scan", "--device"])).unwrap_err();
    assert_eq!(err, "--device requires a value (see `521cctl help`)");
    let err = parse_opts(args(&["--adapter", "--mock"])).unwrap_err();
    assert_eq!(err, "--adapter requires a value; got another flag (`--mock`)");
    assert_eq!(
        expect_no_more_args("scan", &args(&["x", "y"])),
        Err("unexpected argument for `scan`: `x` (see `521cctl help`)".to_string())
    );
    assert_eq!(expect_no_more_args("scan", &[]), Ok(()));
}

#[test]
fn channel_numbers_parse_like_u8() {
    assert_eq!(parse_u8("7"), Some(7));
    assert_eq!(parse_u8("+30"), Some(30));
    assert_eq!(parse_u8("007"), Some(7));
    assert_eq!(parse_u8("255"), Some(255));
    assert_eq!(parse_u8("256"), None);
    assert_eq!(parse_u8("-1"), None);
    assert_eq!(parse_u8(""), None);
    assert_eq!(parse_u8("+"), None);
    assert_eq!(parse_u8("1 "), None);
}

#[test]
fn readout_labels_are_exact() {
    assert_eq!(battery_label(&[0x52, 0xD0, 0x5E]), "L 82%  R 80%  case 94%");
    assert_eq!(battery_label(&[0x52]), "L 82%  R --  case --");
    assert_eq!(firmware_label(&[1, 4, 2, 9]), "1.4.2");
    assert_eq!(firmware_label(&[1, 4]), "--");
}

#[test]
fn pick_device_matches_address_case_insensitively_or_name() {
    let list = vec![
        DiscoveredDevice {
            address: "AA:BB:CC:DD:EE:FF".into(),
            name: "QCY T20".into(),
            rssi: None,
            model_known: false,
        },
        DiscoveredDevice {
            address: "11:22:33:44:55:66".into(),
            name: "QCY MeloBuds Pro".into(),
            rssi: Some(-50),
            model_known: true,
        },
    ];
    assert_eq!(
        pick_device(&list, Some("aa:bb:cc:dd:ee:ff")).unwrap().name,
        "QCY T20"
    );
    assert_eq!(
        pick_device(&list, Some("QCY MeloBuds Pro")).unwrap().address,
        "11:22:33:44:55:66"
    );
    assert_eq!(pick_device(&list, None).unwrap().name, "QCY T20");
    assert_eq!(
        pick_device(&list, Some("nope")),
        Err(TransportError::NotFound("nope".into()))
    );
    assert_eq!(
        pick_device(&[], None),
        Err(TransportError::NotFound("no QCY device discovered".into()))
    );
}

#[test]
fn an_empty_scan_takes_the_explicit_address_read_only() {
    let d = resolve_scanned(&[], Some("84-ac-60-62-69-da")).unwrap();
    assert_eq!(d.address, "84:AC:60:62:69:DA");
    assert_eq!(d.name, "paired device (no advertisement)");
    assert!(d.rssi.is_none());
    assert!(!d.model_known);
    assert_eq!(
        resolve_scanned(&[], None),
        Err(TransportError::NotFound("no QCY device discovered; pass --device <addr>".to_string()))
    );
}

#[test]
fn a_non_empty_scan_is_picked_from() {
    let list = vec![
        DiscoveredDevice { address: "AA:00".to_string(), name: "QCY-A".to_string(), rssi: Some(-60), model_known: false },
        DiscoveredDevice { address: "BB:00".to_string(), name: "MeloBuds Pro".to_string(), rssi: Some(-50), model_known: true },
    ];
    assert_eq!(resolve_scanned(&list, None).unwrap().address, "AA:00");
    assert_eq!(resolve_scanned(&list, Some("bb:00")).unwrap().name, "MeloBuds Pro");
    assert_eq!(resolve_scanned(&list, Some("CC:00")), Err(TransportError::NotFound("CC:00".to_string())));
}

#[test]
fn channel_overrides_are_range_checked() {
    assert_eq!(checked_channel(1), Ok(1));
    assert_eq!(checked_channel(30), Ok(30));
    assert_eq!(
        checked_channel(0),
        Err(TransportError::InvalidArgument("RFCOMM channel out of range: 0".to_string()))
    );
    assert_eq!(
        checked_channel(31),
        Err(TransportError::InvalidArgument("RFCOMM channel out of range: 31".to_string()))
    );
}

#[test]
fn media_and_system_eq_subcommands() {
    assert_eq!(media_subcommand("status"), Ok(MediaSub::Status));
    assert_eq!(media_subcommand("prev"), Ok(MediaSub::Action(MediaAction::Previous)));
    assert_eq!(media_subcommand("previous"), Ok(MediaSub::Action(MediaAction::Previous)));
    assert_eq!(media_subcommand("play"), Ok(MediaSub::Action(MediaAction::Play)));
    assert_eq!(
        media_subcommand("stop"),
        Err(TransportError::InvalidArgument("unknown media subcommand: stop".to_string()))
    );
    assert_eq!(system_eq_subcommand("enable"), Ok(SystemEqSub::On));
    assert_eq!(system_eq_subcommand("off"), Ok(SystemEqSub::Off));
    assert_eq!(system_eq_subcommand("status"), Ok(SystemEqSub::Status));
    assert_eq!(
        system_eq_subcommand("loud"),
        Err(TransportError::InvalidArgument("unknown system-eq subcommand: loud".to_string()))
    );
}

#[test]
fn scan_lines_show_model_truth_and_signal() {
    let d = DiscoveredDevice { address: "AA:BB".to_string(), name: "QCY-X".to_string(), rssi: Some(-61), model_known: false };
    assert_eq!(scan_line(&d), "AA:BB  QCY-X  unknown-model (read-only)  -61 dBm");
    let e = DiscoveredDevice { address: "CC".to_string(), name: "MeloBuds Pro".to_string(), rssi: None, model_known: true };
    assert_eq!(scan_line(&e), "CC  MeloBuds Pro  HT08  ?");
}

#[test]
fn bare_media_and_system_eq_default_to_status() {
    assert_eq!(plan_args(args(&["media"])).ok().map(|p| p.1), Some(CliCommand::Media("status".to_string())));
    assert_eq!(
        plan_args(args(&["system-eq"])).ok().map(|p| p.1),
        Some(CliCommand::SystemEq { sub: "status".to_string(), gains: Vec::new() })
    );
}

#[test]
fn bare_connect_takes_the_device_flag_or_none() {
    let (_, cmd) = plan_args(args(&["connect"])).unwrap();
    assert_eq!(cmd, CliCommand::Connect { wanted: None });
    let (_, cmd) = plan_args(args(&["connect", "--device", "AA:BB"])).unwrap();
    assert_eq!(cmd, CliCommand::Connect { wanted: Some("AA:BB".to_string()) });
}
