use qcy::packet::{encode_blocks, encode_command, CommandBlock};
use qcy::policy::{Denial, WritePolicy, CHAR_KEY_FUNCTION_V2};
use qcy::transport::normalize_address;


#[test]
fn supported_opcode_is_authorized() {
    let p = WritePolicy::ht08();
    let frame = encode_command(0x09, &[0x01]).unwrap();
    assert!(p.authorize_frame(&frame, false).is_ok());
}

#[test]
fn experimental_opcode_requires_opt_in() {
    let p = WritePolicy::ht08();
    let frame = encode_command(0x32, &[0x01]).unwrap();
    assert!(matches!(
        p.authorize_frame(&frame, false),
        Err(Denial::ExperimentalWithoutOptIn(0x32))
    ));
    assert!(p.authorize_frame(&frame, true).is_ok());
}

#[test]
fn destructive_opcodes_are_never_authorized() {
    let p = WritePolicy::ht08();
    for op in [0x01u8, 0x02, 0x03] {
        let frame = encode_command(op, &[]).unwrap();
        assert!(matches!(
            p.authorize_frame(&frame, true),
            Err(Denial::DestructiveOpcode(_))
        ));
    }
}

#[test]
fn multi_block_frame_with_only_supported_blocks_is_authorized() {
    let p = WritePolicy::ht08();
    let frame = encode_blocks(&[
        CommandBlock {
            cmd: 0x09,
            params: vec![0x01],
        },
        CommandBlock {
            cmd: 0x10,
            params: vec![0x01],
        },
    ])
    .unwrap();
    assert!(p.authorize_frame(&frame, false).is_ok());
}

#[test]
fn destructive_opcode_hidden_in_a_multi_block_frame_is_denied() {
    let p = WritePolicy::ht08();
    for op in [0x01u8, 0x02, 0x03] {
        let frame = encode_blocks(&[
            CommandBlock {
                cmd: 0x09,
                params: vec![0x01],
            },
            CommandBlock {
                cmd: op,
                params: vec![],
            },
        ])
        .unwrap();
        assert!(
            matches!(
                p.authorize_frame(&frame, true),
                Err(Denial::DestructiveOpcode(hidden)) if hidden == op
            ),
            "destructive 0x{op:02X} behind a supported block must be denied even with opt-in"
        );
    }
}

#[test]
fn experimental_opcode_hidden_in_a_multi_block_frame_needs_opt_in() {
    let p = WritePolicy::ht08();
    let frame = encode_blocks(&[
        CommandBlock {
            cmd: 0x09,
            params: vec![0x01],
        },
        CommandBlock {
            cmd: 0x23,
            params: vec![0x01],
        },
    ])
    .unwrap();
    assert!(matches!(
        p.authorize_frame(&frame, false),
        Err(Denial::ExperimentalWithoutOptIn(0x23))
    ));
    assert!(p.authorize_frame(&frame, true).is_ok());
}

#[test]
fn catalog_only_opcode_hidden_in_a_multi_block_frame_is_denied() {
    let p = WritePolicy::ht08();
    let frame = encode_blocks(&[
        CommandBlock {
            cmd: 0x09,
            params: vec![0x01],
        },
        CommandBlock {
            cmd: 0x18,
            params: vec![0x41],
        },
    ])
    .unwrap();
    assert!(matches!(
        p.authorize_frame(&frame, false),
        Err(Denial::OpcodeNotAuthorized(0x18))
    ));
}

#[test]
fn malformed_frames_are_denied_before_any_block_is_considered() {
    let p = WritePolicy::ht08();
    // Bogus declared length (longer than the actual body).
    assert!(matches!(
        p.authorize_frame(&[0xFF, 0x40, 0x09], false),
        Err(Denial::MalformedFrame)
    ));
    // Bad SOF.
    assert!(matches!(
        p.authorize_frame(&[0x00, 0x01, 0x09], false),
        Err(Denial::MalformedFrame)
    ));
    // Truncated header.
    assert!(matches!(
        p.authorize_frame(&[0xFF], false),
        Err(Denial::MalformedFrame)
    ));
    // Declared a block whose params are truncated.
    assert!(matches!(
        p.authorize_frame(&[0xFF, 0x03, 0x09, 0x02], false),
        Err(Denial::MalformedFrame)
    ));
}

#[test]
fn catalog_only_opcode_is_not_authorized() {
    let p = WritePolicy::ht08();
    let frame = encode_command(0x18, &[0x41]).unwrap(); // RenameDevice: catalog-only
    assert!(matches!(
        p.authorize_frame(&frame, false),
        Err(Denial::OpcodeNotAuthorized(0x18))
    ));
}

#[test]
fn read_only_device_denies_everything() {
    let p = WritePolicy::read_only();
    let frame = encode_command(0x09, &[0x01]).unwrap();
    assert!(matches!(
        p.authorize_frame(&frame, false),
        Err(Denial::ReadOnlyDevice)
    ));
    assert!(matches!(
        p.authorize_direct(CHAR_KEY_FUNCTION_V2, &[], false),
        Err(Denial::ReadOnlyDevice)
    ));
}

#[test]
fn direct_write_requires_allowlisted_characteristic() {
    let p = WritePolicy::ht08();
    assert!(p
        .authorize_direct(CHAR_KEY_FUNCTION_V2, &[1, 2], false)
        .is_ok());
    assert!(matches!(
        p.authorize_direct("0000dead-0000-1000-8000-00805f9b34fb", &[1], false),
        Err(Denial::CharacteristicNotAuthorized(_))
    ));
}

#[test]
fn request_data_is_authorized_even_on_read_only_devices() {
    // Mirrors the TypeScript policy: RequestData (0xFE) is a read-back
    // request, not a state mutation. The SPP transport sends
    // these frames to read battery/version from read-only devices too.
    let p = WritePolicy::read_only();
    let frame = encode_command(0xFE, &[0x2F]).unwrap();
    assert!(p.authorize_frame(&frame, false).is_ok());
    let ht08 = WritePolicy::ht08();
    assert!(ht08.authorize_frame(&frame, false).is_ok());
}

#[test]
fn request_data_cannot_smuggle_a_state_change_past_read_only() {
    let p = WritePolicy::read_only();
    let frame = encode_blocks(&[
        CommandBlock {
            cmd: 0xFE,
            params: vec![0x2F],
        },
        CommandBlock {
            cmd: 0x09,
            params: vec![0x01],
        },
    ])
    .unwrap();
    assert!(matches!(
        p.authorize_frame(&frame, false),
        Err(Denial::ReadOnlyDevice)
    ));
}

#[test]
fn destructive_opcode_beats_read_only_verdict() {
    // Destructive is checked before the read-only judgment, mirroring the
    // TypeScript ordering: the refusal reason must never understate the
    // danger of a reset/factory-reset frame.
    let p = WritePolicy::read_only();
    let frame = encode_command(0x03, &[]).unwrap();
    assert!(matches!(
        p.authorize_frame(&frame, false),
        Err(Denial::DestructiveOpcode(0x03))
    ));
}

#[test]
fn malformed_frame_is_denied_even_on_read_only_devices() {
    let p = WritePolicy::read_only();
    assert!(matches!(
        p.authorize_frame(&[0xFF, 0x40, 0x09], false),
        Err(Denial::MalformedFrame)
    ));
}

#[test]
fn normalize_address_uppercases_and_unifies_separators() {
    assert_eq!(normalize_address("84:ac:60:62:69:da"), "84:AC:60:62:69:DA");
    assert_eq!(normalize_address("84-ac-60-62-69-da"), "84:AC:60:62:69:DA");
    assert_eq!(
        normalize_address("  84:AC:60:62:69:DA  "),
        "84:AC:60:62:69:DA"
    );
}

#[test]
fn supported_and_experimental_sets_are_disjoint() {
    let policy = WritePolicy::ht08();
    assert!(policy
        .supported_opcodes
        .is_disjoint(&policy.experimental_opcodes));
}

/* Laws on concrete values */

#[test]
fn an_authorized_frame_carries_no_destructive_opcode() {
    let p = WritePolicy::ht08();
    for op in 0u8..=255 {
        let frame = encode_command(op, &[0x01]).unwrap();
        if p.authorize_frame(&frame, true).is_ok() {
            assert!(!WritePolicy::is_destructive(op), "0x{op:02X} authorized");
            assert!(
                p.supported_opcodes.contains(&op) || p.experimental_opcodes.contains(&op) || op == 0xFE
            );
        }
    }
}

#[test]
fn denial_messages_name_the_reason() {
    assert_eq!(
        Denial::DestructiveOpcode(0x03).message(),
        "destructive opcode 0x03 is never sent"
    );
    assert!(Denial::ReadOnlyDevice.message().contains("read-only"));
    assert!(Denial::MalformedFrame.message().contains("malformed"));
}

#[test]
fn normalize_address_is_idempotent() {
    for a in ["84:ac:60:62:69:da", " 84-AC-60-62-69-DA ", "aa:bb"] {
        let once = normalize_address(a);
        assert_eq!(normalize_address(&once), once);
    }
}

#[test]
fn normalizing_an_address_twice_changes_nothing() {
    for raw in ["84:ac:60:62:69:da", " 84-ac-60-62-69-da\t", "AA:BB", ""] {
        let once = normalize_address(raw);
        assert_eq!(normalize_address(&once), once);
    }
}
