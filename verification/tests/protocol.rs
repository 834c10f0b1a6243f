use qcy::advertisement::parse_manufacturer_data;
use qcy::packet::{decode_packet, encode_blocks, encode_command, CommandBlock, DecodeError};
use qcy::protocol::{BatteryCell, BatteryState, Cmd};

#[test]
fn destructive_set_is_exactly_documented() {
    let destructive: Vec<u8> = [
        Cmd::ResetDefault,
        Cmd::ClearPairing,
        Cmd::FactoryReset,
        Cmd::MusicControl,
        Cmd::LightFlash,
        Cmd::LowLatency,
        Cmd::NoiseCancelMode,
        Cmd::EqParamsV2,
        Cmd::Battery,
        Cmd::RequestData,
    ]
    .iter()
    .filter(|c| c.is_destructive())
    .map(|c| c.code())
    .collect();
    assert_eq!(destructive, vec![0x01, 0x02, 0x03]);
}

#[test]
fn destructive_opcodes_are_flagged() {
    assert!(Cmd::ResetDefault.is_destructive());
    assert!(Cmd::ClearPairing.is_destructive());
    assert!(Cmd::FactoryReset.is_destructive());
    assert!(!Cmd::LowLatency.is_destructive());
    assert!(!Cmd::RequestData.is_destructive());
}

#[test]
fn battery_request_roundtrip() {
    let pkt = encode_command(0xFE, &[0x2F]).unwrap();
    assert_eq!(pkt, vec![0xFF, 0x03, 0xFE, 0x01, 0x2F]);
    let decoded = decode_packet(&pkt).unwrap();
    assert_eq!(decoded.blocks[0].cmd, 0xFE);
    assert_eq!(decoded.blocks[0].params, vec![0x2F]);
}

#[test]
fn rejects_bad_sof() {
    assert_eq!(decode_packet(&[0x00, 0x01, 0x00]), Err(DecodeError::BadSof));
}

#[test]
fn rejects_length_mismatch() {
    assert_eq!(
        decode_packet(&[0xFF, 0x10, 0x01]),
        Err(DecodeError::LengthMismatch)
    );
}

#[test]
fn rejects_truncated_block() {
    assert_eq!(
        decode_packet(&[0xFF, 0x03, 0x2F, 0x05, 0x00]),
        Err(DecodeError::TruncatedBlock)
    );
}

#[test]
fn multi_block() {
    let pkt = encode_blocks(&[
        CommandBlock {
            cmd: 0x2F,
            params: vec![0x52, 0x50, 0x5E],
        },
        CommandBlock {
            cmd: 0x09,
            params: vec![0x01],
        },
    ])
    .unwrap();
    let d = decode_packet(&pkt).unwrap();
    assert_eq!(d.blocks.len(), 2);
    assert_eq!(d.blocks[1].cmd, 0x09);
}

#[test]
fn scrambled_mac() {
    let mut d = [0u8; 24];
    d[0] = 0x12;
    d[1] = 0x34;
    d[5] = 80;
    d[6] = 70 | 0x80;
    d[7] = 90;
    d[12] = 0xAA;
    d[11] = 0xBB;
    d[13] = 0xCC;
    d[16] = 0xDD;
    d[15] = 0xEE;
    d[14] = 0xFF;
    let adv = parse_manufacturer_data(0x521C, &d).unwrap();
    assert_eq!(adv.vendor_id, 0x1234);
    assert_eq!(adv.control_mac, "AA:BB:CC:DD:EE:FF");
    assert_eq!(adv.battery.left.level, 80);
    assert!(adv.battery.right.charging);
}

#[test]
fn rejects_other_company() {
    assert!(parse_manufacturer_data(0x004C, &[0u8; 24]).is_none());
}

#[test]
fn rejects_oversize_buffer() {
    let mut big = vec![0u8; 600];
    big[0] = 0xFF;
    assert_eq!(decode_packet(&big), Err(DecodeError::Oversize));
}

#[test]
fn rejects_overlong_params() {
    let block = CommandBlock {
        cmd: 0x22,
        params: vec![0u8; 256],
    };
    assert_eq!(encode_blocks(&[block]), Err(DecodeError::Oversize));
}

#[test]
fn rejects_overlong_body() {
    let blocks: Vec<CommandBlock> = (0..100)
        .map(|_| CommandBlock {
            cmd: 0x09,
            params: vec![0x01],
        })
        .collect();
    assert_eq!(encode_blocks(&blocks), Err(DecodeError::Oversize));
}

/* Laws on concrete values */

#[test]
fn decoding_an_encoded_block_list_gives_it_back() {
    let blocks = vec![
        CommandBlock {
            cmd: 0x17,
            params: vec![0x01, 0x05, 0x02],
        },
        CommandBlock {
            cmd: 0x2F,
            params: vec![],
        },
    ];
    let frame = encode_blocks(&blocks).unwrap();
    assert_eq!(decode_packet(&frame).unwrap().blocks, blocks);
}

#[test]
fn encoding_a_decoded_frame_gives_the_frame_back() {
    let frame = vec![0xFF, 0x06, 0x09, 0x01, 0x01, 0x2F, 0x01, 0x00];
    let packet = decode_packet(&frame).unwrap();
    assert_eq!(encode_blocks(&packet.blocks).unwrap(), frame);
}

#[test]
fn decode_errors_come_in_the_documented_order() {
    assert_eq!(decode_packet(&[0xFF]), Err(DecodeError::TooShort));
    assert_eq!(decode_packet(&[]), Err(DecodeError::TooShort));
    // Bad start marker is reported before a length mismatch.
    assert_eq!(decode_packet(&[0x00, 0x10, 0x01]), Err(DecodeError::BadSof));
    // An empty body is a valid frame with no blocks.
    assert_eq!(decode_packet(&[0xFF, 0x00]).unwrap().blocks.len(), 0);
    // A block header that runs past the body is truncated.
    assert_eq!(
        decode_packet(&[0xFF, 0x01, 0x09]),
        Err(DecodeError::TruncatedBlock)
    );
}

#[test]
fn battery_byte_round_trips_and_masks_the_charging_bit() {
    for b in [0x00u8, 0x52, 0x64, 0x80, 0xC6, 0xE4] {
        assert_eq!(BatteryCell::decode(b).encode(), b);
    }
    let cell = BatteryCell::decode(0xC6);
    assert_eq!(cell.level, 70);
    assert!(cell.charging);
    let state = BatteryState::decode(&[0x52, 0x50, 0x5E, 0x99]).unwrap();
    assert_eq!(state.left.level, 82);
    assert_eq!(state.right.level, 80);
    assert_eq!(state.case.level, 94);
    assert!(BatteryState::decode(&[0x52, 0x50]).is_none());
}

#[test]
fn catalog_codes_are_the_wire_opcodes() {
    assert_eq!(Cmd::AncSetting.code(), 0x17);
    assert_eq!(Cmd::LowLatency.code(), 0x09);
    assert_eq!(Cmd::TonePlay.code(), 0x3D);
    assert_eq!(Cmd::RequestData.code(), 0xFE);
}
