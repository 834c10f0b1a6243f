use qcy::host::{
    codec_name, profile_from_uuid, sample_rate_hz, select_transport, vendor_ids, A2dpTransport,
    BluezCodecSource, CodecBus, CodecInfo, CodecSource, HostError, MediaAction, MediaStatus,
    StaticCodecSource, UnknownCodecSource, A2DP_CODEC_MPEG12, A2DP_CODEC_MPEG24_AAC,
    A2DP_CODEC_SBC, A2DP_CODEC_VENDOR,
};

#[test]
fn unknown_is_the_honest_default() {
    let info = UnknownCodecSource.read().unwrap();
    assert!(info.is_unknown());
    assert_eq!(info.codec, None);
    assert_eq!(info.sample_rate_hz, None);
    assert_eq!(info.profile, None);
}

#[test]
fn static_source_reports_what_it_was_given() {
    let src = StaticCodecSource(CodecInfo {
        codec: Some("ldac".into()),
        sample_rate_hz: Some(96000),
        profile: Some("a2dp-sink".into()),
    });
    let info = src.read().unwrap();
    assert!(!info.is_unknown());
    assert_eq!(info.codec.as_deref(), Some("ldac"));
    assert_eq!(info.sample_rate_hz, Some(96000));
}

#[test]
fn partial_info_is_not_unknown() {
    let info = CodecInfo {
        codec: Some("aac".into()),
        ..Default::default()
    };
    assert!(!info.is_unknown());
}

fn transport(codec: u8, configuration: Vec<u8>, state: &str) -> A2dpTransport {
    A2dpTransport {
        uuid: "0000110b-0000-1000-8000-00805f9b34fb".into(),
        codec,
        configuration,
        state: state.into(),
    }
}

#[test]
fn sbc_name_and_rate_from_configuration() {
    // SBC, 48 kHz selected (frequency nibble 0x01), channel mode stereo.
    let t = transport(A2DP_CODEC_SBC, vec![0x21, 0x15, 0x02, 0x35], "active");
    assert_eq!(codec_name(&t).as_deref(), Some("sbc"));
    assert_eq!(sample_rate_hz(&t), Some(48000));
    let t44 = transport(A2DP_CODEC_SBC, vec![0x22, 0x15, 0x02, 0x35], "active");
    assert_eq!(sample_rate_hz(&t44), Some(44100));
}

#[test]
fn aac_name_and_rate_from_configuration() {
    // AAC: object type octet, then 12-bit frequency 0x008 (48000) across octets 1-2.
    let t = transport(
        A2DP_CODEC_MPEG24_AAC,
        vec![0x40, 0x00, 0x80, 0x01, 0x00, 0x00],
        "active",
    );
    assert_eq!(codec_name(&t).as_deref(), Some("aac"));
    assert_eq!(sample_rate_hz(&t), Some(48000));
    let t44 = transport(
        A2DP_CODEC_MPEG24_AAC,
        vec![0x40, 0x01, 0x00, 0x01, 0x00, 0x00],
        "active",
    );
    assert_eq!(sample_rate_hz(&t44), Some(44100));
}

#[test]
fn mpeg_name_and_rate_from_configuration() {
    // MPEG-1,2 Audio: octet 1 frequency bitmap 0x02 = 44100.
    let t = transport(A2DP_CODEC_MPEG12, vec![0x01, 0x02, 0x00, 0x00], "active");
    assert_eq!(codec_name(&t).as_deref(), Some("mpeg-1,2-audio"));
    assert_eq!(sample_rate_hz(&t), Some(44100));
}

#[test]
fn vendor_codecs_are_named_from_le_vendor_and_codec_ids() {
    // LDAC: vendor 0x0000012d LE, codec 0x00aa LE, then frequency byte 0x10 = 48000.
    let ldac = transport(
        A2DP_CODEC_VENDOR,
        vec![0x2d, 0x01, 0x00, 0x00, 0xaa, 0x00, 0x10, 0x01],
        "active",
    );
    assert_eq!(codec_name(&ldac).as_deref(), Some("ldac"));
    assert_eq!(sample_rate_hz(&ldac), Some(48000));
    // aptX: vendor 0x0000004f LE, codec 0x0001 LE.
    let aptx = transport(
        A2DP_CODEC_VENDOR,
        vec![0x4f, 0x00, 0x00, 0x00, 0x01, 0x00, 0x00, 0x00],
        "active",
    );
    assert_eq!(codec_name(&aptx).as_deref(), Some("aptx"));
    assert_eq!(sample_rate_hz(&aptx), None); // no portable rate field
                                             // aptX HD: vendor 0x000000d7 LE, codec 0x0024 LE.
    let aptx_hd = transport(
        A2DP_CODEC_VENDOR,
        vec![0xd7, 0x00, 0x00, 0x00, 0x24, 0x00],
        "active",
    );
    assert_eq!(codec_name(&aptx_hd).as_deref(), Some("aptx-hd"));
}

#[test]
fn unknown_vendor_codec_stays_unknown() {
    let t = transport(
        A2DP_CODEC_VENDOR,
        vec![0x99, 0x99, 0x00, 0x00, 0x77, 0x00],
        "active",
    );
    assert_eq!(codec_name(&t), None);
    assert_eq!(sample_rate_hz(&t), None);
}

#[test]
fn truncated_configuration_never_panics_and_stays_unknown() {
    let t = transport(A2DP_CODEC_SBC, vec![], "active");
    assert_eq!(sample_rate_hz(&t), None);
    let t = transport(A2DP_CODEC_VENDOR, vec![0x2d, 0x01], "active");
    assert_eq!(codec_name(&t), None);
}

#[test]
fn profile_uuids_map_to_known_names() {
    assert_eq!(
        profile_from_uuid("0000110b-0000-1000-8000-00805f9b34fb").as_deref(),
        Some("a2dp-sink")
    );
    assert_eq!(
        profile_from_uuid("0000110a-0000-1000-8000-00805f9b34fb").as_deref(),
        Some("a2dp-source")
    );
    assert_eq!(
        profile_from_uuid("0000abcd-0000-1000-8000-00805f9b34fb"),
        None
    );
}

#[test]
fn active_transport_is_preferred() {
    let idle = transport(A2DP_CODEC_SBC, vec![0x21], "idle");
    let active = transport(A2DP_CODEC_MPEG24_AAC, vec![0x40, 0x00, 0x80], "active");
    let pending = transport(A2DP_CODEC_SBC, vec![0x22], "pending");
    let all = vec![idle.clone(), pending.clone(), active.clone()];
    assert_eq!(select_transport(&all), Some(&active));
    assert_eq!(
        select_transport(&[idle.clone(), pending.clone()]),
        Some(&pending)
    );
    assert_eq!(select_transport(std::slice::from_ref(&idle)), Some(&idle));
    assert_eq!(select_transport(&[]), None);
}

#[test]
fn bluez_source_reports_unknown_without_transports() {
    struct EmptyBus;
    impl CodecBus for EmptyBus {
        fn a2dp_transports(&self) -> Result<Vec<A2dpTransport>, HostError> {
            Ok(vec![])
        }
    }
    let src = BluezCodecSource::new(EmptyBus);
    let info = src.read().unwrap();
    assert!(info.is_unknown());
}

#[test]
fn bluez_source_maps_active_transport_fields() {
    struct OneBus;
    impl CodecBus for OneBus {
        fn a2dp_transports(&self) -> Result<Vec<A2dpTransport>, HostError> {
            Ok(vec![A2dpTransport {
                uuid: "0000110b-0000-1000-8000-00805f9b34fb".into(),
                codec: A2DP_CODEC_SBC,
                configuration: vec![0x21, 0x15, 0x02, 0x35],
                state: "active".into(),
            }])
        }
    }
    let src = BluezCodecSource::new(OneBus);
    let info = src.read().unwrap();
    assert_eq!(info.codec.as_deref(), Some("sbc"));
    assert_eq!(info.sample_rate_hz, Some(48000));
    assert_eq!(info.profile.as_deref(), Some("a2dp-sink"));
}

#[test]
fn bluez_source_survives_unavailable_bus() {
    struct DeadBus;
    impl CodecBus for DeadBus {
        fn a2dp_transports(&self) -> Result<Vec<A2dpTransport>, HostError> {
            Err(HostError::ServiceUnavailable("no system bus".into()))
        }
    }
    let src = BluezCodecSource::new(DeadBus);
    assert!(matches!(src.read(), Err(HostError::ServiceUnavailable(_))));
}


/* Exact values and edge cases */

#[test]
fn vendor_ids_are_little_endian() {
    assert_eq!(
        vendor_ids(&[0x2d, 0x01, 0x00, 0x00, 0xaa, 0x00]),
        Some((0x0000012d, 0x00aa))
    );
    assert_eq!(
        vendor_ids(&[0x01, 0x02, 0x03, 0x04, 0x05, 0x06, 0x07]),
        Some((0x04030201, 0x0605))
    );
    assert_eq!(vendor_ids(&[0x01, 0x02, 0x03, 0x04, 0x05]), None);
}

#[test]
fn profile_uuid_match_is_case_insensitive() {
    assert_eq!(
        profile_from_uuid("0000111E-0000-1000-8000-00805F9B34FB").as_deref(),
        Some("handsfree-hf")
    );
    assert_eq!(
        profile_from_uuid("00001108-0000-1000-8000-00805f9b34fb").as_deref(),
        Some("headset-hs")
    );
}

#[test]
fn aac_high_rates_and_ldac_rates() {
    let t = A2dpTransport {
        uuid: String::new(),
        codec: A2DP_CODEC_MPEG24_AAC,
        configuration: vec![0x40, 0x00, 0x10],
        state: "active".into(),
    };
    assert_eq!(sample_rate_hz(&t), Some(96000));
    let ldac = A2dpTransport {
        uuid: String::new(),
        codec: A2DP_CODEC_VENDOR,
        configuration: vec![0x2d, 0x01, 0x00, 0x00, 0xaa, 0x00, 0x01],
        state: "active".into(),
    };
    assert_eq!(sample_rate_hz(&ldac), Some(192000));
    let ldac_short = A2dpTransport {
        configuration: vec![0x2d, 0x01, 0x00, 0x00, 0xaa, 0x00],
        ..ldac
    };
    assert_eq!(codec_name(&ldac_short).as_deref(), Some("ldac"));
    assert_eq!(sample_rate_hz(&ldac_short), None);
}

#[test]
fn host_error_messages_name_the_kind() {
    assert_eq!(
        HostError::ServiceUnavailable("no bus".into()).message(),
        "service unavailable: no bus"
    );
    assert_eq!(HostError::NotFound("vlc".into()).message(), "not found: vlc");
    assert_eq!(HostError::Unsupported("x".into()).message(), "unsupported: x");
    assert_eq!(
        HostError::Backend("boom".into()).message(),
        "host backend error: boom"
    );
}

#[test]
fn media_actions_map_to_player_methods() {
    assert_eq!(MediaAction::Play.method(), "Play");
    assert_eq!(MediaAction::Pause.method(), "Pause");
    assert_eq!(MediaAction::Next.method(), "Next");
    assert_eq!(MediaAction::Previous.method(), "Previous");
    let none = MediaStatus::default();
    assert!(!none.playing && none.volume.is_none() && none.player.is_empty());
}

#[test]
fn missing_services_answer_status_requests_neutrally() {
    use_missing_answers();
}

fn use_missing_answers() {
    assert_eq!(
        qcy::host::missing_service_answer(qcy::host::HostRequest::Media),
        qcy::host::MissingServiceAnswer::Error("MPRIS is not available in this build/session".to_string())
    );
    assert_eq!(
        qcy::host::missing_service_answer(qcy::host::HostRequest::Codec),
        qcy::host::MissingServiceAnswer::UnknownCodec
    );
    assert_eq!(
        qcy::host::missing_service_answer(qcy::host::HostRequest::SystemEqStatus),
        qcy::host::MissingServiceAnswer::DefaultSystemEqStatus
    );
    assert_eq!(
        qcy::host::missing_service_answer(qcy::host::HostRequest::SystemEqChange),
        qcy::host::MissingServiceAnswer::Error("System EQ is not available in this build".to_string())
    );
}
