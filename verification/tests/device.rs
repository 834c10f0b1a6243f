use qcy::device::{
    can_interact, is_experimental_write, is_implemented, is_shown, is_writable,
    profile_from_vector, summarize_capability, CapabilityTruth, EvidenceTruth, ImplTruth,
    SummaryTone, WriteReadiness,
};

type E = EvidenceTruth;
type I = ImplTruth;
type W = WriteReadiness;

fn cap(
    hardware: EvidenceTruth,
    protocol: EvidenceTruth,
    implementation: ImplTruth,
    write: WriteReadiness,
) -> CapabilityTruth {
    CapabilityTruth {
        hardware,
        protocol,
        implementation,
        write,
        note: None,
        opcode: None,
    }
}

#[test]
fn derivation_rules_mirror_the_typescript_model() {
    let writable = cap(
        EvidenceTruth::Supported,
        EvidenceTruth::Supported,
        ImplTruth::Implemented,
        WriteReadiness::Writable,
    );
    assert!(is_shown(&writable));
    assert!(is_implemented(&writable));
    assert!(is_writable(&writable));
    assert!(can_interact(&writable));

    let experimental = cap(
        EvidenceTruth::Supported,
        EvidenceTruth::Supported,
        ImplTruth::Implemented,
        WriteReadiness::Experimental,
    );
    assert!(is_experimental_write(&experimental));
    assert!(can_interact(&experimental));
    assert!(!is_writable(&experimental));

    let read_only = cap(
        EvidenceTruth::Supported,
        EvidenceTruth::Supported,
        ImplTruth::Implemented,
        WriteReadiness::ReadOnly,
    );
    assert!(!can_interact(&read_only));
    assert!(!is_writable(&read_only));

    // A writable readiness without implementation is still not interactable.
    let pending = cap(
        EvidenceTruth::Supported,
        EvidenceTruth::Supported,
        ImplTruth::NotImplemented,
        WriteReadiness::Writable,
    );
    assert!(!can_interact(&pending));
    assert!(!is_writable(&pending));

    let hidden = cap(
        EvidenceTruth::Unsupported,
        EvidenceTruth::Unsupported,
        ImplTruth::NotImplemented,
        WriteReadiness::ReadOnly,
    );
    assert!(!is_shown(&hidden));
}

#[test]
fn summary_branches_match_the_typescript_labels() {
    let cases = [
        (
            cap(E::Supported, E::Supported, I::Implemented, W::Forbidden),
            "Forbidden",
            SummaryTone::Danger,
        ),
        (
            cap(E::Supported, E::Supported, I::Implemented, W::Experimental),
            "Experimental",
            SummaryTone::Experimental,
        ),
        (
            cap(E::Supported, E::Supported, I::Implemented, W::Writable),
            "Supported",
            SummaryTone::Supported,
        ),
        (
            cap(E::Supported, E::Supported, I::Implemented, W::ReadOnly),
            "Read-only",
            SummaryTone::Supported,
        ),
        (
            cap(E::Supported, E::Supported, I::MockOnly, W::ReadOnly),
            "Mock only",
            SummaryTone::Neutral,
        ),
        (
            cap(E::Supported, E::Supported, I::NotImplemented, W::Writable),
            "Protocol known \u{00b7} app pending",
            SummaryTone::Neutral,
        ),
        (
            cap(E::Unsupported, E::Unsupported, I::NotImplemented, W::ReadOnly),
            "Unsupported",
            SummaryTone::Neutral,
        ),
        (
            cap(E::Supported, E::Unknown, I::NotImplemented, W::ReadOnly),
            "Needs protocol research",
            SummaryTone::Research,
        ),
        (
            cap(E::Unknown, E::Unknown, I::NotImplemented, W::ReadOnly),
            "Unknown",
            SummaryTone::Unknown,
        ),
    ];
    for (cap, label, tone) in cases {
        let s = summarize_capability(&cap);
        assert_eq!(s.label, label, "label mismatch for {cap:?}");
        assert_eq!(s.tone, tone, "tone mismatch for {cap:?}");
    }
}

/// The fields of `{"version": 99, "model": "HT08", "source": "x", "capabilities":
/// {"a": {"hardware": "unknown", "protocol": "unknown", "implementation":
/// "not-implemented", "write": "read-only"}}}`.
#[test]
fn rejects_unknown_vector_versions() {
    let caps = vec![(
        "a".to_string(),
        cap(
            EvidenceTruth::Unknown,
            EvidenceTruth::Unknown,
            ImplTruth::NotImplemented,
            WriteReadiness::ReadOnly,
        ),
    )];
    let err = profile_from_vector(99, "HT08".to_string(), caps).unwrap_err();
    assert!(err.contains("not supported"), "{err}");
    assert_eq!(
        err,
        "capability vector version 99 is not supported by this build (expects 1)"
    );
}

/// The fields of `{"version": 1, "model": "HT08", "source": "x", "capabilities": {}}`.
#[test]
fn rejects_empty_capability_maps() {
    assert!(profile_from_vector(1, "HT08".to_string(), Vec::new()).is_err());
}

#[test]
fn profile_lookup_finds_capabilities_by_id() {
    let ota = cap(
        EvidenceTruth::Unknown,
        EvidenceTruth::Unknown,
        ImplTruth::NotImplemented,
        WriteReadiness::Forbidden,
    );
    let anc = cap(
        EvidenceTruth::Supported,
        EvidenceTruth::Supported,
        ImplTruth::Implemented,
        WriteReadiness::Writable,
    );
    let profile = profile_from_vector(
        1,
        "HT08".to_string(),
        vec![
            ("ancOn".to_string(), anc.clone()),
            ("firmwareOta".to_string(), ota.clone()),
        ],
    )
    .unwrap();
    assert_eq!(profile.model, "HT08");
    assert_eq!(profile.get("firmwareOta"), Some(&ota));
    assert_eq!(profile.get("ancOn"), Some(&anc));
    assert_eq!(profile.get("missing"), None);
    let ota = profile.get("firmwareOta").unwrap();
    assert!(!can_interact(ota));
    assert_eq!(summarize_capability(ota).label, "Forbidden");
}

#[test]
fn forbidden_is_the_only_danger_summary() {
    for h in [E::Supported, E::Unknown, E::Unsupported] {
        for p in [E::Supported, E::Unknown, E::Unsupported] {
            for i in [I::Implemented, I::MockOnly, I::NotImplemented] {
                for w in [W::Writable, W::Experimental, W::ReadOnly, W::Forbidden] {
                    let c = cap(h, p, i, w);
                    let s = summarize_capability(&c);
                    assert_eq!(s.tone == SummaryTone::Danger, w == W::Forbidden);
                    assert_eq!(
                        can_interact(&c),
                        is_writable(&c) || is_experimental_write(&c)
                    );
                }
            }
        }
    }
}

/// A hand-built HT08-like matrix covering each kind of row the UI relies on.
fn sample_matrix() -> qcy::device::DeviceProfile {
    let supported_write = cap(E::Supported, E::Supported, I::Implemented, W::Writable);
    let experimental = cap(E::Supported, E::Unknown, I::Implemented, W::Experimental);
    let host = cap(E::Unknown, E::Unknown, I::Implemented, W::ReadOnly);
    let status = cap(E::Supported, E::Supported, I::Implemented, W::ReadOnly);
    let ota = cap(E::Supported, E::Unknown, I::NotImplemented, W::Forbidden);
    let research = cap(E::Unknown, E::Unknown, I::NotImplemented, W::ReadOnly);
    let absent = cap(E::Unsupported, E::Unsupported, I::NotImplemented, W::ReadOnly);
    let mut rows: Vec<(String, CapabilityTruth)> = Vec::new();
    for id in ["ancOff", "ancOn", "gameMode", "deviceEq", "sleepMode"] {
        rows.push((id.to_string(), supported_write.clone()));
    }
    for id in ["ancAdaptive", "spatialAudio", "ldacToggle"] {
        rows.push((id.to_string(), experimental.clone()));
    }
    for id in ["systemEq", "autoGameMode", "codecStatus"] {
        rows.push((id.to_string(), host.clone()));
    }
    for id in ["batteryLeft", "batteryRight", "batteryCase", "firmware", "rssi"] {
        rows.push((id.to_string(), status.clone()));
    }
    rows.push(("firmwareOta".to_string(), ota));
    rows.push(("ancWind".to_string(), research));
    rows.push(("findGps".to_string(), absent));
    profile_from_vector(1, "HT08".to_string(), rows).unwrap()
}

#[test]
fn sample_matrix_keeps_every_row_and_summarizes_each() {
    let profile = sample_matrix();
    assert_eq!(profile.model, "HT08");
    assert_eq!(profile.capabilities.len(), 19);
    for (id, c) in &profile.capabilities {
        let _ = summarize_capability(c);
        assert!(!id.is_empty());
    }
}

#[test]
fn forbidden_ota_row_is_never_interactable() {
    let profile = sample_matrix();
    let ota = profile.get("firmwareOta").expect("firmwareOta entry");
    assert_eq!(ota.write, WriteReadiness::Forbidden);
    assert!(!can_interact(ota));
    assert!(!is_writable(ota));
    assert_eq!(summarize_capability(ota).label, "Forbidden");
}

#[test]
fn host_feature_rows_claim_no_device_support_or_writes() {
    let profile = sample_matrix();
    for id in ["systemEq", "autoGameMode", "codecStatus"] {
        let c = profile.get(id).expect("host feature entry");
        assert_eq!(c.hardware, EvidenceTruth::Unknown, "{id} hardware");
        assert_eq!(c.protocol, EvidenceTruth::Unknown, "{id} protocol");
        assert_eq!(c.write, WriteReadiness::ReadOnly, "{id} write");
        assert!(!can_interact(c), "{id} must not be a device interaction");
        assert!(!is_writable(c), "{id} must not be writable");
    }
}

#[test]
fn proven_control_rows_are_interactable() {
    let profile = sample_matrix();
    for id in ["ancOff", "ancOn", "gameMode", "deviceEq", "sleepMode"] {
        let c = profile.get(id).expect("control entry");
        assert!(is_writable(c), "{id} should be a supported write");
        assert!(can_interact(c), "{id} should be interactable");
        assert_eq!(summarize_capability(c).label, "Supported");
    }
}

#[test]
fn experimental_rows_need_the_opt_in_and_are_labelled() {
    let profile = sample_matrix();
    for id in ["ancAdaptive", "spatialAudio", "ldacToggle"] {
        let c = profile.get(id).expect("experimental entry");
        assert!(is_experimental_write(c), "{id} should be experimental");
        assert!(can_interact(c), "{id} is interactable behind opt-in");
        assert!(!is_writable(c), "{id} is not a plain supported write");
        assert_eq!(summarize_capability(c).label, "Experimental");
    }
}

#[test]
fn status_rows_are_state_not_controls() {
    let profile = sample_matrix();
    for id in ["batteryLeft", "batteryRight", "batteryCase", "firmware", "rssi"] {
        let c = profile.get(id).expect("status entry");
        assert_eq!(c.write, WriteReadiness::ReadOnly, "{id}");
        assert!(is_implemented(c), "{id} should be implemented");
        assert!(!can_interact(c), "{id} is state, not a control");
        assert_eq!(summarize_capability(c).label, "Read-only");
    }
}

#[test]
fn research_rows_stay_downgraded() {
    let profile = sample_matrix();
    let wind = profile.get("ancWind").expect("ancWind entry");
    assert!(!can_interact(wind));
    assert!(!is_implemented(wind));
    let gps = profile.get("findGps").expect("findGps entry");
    assert!(!is_shown(gps) || !can_interact(gps));
    assert!(!is_shown(gps));
}
