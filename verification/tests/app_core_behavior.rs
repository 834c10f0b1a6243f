use std::sync::{Arc, Mutex};

use qcy::app_core::{
    rebootstrap_due, AppCore, CoreCommand, CoreEvent, DeviceSnapshot, SimpleNoise, SupervisorConfig,
    TickOutcome,
};
use qcy::packet::decode_packet;
use qcy::policy::{Denial, WritePolicy};
use qcy::protocol::Cmd;
use qcy::transport::{DiscoveredDevice, Transport, TransportError};

const ADDR: &str = "AA:BB:CC:DD:EE:FF";
const SESSION_ADDR: &str = "11:22:33:44:55:66";

#[derive(Default)]
struct Shared {
    writes: Vec<Vec<u8>>,
    opt_in: bool,
    link_up: bool,
    fail_connect: bool,
    connect_attempts: u32,
    reads: u32,
}

/// Recording transport: the connected device is writable only when its model is
/// proven or attested, and every frame is authorized by the central policy.
struct TestTransport {
    policy: WritePolicy,
    model_known: bool,
    connected: bool,
    connected_model_known: bool,
    shared: Arc<Mutex<Shared>>,
    connected_list: Vec<DiscoveredDevice>,
    session_addr: Option<String>,
}

impl TestTransport {
    fn new(model_known: bool) -> (Self, Arc<Mutex<Shared>>) {
        let shared: Arc<Mutex<Shared>> = Arc::default();
        (
            Self {
                policy: WritePolicy::ht08(),
                model_known,
                connected: false,
                connected_model_known: false,
                shared: Arc::clone(&shared),
                connected_list: Vec::new(),
                session_addr: None,
            },
            shared,
        )
    }
}

impl Transport for TestTransport {
    fn scan(&mut self) -> Result<Vec<DiscoveredDevice>, TransportError> {
        Ok(vec![DiscoveredDevice {
            address: ADDR.into(),
            name: if self.model_known {
                "QCY MeloBuds Pro".into()
            } else {
                "QCY T20".into()
            },
            rssi: Some(-55),
            model_known: self.model_known,
        }])
    }

    fn connected_devices(&mut self) -> Result<Vec<DiscoveredDevice>, TransportError> {
        Ok(self.connected_list.clone())
    }

    fn connect(&mut self, _address: &str) -> Result<(), TransportError> {
        let fail = {
            let mut shared = self.shared.lock().unwrap();
            shared.connect_attempts += 1;
            shared.fail_connect
        };
        if fail {
            return Err(TransportError::DeviceOutOfRange);
        }
        self.connected = true;
        self.connected_model_known = self.model_known;
        self.shared.lock().unwrap().link_up = true;
        Ok(())
    }

    fn disconnect(&mut self) -> Result<(), TransportError> {
        self.connected = false;
        self.connected_model_known = false;
        self.shared.lock().unwrap().link_up = false;
        Ok(())
    }

    fn is_connected(&mut self) -> Result<bool, TransportError> {
        Ok(self.connected && self.shared.lock().unwrap().link_up)
    }

    fn session_address(&mut self) -> Option<String> {
        if self.connected {
            self.session_addr.clone()
        } else {
            None
        }
    }

    fn read(&mut self, char_uuid: &str) -> Result<Vec<u8>, TransportError> {
        if !self.connected {
            return Err(TransportError::Disconnected);
        }
        self.shared.lock().unwrap().reads += 1;
        let uuid = char_uuid.to_ascii_lowercase();
        if uuid.contains("00000008") {
            Ok(vec![0x52, 0x50, 0x5E])
        } else if uuid.contains("00000007") {
            Ok(vec![1, 4, 2])
        } else {
            Err(TransportError::NotFound(char_uuid.into()))
        }
    }

    fn write(&mut self, bytes: &[u8]) -> Result<(), TransportError> {
        if !self.connected {
            return Err(TransportError::Disconnected);
        }
        if !self.connected_model_known {
            return Err(TransportError::Denied(Denial::ReadOnlyDevice));
        }
        let opt_in = self.shared.lock().unwrap().opt_in;
        self.policy
            .authorize_frame(bytes, opt_in)
            .map_err(TransportError::Denied)?;
        self.shared.lock().unwrap().writes.push(bytes.to_vec());
        Ok(())
    }

    fn write_direct(&mut self, _char_uuid: &str, _bytes: &[u8]) -> Result<(), TransportError> {
        Ok(())
    }

    fn subscribe(&mut self, _char_uuid: &str) -> Result<(), TransportError> {
        Ok(())
    }

    fn set_experimental_opt_in(&mut self, on: bool) {
        self.shared.lock().unwrap().opt_in = on;
    }

    fn attest_model_known(&mut self) {
        if self.connected {
            self.connected_model_known = true;
        }
    }
}

fn make_core(model_known: bool, known: Vec<String>) -> (AppCore<TestTransport>, Arc<Mutex<Shared>>) {
    let (t, shared) = TestTransport::new(model_known);
    (AppCore::new(t, known), shared)
}

fn run(c: &mut AppCore<TestTransport>, cmd: CoreCommand) -> Vec<CoreEvent> {
    let mut events = Vec::new();
    assert!(c.handle_command(cmd, &mut events));
    events
}

fn scan_and_connect(c: &mut AppCore<TestTransport>) -> Vec<CoreEvent> {
    let ev = run(c, CoreCommand::Scan);
    assert!(matches!(ev[0], CoreEvent::Discovered(_)));
    run(c, CoreCommand::Connect(ADDR.into()))
}

fn last_state(events: &[CoreEvent]) -> DeviceSnapshot {
    for e in events.iter().rev() {
        if let CoreEvent::StateChanged(s) = e {
            return s.clone();
        }
    }
    panic!("no StateChanged in {events:?}")
}

#[test]
fn connect_enriches_snapshot_only_from_discovery_evidence() {
    let (mut c, _shared) = make_core(true, Vec::new());
    let events = scan_and_connect(&mut c);
    let snapshot = last_state(&events);
    assert!(snapshot.connected);
    assert_eq!(snapshot.name, "QCY MeloBuds Pro");
    assert_eq!(snapshot.address, ADDR);
    assert_eq!(snapshot.rssi, Some(-55));
    assert!(snapshot.model_known);
    let battery = snapshot.battery.expect("battery readout");
    assert_eq!(
        (battery.left, battery.right, battery.case),
        (0x52, 0x50, 0x5E)
    );
    assert_eq!(snapshot.firmware.as_deref(), Some("1.4.2"));
    assert!(c.supervising());
}

#[test]
fn find_chime_without_preflight_is_refused_before_any_write() {
    let (mut c, shared) = make_core(true, Vec::new());
    scan_and_connect(&mut c);
    let events = run(
        &mut c,
        CoreCommand::FindChime {
            led: true,
            chime: true,
            tone_id: 0x01,
            confirmed_not_worn: false,
        },
    );
    assert_eq!(events.len(), 1);
    assert!(matches!(&events[0], CoreEvent::Denied(m) if m.contains("preflight")));
    assert!(shared.lock().unwrap().writes.is_empty());
}

#[test]
fn find_chime_with_preflight_writes_led_then_tone() {
    let (mut c, shared) = make_core(true, Vec::new());
    scan_and_connect(&mut c);
    let events = run(
        &mut c,
        CoreCommand::FindChime {
            led: true,
            chime: true,
            tone_id: 0x02,
            confirmed_not_worn: true,
        },
    );
    assert_eq!(events, vec![CoreEvent::Info("chime sent".into())]);
    let writes = shared.lock().unwrap().writes.clone();
    assert_eq!(writes.len(), 2);
    let led = decode_packet(&writes[0]).unwrap();
    assert_eq!(led.blocks[0].cmd, Cmd::LightFlash.code());
    let tone = decode_packet(&writes[1]).unwrap();
    assert_eq!(tone.blocks[0].cmd, Cmd::TonePlay.code());
    assert_eq!(tone.blocks[0].params, vec![0x02]);
}

#[test]
fn supported_write_produces_an_authorized_frame() {
    let (mut c, shared) = make_core(true, Vec::new());
    scan_and_connect(&mut c);
    let events = run(&mut c, CoreCommand::SetGameMode(true));
    assert_eq!(events, vec![CoreEvent::Info("game mode on".into())]);
    let writes = shared.lock().unwrap().writes.clone();
    assert_eq!(writes, vec![vec![0xFF, 0x03, 0x09, 0x01, 0x01]]);
}

#[test]
fn noise_mode_maps_to_the_validated_anc_setting_table() {
    let (mut c, shared) = make_core(true, Vec::new());
    scan_and_connect(&mut c);
    let cases: &[(SimpleNoise, &[u8], &str)] = &[
        (SimpleNoise::Off, &[0x02, 0x00, 0x00], "Off"),
        (SimpleNoise::Anc, &[0x01, 0x01, 0x02], "Anc"),
        (SimpleNoise::Adaptive, &[0x01, 0x05, 0x02], "Adaptive"),
        (SimpleNoise::Commuting, &[0x01, 0x02, 0x02], "Commuting"),
        (SimpleNoise::Noisy, &[0x01, 0x03, 0x02], "Noisy"),
        (SimpleNoise::Wind, &[0x01, 0x04, 0x02], "Wind"),
        (SimpleNoise::Transparency, &[0x03, 0x02, 0x04], "Transparency"),
    ];
    for (mode, params, name) in cases {
        let events = run(&mut c, CoreCommand::SetNoise(*mode));
        assert_eq!(events[0], CoreEvent::Info(format!("noise mode set to {name}")));
        assert_eq!(last_state(&events).noise, Some(*mode));
        let writes = shared.lock().unwrap().writes.clone();
        let packet = decode_packet(writes.last().unwrap()).unwrap();
        assert_eq!(packet.blocks[0].cmd, Cmd::AncSetting.code());
        assert_eq!(packet.blocks[0].params, *params);
    }
}

#[test]
fn unknown_model_device_surfaces_denied_writes() {
    let (mut c, shared) = make_core(false, Vec::new());
    scan_and_connect(&mut c);
    let events = run(&mut c, CoreCommand::SetGameMode(true));
    assert_eq!(
        events,
        vec![CoreEvent::Denied("game mode: device is read-only".into())]
    );
    assert!(shared.lock().unwrap().writes.is_empty());
}

#[test]
fn experimental_opcode_requires_session_opt_in() {
    let (mut c, shared) = make_core(true, Vec::new());
    scan_and_connect(&mut c);
    let events = run(&mut c, CoreCommand::SetExperimentalOptIn(false));
    assert_eq!(
        events,
        vec![CoreEvent::Info("experimental writes disabled".into())]
    );
    assert!(!shared.lock().unwrap().opt_in);
    let events = run(&mut c, CoreCommand::SetExperimentalOptIn(true));
    assert_eq!(
        events,
        vec![CoreEvent::Info(
            "experimental writes enabled for this session".into()
        )]
    );
    assert!(shared.lock().unwrap().opt_in);
}

#[test]
fn disconnect_resets_the_snapshot() {
    let (mut c, _shared) = make_core(true, Vec::new());
    scan_and_connect(&mut c);
    let events = run(&mut c, CoreCommand::Disconnect);
    let snapshot = last_state(&events);
    assert!(!snapshot.connected);
    assert!(snapshot.battery.is_none());
    assert!(snapshot.firmware.is_none());
    assert!(snapshot.address.is_empty());
    assert!(!c.supervising());
}

#[test]
fn confirm_model_requires_the_connected_device() {
    let (mut c, _shared) = make_core(false, Vec::new());
    let events = run(
        &mut c,
        CoreCommand::ConfirmModel {
            address: ADDR.into(),
        },
    );
    assert_eq!(
        events,
        vec![CoreEvent::Error(
            "model confirmation requires the device to be connected".into()
        )]
    );
    scan_and_connect(&mut c);
    let events = run(
        &mut c,
        CoreCommand::ConfirmModel {
            address: "00:11:22:33:44:55".into(),
        },
    );
    assert!(matches!(&events[..], [CoreEvent::Error(_)]));
}

#[test]
fn confirm_model_lifts_read_only_and_reports_attestation() {
    let (mut c, shared) = make_core(false, Vec::new());
    scan_and_connect(&mut c);
    let events = run(&mut c, CoreCommand::SetNoise(SimpleNoise::Anc));
    assert!(matches!(&events[..], [CoreEvent::Denied(_)]));
    assert!(shared.lock().unwrap().writes.is_empty());
    // A lowercase spelling of the connected address is the same device.
    let events = run(
        &mut c,
        CoreCommand::ConfirmModel {
            address: ADDR.to_lowercase(),
        },
    );
    assert_eq!(
        events[0],
        CoreEvent::ModelConfirmed {
            address: ADDR.into()
        }
    );
    assert!(last_state(&events).model_known);
    assert_eq!(c.known_devices(), &vec![ADDR.to_string()]);
    run(&mut c, CoreCommand::SetNoise(SimpleNoise::Anc));
    let writes = shared.lock().unwrap().writes.clone();
    assert_eq!(writes.len(), 1);
    let frame = decode_packet(&writes[0]).unwrap();
    assert_eq!(frame.blocks[0].cmd, 0x17);
    assert_eq!(frame.blocks[0].params, vec![0x01, 0x01, 0x02]);
}

#[test]
fn previously_attested_address_connects_writable() {
    let (mut c, shared) = make_core(false, vec![ADDR.to_lowercase()]);
    let events = scan_and_connect(&mut c);
    assert!(last_state(&events).model_known);
    run(&mut c, CoreCommand::SetNoise(SimpleNoise::Anc));
    assert_eq!(shared.lock().unwrap().writes.len(), 1);
}

#[test]
fn attestation_is_remembered_in_session_but_not_across_restarts() {
    let (mut c, _shared) = make_core(false, Vec::new());
    scan_and_connect(&mut c);
    run(
        &mut c,
        CoreCommand::ConfirmModel {
            address: ADDR.into(),
        },
    );
    run(&mut c, CoreCommand::Disconnect);
    let events = run(&mut c, CoreCommand::Connect(ADDR.into()));
    assert!(last_state(&events).model_known);

    let (mut c2, _shared2) = make_core(false, Vec::new());
    scan_and_connect(&mut c2);
    let events = run(&mut c2, CoreCommand::RefreshStatus);
    assert!(!last_state(&events).model_known);
}

#[test]
fn attach_connected_attaches_an_already_connected_device_without_scanning() {
    let (mut t, _shared) = TestTransport::new(false);
    t.connected_list = vec![DiscoveredDevice {
        address: ADDR.into(),
        name: "QCY MeloBuds Pro".into(),
        rssi: None,
        model_known: true,
    }];
    let mut c = AppCore::new(t, Vec::new());
    let events = run(&mut c, CoreCommand::AttachConnected);
    assert!(matches!(events[0], CoreEvent::Discovered(_)));
    let snapshot = last_state(&events);
    assert!(snapshot.connected);
    assert_eq!(snapshot.address, ADDR);
    assert!(snapshot.model_known);
    // Already attached: a second attach does nothing.
    assert!(run(&mut c, CoreCommand::AttachConnected).is_empty());
}

#[test]
fn attach_connected_is_a_silent_noop_without_connected_devices() {
    let (mut c, _shared) = make_core(false, Vec::new());
    assert!(run(&mut c, CoreCommand::AttachConnected).is_empty());
    let events = run(&mut c, CoreCommand::Scan);
    assert!(matches!(events[..], [CoreEvent::Discovered(_)]));
}

#[test]
fn attach_connected_applies_a_previous_model_attestation() {
    let (mut t, _shared) = TestTransport::new(false);
    t.connected_list = vec![DiscoveredDevice {
        address: ADDR.into(),
        name: "Fones da Carol".into(),
        rssi: None,
        model_known: false,
    }];
    let mut c = AppCore::new(t, vec![ADDR.into()]);
    let events = run(&mut c, CoreCommand::AttachConnected);
    assert!(last_state(&events).model_known);
}

fn fast_supervisor() -> SupervisorConfig {
    SupervisorConfig {
        tick_ms: 10,
        link_check_every_ticks: 1,
        status_refresh_every_ticks: 5,
        rebootstrap_cooldown_ms: 30,
    }
}

#[test]
fn resident_session_detects_link_loss_and_re_bootstraps() {
    let (mut c, shared) = make_core(true, Vec::new());
    run(&mut c, CoreCommand::Connect(ADDR.into()));
    shared.lock().unwrap().link_up = false;
    let mut events = Vec::new();
    assert_eq!(c.tick(&fast_supervisor(), &mut events), TickOutcome::LinkLost);
    assert_eq!(
        events[0],
        CoreEvent::SessionLost {
            address: ADDR.into()
        }
    );
    assert!(!c.snapshot().connected);
    let mut events = Vec::new();
    assert_eq!(
        c.tick(&fast_supervisor(), &mut events),
        TickOutcome::RebootstrapWanted
    );
    let mut events = Vec::new();
    let result = c.attempt_rebootstrap(&mut events);
    assert!(result.is_ok());
    c.finish_rebootstrap(ADDR.into(), result, &mut events);
    assert!(events.contains(&CoreEvent::SessionRestored {
        address: ADDR.into()
    }));
    assert!(c.snapshot().connected);
}

#[test]
fn keepalive_issues_periodic_status_reads_while_connected() {
    let (mut c, shared) = make_core(true, Vec::new());
    run(&mut c, CoreCommand::Connect(ADDR.into()));
    let before = shared.lock().unwrap().reads;
    let mut events = Vec::new();
    for _ in 0..10 {
        c.tick(&fast_supervisor(), &mut events);
    }
    // Refresh every 5 ticks, two reads each.
    assert_eq!(shared.lock().unwrap().reads, before + 4);
    let states = events
        .iter()
        .filter(|e| matches!(e, CoreEvent::StateChanged(_)))
        .count();
    assert_eq!(states, 2);
}

#[test]
fn explicit_disconnect_disarms_the_supervisor() {
    let (mut c, shared) = make_core(true, Vec::new());
    run(&mut c, CoreCommand::Connect(ADDR.into()));
    run(&mut c, CoreCommand::Disconnect);
    shared.lock().unwrap().link_up = false;
    let attempts = shared.lock().unwrap().connect_attempts;
    let mut events = Vec::new();
    for _ in 0..20 {
        assert_eq!(c.tick(&fast_supervisor(), &mut events), TickOutcome::Idle);
    }
    assert!(events.is_empty());
    assert_eq!(shared.lock().unwrap().connect_attempts, attempts);
}

#[test]
fn re_bootstrap_failures_are_surfaced_once_per_error() {
    let (mut c, shared) = make_core(true, Vec::new());
    run(&mut c, CoreCommand::Connect(ADDR.into()));
    {
        let mut s = shared.lock().unwrap();
        s.link_up = false;
        s.fail_connect = true;
    }
    let mut events = Vec::new();
    assert_eq!(c.tick(&fast_supervisor(), &mut events), TickOutcome::LinkLost);
    let mut errors = Vec::new();
    for _ in 0..3 {
        let mut ev = Vec::new();
        let result = c.attempt_rebootstrap(&mut ev);
        assert!(result.is_err());
        c.finish_rebootstrap(ADDR.into(), result, &mut ev);
        errors.extend(ev);
    }
    assert_eq!(
        errors,
        vec![CoreEvent::Error(
            "re-bootstrap: connect failed: device out of range".into()
        )]
    );
    shared.lock().unwrap().fail_connect = false;
    let mut ev = Vec::new();
    let result = c.attempt_rebootstrap(&mut ev);
    c.finish_rebootstrap(ADDR.into(), result, &mut ev);
    assert!(ev.contains(&CoreEvent::SessionRestored {
        address: ADDR.into()
    }));
}

#[test]
fn known_requested_address_does_not_attest_a_different_session_identity() {
    let (mut t, shared) = TestTransport::new(false);
    t.session_addr = Some(SESSION_ADDR.into());
    let mut c = AppCore::new(t, vec![ADDR.into()]);
    let snapshot = last_state(&scan_and_connect(&mut c));
    assert_eq!(snapshot.session_address.as_deref(), Some(SESSION_ADDR));
    assert!(!snapshot.model_known);
    let events = run(&mut c, CoreCommand::SetNoise(SimpleNoise::Anc));
    assert!(matches!(&events[..], [CoreEvent::Denied(_)]));
    assert!(shared.lock().unwrap().writes.is_empty());
}

#[test]
fn known_session_address_attests_the_fallback_identity() {
    let (mut t, _shared) = TestTransport::new(false);
    t.session_addr = Some(SESSION_ADDR.into());
    let mut c = AppCore::new(t, vec![SESSION_ADDR.into()]);
    let snapshot = last_state(&scan_and_connect(&mut c));
    assert_eq!(snapshot.session_address.as_deref(), Some(SESSION_ADDR));
    assert!(snapshot.model_known);
}

#[test]
fn without_session_address_knowledge_the_requested_address_still_correlates() {
    let (mut c, _shared) = make_core(false, vec![ADDR.into()]);
    let snapshot = last_state(&scan_and_connect(&mut c));
    assert_eq!(snapshot.session_address, None);
    assert!(snapshot.model_known);
}

#[test]
fn confirm_model_persists_the_session_address() {
    let (mut t, _shared) = TestTransport::new(false);
    t.session_addr = Some(SESSION_ADDR.into());
    let mut c = AppCore::new(t, Vec::new());
    scan_and_connect(&mut c);
    let events = run(
        &mut c,
        CoreCommand::ConfirmModel {
            address: ADDR.into(),
        },
    );
    assert_eq!(
        events[0],
        CoreEvent::ModelConfirmed {
            address: SESSION_ADDR.into()
        }
    );
}

#[test]
fn shutdown_changes_nothing() {
    let (mut c, _shared) = make_core(true, Vec::new());
    let mut events = Vec::new();
    assert!(!c.handle_command(CoreCommand::Shutdown, &mut events));
    assert!(events.is_empty());
}

#[test]
fn toggle_failures_are_tagged_with_the_feature() {
    let (mut c, _shared) = make_core(true, Vec::new());
    // Not connected: the transport reports the disconnect.
    let events = run(&mut c, CoreCommand::SetSleepMode(false));
    assert_eq!(
        events,
        vec![CoreEvent::Error("sleep mode: device disconnected".into())]
    );
    let events = run(&mut c, CoreCommand::SetInEarDetection(true));
    assert_eq!(
        events,
        vec![CoreEvent::Error("in-ear detection: device disconnected".into())]
    );
}

#[test]
fn rebootstrap_cooldown_decides_when_an_attempt_is_due() {
    assert!(rebootstrap_due(None, 0, 15000));
    assert!(!rebootstrap_due(Some(1000), 15999, 15000));
    assert!(rebootstrap_due(Some(1000), 16000, 15000));
    assert!(!rebootstrap_due(Some(5000), 100, 15000));
}
