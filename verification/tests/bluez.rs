use std::cell::RefCell;
use std::sync::{Arc, Mutex};

use qcy::bluez::{
    bus_error, device_path, is_already_connected, normalize_mac, BlueZBus, BlueZObject, BlueZTransport, PropValue, CHAR_IFACE,
    DEVICE_IFACE, SERVICE_IFACE,
};
use qcy::packet::encode_command;
use qcy::policy::{Denial, WritePolicy, CHAR_COMMAND_WRITE, SERVICE_MAIN};
use qcy::transport::{Transport, TransportError};

type WriteLog = Arc<Mutex<Vec<(String, Vec<u8>)>>>;

#[derive(Default)]
struct FakeBus {
    objects: Vec<BlueZObject>,
    connected: RefCell<bool>,
    writes: WriteLog,
    notifies: Arc<Mutex<Vec<String>>>,
    fail_connect: bool,
    refuse_connect: Arc<Mutex<bool>>,
    reads: Arc<Mutex<Vec<String>>>,
}

fn obj(path: &str, iface: &str, props: Vec<(&str, PropValue)>) -> BlueZObject {
    let map: Vec<(String, PropValue)> = props
        .into_iter()
        .map(|(k, v)| (k.to_string(), v))
        .collect();
    BlueZObject {
        path: path.to_string(),
        interfaces: vec![(iface.to_string(), map)],
    }
}

fn ht08_fixture() -> Vec<BlueZObject> {
    let dev = "/org/bluez/hci0/dev_F8_5C_7D_12_08_08";
    let svc = format!("{dev}/service0001");
    let char_cmd = format!("{svc}/char0001");
    let char_batt = format!("{svc}/char0002");
    vec![
        obj(
            dev,
            DEVICE_IFACE,
            vec![
                ("Address", PropValue::Str("F8:5C:7D:12:08:08".into())),
                ("Alias", PropValue::Str("QCY MeloBuds Pro".into())),
                ("RSSI", PropValue::I16(-52)),
            ],
        ),
        obj(
            &svc,
            SERVICE_IFACE,
            vec![("UUID", PropValue::Str(SERVICE_MAIN.into()))],
        ),
        obj(
            &char_cmd,
            CHAR_IFACE,
            vec![(
                "UUID",
                PropValue::Str(CHAR_COMMAND_WRITE.into()),
            )],
        ),
        obj(
            &char_batt,
            CHAR_IFACE,
            vec![(
                "UUID",
                PropValue::Str("00000008-0000-1000-8000-00805f9b34fb".into()),
            )],
        ),
    ]
}

impl BlueZBus for FakeBus {
    fn managed_objects(&self) -> Result<Vec<BlueZObject>, TransportError> {
        Ok(self.objects.clone())
    }
    fn start_discovery(&self, _adapter: &str) -> Result<(), TransportError> {
        Ok(())
    }
    fn stop_discovery(&self, _adapter: &str) -> Result<(), TransportError> {
        Ok(())
    }
    fn device_connect(&self, _p: &str) -> Result<(), TransportError> {
        if self.fail_connect || *self.refuse_connect.lock().expect("refuse mutex") {
            return Err(TransportError::DeviceOutOfRange);
        }
        *self.connected.borrow_mut() = true;
        Ok(())
    }
    fn device_disconnect(&self, _p: &str) -> Result<(), TransportError> {
        *self.connected.borrow_mut() = false;
        Ok(())
    }
    fn read_value(&self, char_path: &str) -> Result<Vec<u8>, TransportError> {
        self.reads.lock().expect("reads mutex").push(char_path.to_string());
        if char_path.ends_with("char0002") {
            Ok(vec![0x52, 0x50, 0x5E])
        } else {
            Err(TransportError::NotFound(char_path.into()))
        }
    }
    fn write_value(&self, char_path: &str, bytes: &[u8]) -> Result<(), TransportError> {
        self.writes
            .lock()
            .expect("writes mutex")
            .push((char_path.to_string(), bytes.to_vec()));
        Ok(())
    }
    fn start_notify(&self, char_path: &str) -> Result<(), TransportError> {
        self.notifies
            .lock()
            .expect("notifies mutex")
            .push(char_path.to_string());
        Ok(())
    }
    fn stop_notify(&self, _p: &str) -> Result<(), TransportError> {
        Ok(())
    }
    fn discovery_pause(&self) {}
}

fn transport(objects: Vec<BlueZObject>) -> (BlueZTransport<FakeBus>, WriteLog) {
    let writes = Arc::new(Mutex::new(Vec::new()));
    let bus = FakeBus {
        objects,
        writes: writes.clone(),
        ..Default::default()
    };
    // Zero discovery windows: tests take instant snapshots, no real waits.
    let t = BlueZTransport::new(bus, WritePolicy::ht08()).with_discovery_polls(0, 0, 0);
    (t, writes)
}

#[test]
fn mac_normalization_and_device_path() {
    assert_eq!(normalize_mac("f8:5c:7d:12:08:08"), "F8_5C_7D_12_08_08");
    assert_eq!(
        device_path("hci0", "F8:5C:7D:12:08:08"),
        "/org/bluez/hci0/dev_F8_5C_7D_12_08_08"
    );
}

#[test]
fn scan_filters_qcy_and_marks_model_known() {
    let mut objects = ht08_fixture();
    objects.push(obj(
        "/org/bluez/hci0/dev_AA_BB_CC_DD_EE_FF",
        DEVICE_IFACE,
        vec![
            ("Address", PropValue::Str("AA:BB:CC:DD:EE:FF".into())),
            ("Alias", PropValue::Str("QCY T20".into())),
        ],
    ));
    objects.push(obj(
        "/org/bluez/hci0/dev_11_22_33_44_55_66",
        DEVICE_IFACE,
        vec![
            ("Address", PropValue::Str("11:22:33:44:55:66".into())),
            ("Alias", PropValue::Str("Some Headphones".into())),
        ],
    ));
    let (mut t, _) = transport(objects);
    let list = t.scan().unwrap();
    assert_eq!(list.len(), 2); // non-QCY device filtered out
    let pro = list.iter().find(|d| d.name == "QCY MeloBuds Pro").unwrap();
    assert!(pro.model_known);
    let t20 = list.iter().find(|d| d.name == "QCY T20").unwrap();
    assert!(!t20.model_known); // unknown model stays read-only candidate
}

#[test]
fn connect_resolves_characteristics_and_write_targets_command_char() {
    let (mut t, writes) = transport(ht08_fixture());
    t.connect("F8:5C:7D:12:08:08").unwrap();
    let frame = encode_command(0x09, &[0x01]).unwrap();
    t.write(&frame).unwrap();
    let w = writes.lock().expect("writes mutex");
    assert_eq!(w.len(), 1);
    assert!(w[0].0.ends_with("char0001"));
}

#[test]
fn read_uses_resolved_characteristic_path() {
    let (mut t, _) = transport(ht08_fixture());
    t.connect("F8:5C:7D:12:08:08").unwrap();
    let bytes = t.read("00000008-0000-1000-8000-00805f9b34fb").unwrap();
    assert_eq!(bytes, vec![0x52, 0x50, 0x5E]);
}

#[test]
fn destructive_write_is_denied_before_reaching_the_bus() {
    let (mut t, writes) = transport(ht08_fixture());
    t.connect("F8:5C:7D:12:08:08").unwrap();
    let frame = encode_command(0x01, &[]).unwrap();
    assert!(matches!(t.write(&frame), Err(TransportError::Denied(_))));
    assert!(writes.lock().expect("writes mutex").is_empty());
}

#[test]
fn subscribe_starts_notify_on_the_resolved_char() {
    let (mut t, _) = transport(ht08_fixture());
    t.connect("F8:5C:7D:12:08:08").unwrap();
    t.subscribe(CHAR_COMMAND_WRITE).unwrap();
}

fn unknown_qcy_fixture() -> Vec<BlueZObject> {
    let dev = "/org/bluez/hci0/dev_AA_BB_CC_DD_EE_FF";
    let svc = format!("{dev}/service0001");
    let char_cmd = format!("{svc}/char0001");
    let char_batt = format!("{svc}/char0002");
    vec![
        obj(
            dev,
            DEVICE_IFACE,
            vec![
                ("Address", PropValue::Str("AA:BB:CC:DD:EE:FF".into())),
                ("Alias", PropValue::Str("QCY T20".into())),
            ],
        ),
        obj(
            &svc,
            SERVICE_IFACE,
            vec![("UUID", PropValue::Str(SERVICE_MAIN.into()))],
        ),
        obj(
            &char_cmd,
            CHAR_IFACE,
            vec![(
                "UUID",
                PropValue::Str(CHAR_COMMAND_WRITE.into()),
            )],
        ),
        obj(
            &char_batt,
            CHAR_IFACE,
            vec![(
                "UUID",
                PropValue::Str("00000008-0000-1000-8000-00805f9b34fb".into()),
            )],
        ),
    ]
}

#[test]
fn unknown_model_device_is_read_only_after_connect() {
    let (mut t, writes) = transport(unknown_qcy_fixture());
    t.connect("AA:BB:CC:DD:EE:FF").unwrap();
    let frame = encode_command(0x09, &[0x01]).unwrap();
    match t.write(&frame) {
        Err(TransportError::Denied(Denial::ReadOnlyDevice)) => {}
        other => panic!("expected ReadOnlyDevice denial, got {other:?}"),
    }
    assert!(writes.lock().expect("writes mutex").is_empty());
    // Read-only still permits characteristic reads.
    assert!(t.read("00000008-0000-1000-8000-00805f9b34fb").is_ok());
}

#[test]
fn user_attestation_lifts_read_only_but_never_allows_destructive() {
    let (mut t, writes) = transport(unknown_qcy_fixture());
    t.connect("AA:BB:CC:DD:EE:FF").unwrap();
    t.attest_model_known();
    let frame = encode_command(0x09, &[0x01]).unwrap();
    t.write(&frame).unwrap();
    assert_eq!(writes.lock().expect("writes mutex").len(), 1);
    // Destructive opcodes stay forbidden even after attestation.
    let reset = encode_command(0x01, &[]).unwrap();
    assert!(matches!(t.write(&reset), Err(TransportError::Denied(_))));
    assert_eq!(writes.lock().expect("writes mutex").len(), 1);
}

#[test]
fn disconnect_clears_model_evidence() {
    let (mut t, writes) = transport(ht08_fixture());
    t.connect("F8:5C:7D:12:08:08").unwrap();
    t.disconnect().unwrap();
    let frame = encode_command(0x09, &[0x01]).unwrap();
    // After disconnect the device is both gone and no longer proven: nothing
    // may reach the bus either way.
    assert!(matches!(
        t.write(&frame),
        Err(TransportError::Denied(_)) | Err(TransportError::Disconnected)
    ));
    assert!(writes.lock().expect("writes mutex").is_empty());
}

#[test]
fn connect_failure_surfaces_structured_error() {
    let bus = FakeBus {
        objects: ht08_fixture(),
        fail_connect: true,
        ..Default::default()
    };
    let mut t = BlueZTransport::new(bus, WritePolicy::ht08()).with_discovery_polls(0, 0, 0);
    assert_eq!(
        t.connect("F8:5C:7D:12:08:08"),
        Err(TransportError::DeviceOutOfRange)
    );
}

/// Dual-mode fixture: the BR/EDR identity (audio pairing, no GATT children)
/// plus the BLE identity (same renamed name, vendor GATT service).
fn dual_mode_fixture() -> Vec<BlueZObject> {
    let mut objects = Vec::new();
    let bredr = "/org/bluez/hci0/dev_84_AC_60_62_69_DA";
    objects.push(obj(
        bredr,
        DEVICE_IFACE,
        vec![
            ("Address", PropValue::Str("84:AC:60:62:69:DA".into())),
            ("Alias", PropValue::Str("MeloBuds de Carol".into())),
        ],
    ));
    let le = "/org/bluez/hci0/dev_C4_AC_60_62_69_DB";
    let svc = format!("{le}/service0001");
    let char_cmd = format!("{svc}/char0001");
    let char_batt = format!("{svc}/char0002");
    objects.push(obj(
        le,
        DEVICE_IFACE,
        vec![
            ("Address", PropValue::Str("C4:AC:60:62:69:DB".into())),
            ("Alias", PropValue::Str("MeloBuds de Carol".into())),
            ("RSSI", PropValue::I16(-60)),
        ],
    ));
    objects.push(obj(
        &svc,
        SERVICE_IFACE,
        vec![("UUID", PropValue::Str(SERVICE_MAIN.into()))],
    ));
    objects.push(obj(
        &char_cmd,
        CHAR_IFACE,
        vec![(
            "UUID",
            PropValue::Str(CHAR_COMMAND_WRITE.into()),
        )],
    ));
    objects.push(obj(
        &char_batt,
        CHAR_IFACE,
        vec![(
            "UUID",
            PropValue::Str("00000008-0000-1000-8000-00805f9b34fb".into()),
        )],
    ));
    objects
}

#[test]
fn connect_falls_back_to_the_ble_identity_of_a_dual_mode_device() {
    let (mut t, writes) = transport(dual_mode_fixture());
    // The user picks the BR/EDR address (the paired audio device); the
    // transport must bridge to the BLE identity that carries the GATT.
    t.connect("84:AC:60:62:69:DA").unwrap();
    // Renamed device: model still unproven, so writes stay denied...
    let frame = encode_command(0x09, &[0x01]).unwrap();
    assert!(matches!(
        t.write(&frame),
        Err(TransportError::Denied(
            Denial::ReadOnlyDevice
        ))
    ));
    // ...until the user attests the model; then writes target the BLE char.
    t.attest_model_known();
    t.write(&frame).unwrap();
    let w = writes.lock().expect("writes mutex");
    assert_eq!(w.len(), 1);
    assert!(w[0].0.contains("dev_C4_AC_60_62_69_DB"));
    // Status reads work through the BLE identity too.
    assert!(t.read("00000008-0000-1000-8000-00805f9b34fb").is_ok());
}

#[test]
fn connect_fallback_accepts_a_vendor_service_advertisement() {
    // The BLE identity has a different name but advertises the vendor main
    // service in its UUIDs — accepted as a fallback candidate.
    let mut objects = Vec::new();
    objects.push(obj(
        "/org/bluez/hci0/dev_84_AC_60_62_69_DA",
        DEVICE_IFACE,
        vec![
            ("Address", PropValue::Str("84:AC:60:62:69:DA".into())),
            ("Alias", PropValue::Str("MeloBuds de Carol".into())),
        ],
    ));
    let le = "/org/bluez/hci0/dev_C4_AC_60_62_69_DB";
    let svc = format!("{le}/service0001");
    objects.push(obj(
        le,
        DEVICE_IFACE,
        vec![
            ("Address", PropValue::Str("C4:AC:60:62:69:DB".into())),
            ("Alias", PropValue::Str("QCY-Buds".into())),
            ("UUIDs", PropValue::StrArray(vec![SERVICE_MAIN.to_string()])),
        ],
    ));
    objects.push(obj(
        &svc,
        SERVICE_IFACE,
        vec![("UUID", PropValue::Str(SERVICE_MAIN.into()))],
    ));
    objects.push(obj(
        &format!("{svc}/char0001"),
        CHAR_IFACE,
        vec![(
            "UUID",
            PropValue::Str(CHAR_COMMAND_WRITE.into()),
        )],
    ));
    let (mut t, _writes) = transport(objects);
    t.connect("84:AC:60:62:69:DA").unwrap();
}

#[test]
fn connect_without_gatt_or_candidates_reports_actionable_error() {
    // Only the BR/EDR object exists and nothing else qualifies as a BLE
    // identity: the error must tell the user how to wake the BLE side.
    let objects = vec![obj(
        "/org/bluez/hci0/dev_84_AC_60_62_69_DA",
        DEVICE_IFACE,
        vec![
            ("Address", PropValue::Str("84:AC:60:62:69:DA".into())),
            ("Alias", PropValue::Str("MeloBuds de Carol".into())),
        ],
    )];
    let (mut t, _writes) = transport(objects);
    match t.connect("84:AC:60:62:69:DA") {
        Err(TransportError::NotFound(msg)) => {
            assert!(msg.contains("charging case"), "message was: {msg}");
        }
        other => panic!("expected actionable NotFound, got {other:?}"),
    }
}


/* Edge cases on concrete values */

#[test]
fn scan_output_is_sorted_by_address_and_deduplicated() {
    let mut objects = vec![
        obj(
            "/org/bluez/hci0/dev_CC",
            DEVICE_IFACE,
            vec![
                ("Address", PropValue::Str("CC:00:00:00:00:00".into())),
                ("Alias", PropValue::Str("QCY B".into())),
            ],
        ),
        obj(
            "/org/bluez/hci0/dev_AA",
            DEVICE_IFACE,
            vec![
                ("Address", PropValue::Str("AA:00:00:00:00:00".into())),
                ("Name", PropValue::Str("MeloBuds Pro".into())),
            ],
        ),
    ];
    objects.push(obj(
        "/org/bluez/hci0/dev_CC2",
        DEVICE_IFACE,
        vec![
            ("Address", PropValue::Str("CC:00:00:00:00:00".into())),
            ("Alias", PropValue::Str("QCY HT08".into())),
        ],
    ));
    let (mut t, _) = transport(objects);
    let list = t.scan().unwrap();
    assert_eq!(list.len(), 2);
    assert_eq!(list[0].address, "AA:00:00:00:00:00");
    assert!(list[0].model_known);
    assert_eq!(list[1].address, "CC:00:00:00:00:00");
    // The later sighting of an address replaces the earlier one.
    assert_eq!(list[1].name, "QCY HT08");
    assert!(list[1].model_known);
}

#[test]
fn mac_normalization_trims_and_maps_dashes() {
    assert_eq!(normalize_mac("  f8-5c-7d-12-08-08 "), "F8_5C_7D_12_08_08");
    assert_eq!(device_path("hci1", "aa:bb"), "/org/bluez/hci1/dev_AA_BB");
}

#[test]
fn read_of_an_unresolved_characteristic_is_not_found() {
    let (mut t, _) = transport(ht08_fixture());
    t.connect("F8:5C:7D:12:08:08").unwrap();
    assert!(matches!(
        t.read("0000dead-0000-1000-8000-00805f9b34fb"),
        Err(TransportError::NotFound(_))
    ));
    // Characteristic UUIDs are matched case-insensitively.
    assert!(t.read("00000008-0000-1000-8000-00805F9B34FB").is_ok());
}

#[test]
fn bus_error_messages_map_to_structured_errors() {
    assert_eq!(bus_error("org.bluez.Error.NotPermitted: Not paired"), TransportError::PermissionDenied);
    assert_eq!(bus_error("org.freedesktop.DBus.Error.NoReply: timeout"), TransportError::Timeout);
    assert_eq!(bus_error("org.bluez.Error.InProgress"), TransportError::Timeout);
    assert_eq!(bus_error("NoSuchAdapter"), TransportError::AdapterOff);
    assert_eq!(bus_error("org.bluez.Error.Failed: le-connection-abort-by-local"), TransportError::DeviceOutOfRange);
    assert_eq!(bus_error("org.bluez.Error.NotConnected"), TransportError::Disconnected);
    assert_eq!(bus_error("weird"), TransportError::Bus("weird".to_string()));
    assert!(is_already_connected("org.bluez.Error.AlreadyConnected"));
    assert!(!is_already_connected("org.bluez.Error.Failed: br-connection-busy"));
}

#[test]
fn a_failed_reconnect_closes_the_session_until_a_new_connect_succeeds() {
    let writes: WriteLog = Arc::new(Mutex::new(Vec::new()));
    let refuse = Arc::new(Mutex::new(false));
    let reads = Arc::new(Mutex::new(Vec::new()));
    let notifies = Arc::new(Mutex::new(Vec::new()));
    let bus = FakeBus {
        objects: ht08_fixture(),
        writes: writes.clone(),
        refuse_connect: refuse.clone(),
        reads: reads.clone(),
        notifies: notifies.clone(),
        ..Default::default()
    };
    let mut t = BlueZTransport::new(bus, WritePolicy::ht08()).with_discovery_polls(0, 0, 0);
    t.connect("F8:5C:7D:12:08:08").unwrap();
    assert!(t.read("00000008-0000-1000-8000-00805f9b34fb").is_ok());
    assert_eq!(reads.lock().expect("reads mutex").len(), 1);
    *refuse.lock().expect("refuse mutex") = true;
    assert!(t.connect("F8:5C:7D:12:08:08").is_err());
    let frame = encode_command(0x09, &[0x01]).unwrap();
    assert_eq!(t.read("00000008-0000-1000-8000-00805f9b34fb"), Err(TransportError::Disconnected));
    assert_eq!(t.write(&frame), Err(TransportError::Disconnected));
    assert_eq!(t.subscribe("00000008-0000-1000-8000-00805f9b34fb"), Err(TransportError::Disconnected));
    assert_eq!(reads.lock().expect("reads mutex").len(), 1);
    assert!(writes.lock().expect("writes mutex").is_empty());
    assert!(notifies.lock().expect("notifies mutex").is_empty());
    *refuse.lock().expect("refuse mutex") = false;
    t.connect("F8:5C:7D:12:08:08").unwrap();
    assert!(t.read("00000008-0000-1000-8000-00805f9b34fb").is_ok());
}

#[test]
fn read_after_disconnect_is_refused_without_a_bus_read() {
    let (mut t, writes) = transport(ht08_fixture());
    t.connect("F8:5C:7D:12:08:08").unwrap();
    t.disconnect().unwrap();
    assert_eq!(t.read("00000008-0000-1000-8000-00805f9b34fb"), Err(TransportError::Disconnected));
    assert_eq!(t.subscribe("00000008-0000-1000-8000-00805f9b34fb"), Err(TransportError::Disconnected));
    assert!(writes.lock().expect("writes mutex").is_empty());
}
