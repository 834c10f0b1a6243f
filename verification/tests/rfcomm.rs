use std::collections::VecDeque;
use std::sync::{Arc, Mutex};

use qcy::frame_reader::FrameReader;
use qcy::packet::{encode_blocks, encode_command, CommandBlock};
use qcy::policy::{Denial, WritePolicy, CHAR_EQ_DIRECT, CHAR_SETTINGS_NOTIFY};
use qcy::rfcomm::{
    connect_error, parse_bdaddr, ConnectFailure, RfcommSocket, RfcommSocketFactory, RfcommTransport, CHAR_BATTERY, CHAR_VERSION,
    DEFAULT_RFCOMM_CHANNEL,
};
use qcy::transport::{Transport, TransportError};

/// One scripted socket event.
#[derive(Debug, Clone)]
enum IoEvent {
    /// Bytes returned by the next `read`.
    Data(Vec<u8>),
    /// Peer closed the connection.
    Eof,
    /// Receive timeout elapsed with no data.
    Tick,
}

#[derive(Default)]
struct FakePipe {
    rx: Mutex<VecDeque<IoEvent>>,
    tx: Mutex<Vec<Vec<u8>>>,
    opens: Mutex<Vec<(String, u8)>>,
}

struct FakeSocket {
    pipe: Arc<FakePipe>,
}

impl RfcommSocket for FakeSocket {
    fn read(&mut self, max: usize) -> Result<Vec<u8>, TransportError> {
        let mut rx = self.pipe.rx.lock().unwrap();
        match rx.pop_front() {
            Some(IoEvent::Data(data)) => {
                let n = data.len().min(max);
                Ok(data[..n].to_vec())
            }
            Some(IoEvent::Eof) => Ok(Vec::new()),
            Some(IoEvent::Tick) | None => Err(TransportError::Timeout),
        }
    }

    fn write_all(&mut self, bytes: &[u8]) -> Result<(), TransportError> {
        self.pipe.tx.lock().unwrap().push(bytes.to_vec());
        Ok(())
    }
}

struct FakeFactory {
    pipe: Arc<FakePipe>,
}

impl RfcommSocketFactory for FakeFactory {
    type Socket = FakeSocket;

    fn open(&self, address: &str, channel: u8) -> Result<FakeSocket, TransportError> {
        self.pipe
            .opens
            .lock()
            .unwrap()
            .push((address.to_string(), channel));
        Ok(FakeSocket {
            pipe: Arc::clone(&self.pipe),
        })
    }
}

/// Socket reads a test read-back exchange may take (the receive timeout of
/// the fake socket is immediate).
const TEST_RESPONSE_READS: u32 = 8;

fn transport() -> (RfcommTransport<FakeFactory>, Arc<FakePipe>) {
    let pipe = Arc::new(FakePipe::default());
    let t = RfcommTransport::new(
        FakeFactory {
            pipe: Arc::clone(&pipe),
        },
        WritePolicy::ht08(),
    )
    .with_response_timeout(TEST_RESPONSE_READS);
    (t, pipe)
}

fn connected() -> (RfcommTransport<FakeFactory>, Arc<FakePipe>) {
    let (mut t, pipe) = transport();
    t.connect("84:AC:60:62:69:DA").unwrap();
    (t, pipe)
}

fn from_hex(s: &str) -> Vec<u8> {
    (0..s.len())
        .step_by(2)
        .map(|i| u8::from_str_radix(&s[i..i + 2], 16).unwrap())
        .collect()
}

/* -------------------- FrameReader -------------------- */

#[test]
fn frame_reader_extracts_a_valid_frame() {
    let mut r = FrameReader::new();
    r.push(&from_hex("ff052f0352505e"));
    assert_eq!(r.next_frame(), Some(from_hex("ff052f0352505e")));
    assert_eq!(r.next_frame(), None);
}

#[test]
fn frame_reader_skips_garbage_before_sof() {
    let mut r = FrameReader::new();
    r.push(&from_hex("0012abff052f0352505e"));
    assert_eq!(r.next_frame(), Some(from_hex("ff052f0352505e")));
}

#[test]
fn frame_reader_reassembles_split_frames() {
    let mut r = FrameReader::new();
    r.push(&from_hex("ff05"));
    assert_eq!(r.next_frame(), None);
    r.push(&from_hex("2f0352"));
    assert_eq!(r.next_frame(), None);
    r.push(&from_hex("505e"));
    assert_eq!(r.next_frame(), Some(from_hex("ff052f0352505e")));
}

#[test]
fn frame_reader_drops_invalid_candidates_and_rescans() {
    let mut r = FrameReader::new();
    // First candidate is complete (body_len=3) but truncated inside its
    // block; the reader must drop its SOF and find the valid frame.
    r.push(&from_hex("ff032f0500ff052f0352505e"));
    assert_eq!(r.next_frame(), Some(from_hex("ff052f0352505e")));
}

#[test]
fn frame_reader_resyncs_after_a_stray_sof_with_implausible_length() {
    // a stray 0xFF followed by another 0xFF declares a 255-byte
    // body. Without the plausibility bound the reader stalled waiting for
    // 257 bytes and swallowed the valid frame behind the stray byte.
    let mut r = FrameReader::new();
    r.push(&from_hex("ffff052f0352505e"));
    assert_eq!(r.next_frame(), Some(from_hex("ff052f0352505e")));
    assert_eq!(r.next_frame(), None);
}

#[test]
fn frame_reader_resyncs_when_only_the_stray_sof_has_arrived() {
    let mut r = FrameReader::new();
    r.push(&from_hex("ff"));
    assert_eq!(r.next_frame(), None);
    r.push(&from_hex("ff052f0352505e"));
    assert_eq!(r.next_frame(), Some(from_hex("ff052f0352505e")));
}

#[test]
fn frame_reader_accepts_empty_body_frame() {
    let mut r = FrameReader::new();
    r.push(&from_hex("ff00"));
    assert_eq!(r.next_frame(), Some(from_hex("ff00")));
}

#[test]
fn frame_reader_buffer_is_bounded_under_garbage_flood() {
    let mut r = FrameReader::new();
    let garbage = vec![0xAB; 8192];
    r.push(&garbage);
    r.push(&from_hex("ff052f0352505e"));
    assert_eq!(r.next_frame(), Some(from_hex("ff052f0352505e")));
}

/* -------------------- connect / discovery -------------------- */

#[test]
fn scan_surfaces_nothing_and_connect_records_address_and_channel() {
    let (mut t, pipe) = transport();
    assert!(t.scan().unwrap().is_empty());
    t.connect("84:ac:60:62:69:da").unwrap();
    assert_eq!(
        pipe.opens.lock().unwrap().as_slice(),
        &[("84:AC:60:62:69:DA".to_string(), DEFAULT_RFCOMM_CHANNEL)]
    );
    assert_eq!(t.connected_address(), Some("84:AC:60:62:69:DA"));
}

#[test]
fn custom_channel_is_used() {
    let (t, pipe) = transport();
    let mut t = t.with_channel(3);
    t.connect("84:AC:60:62:69:DA").unwrap();
    assert_eq!(pipe.opens.lock().unwrap()[0].1, 3);
}

/* -------------------- reads -------------------- */

#[test]
fn battery_read_sends_request_data_and_returns_params() {
    let (mut t, pipe) = connected();
    pipe.rx
        .lock()
        .unwrap()
        .push_back(IoEvent::Data(from_hex("ff052f0352505e")));
    let bytes = t.read(CHAR_BATTERY).unwrap();
    assert_eq!(bytes, vec![0x52, 0x50, 0x5E]);
    assert_eq!(
        pipe.tx.lock().unwrap().as_slice(),
        &[from_hex("ff03fe012f")]
    );
}

#[test]
fn version_read_maps_to_0x30() {
    let (mut t, pipe) = connected();
    pipe.rx
        .lock()
        .unwrap()
        .push_back(IoEvent::Data(from_hex("ff083006010402010402")));
    let bytes = t.read(CHAR_VERSION).unwrap();
    assert_eq!(bytes, vec![1, 4, 2, 1, 4, 2]);
    assert_eq!(
        pipe.tx.lock().unwrap().as_slice(),
        &[from_hex("ff03fe0130")]
    );
}

#[test]
fn read_works_even_for_read_only_devices() {
    // RequestData is a read-back request: the policy allows it before any
    // model attestation, so status reads never require writability.
    let (mut t, pipe) = connected();
    assert!(!t.is_model_known());
    pipe.rx
        .lock()
        .unwrap()
        .push_back(IoEvent::Data(from_hex("ff052f0352505e")));
    assert!(t.read(CHAR_BATTERY).is_ok());
}

#[test]
fn read_times_out_when_the_device_is_silent() {
    let (mut t, pipe) = connected();
    // Receive-timeout ticks with no data, like a real SO_RCVTIMEO, until
    // the response window elapses.
    for _ in 0..3 {
        pipe.rx.lock().unwrap().push_back(IoEvent::Tick);
    }
    assert_eq!(t.read(CHAR_BATTERY), Err(TransportError::Timeout));
}

#[test]
fn read_reports_disconnect_on_eof() {
    let (mut t, pipe) = connected();
    pipe.rx.lock().unwrap().push_back(IoEvent::Eof);
    assert_eq!(t.read(CHAR_BATTERY), Err(TransportError::Disconnected));
}

#[test]
fn read_unknown_characteristic_is_not_found() {
    let (mut t, _pipe) = connected();
    assert!(matches!(
        t.read("0000dead-0000-1000-8000-00805f9b34fb"),
        Err(TransportError::NotFound(_))
    ));
}

#[test]
fn read_requires_connection() {
    let (mut t, _pipe) = transport();
    assert_eq!(t.read(CHAR_BATTERY), Err(TransportError::Disconnected));
}

#[test]
fn unsolicited_frames_are_queued_while_answering_a_read() {
    let (mut t, pipe) = connected();
    t.subscribe(CHAR_SETTINGS_NOTIFY).unwrap();
    // Device first pushes an unsolicited LowLatency frame, then answers.
    pipe.rx
        .lock()
        .unwrap()
        .push_back(IoEvent::Data(from_hex("ff03090101ff052f0352505e")));
    let bytes = t.read(CHAR_BATTERY).unwrap();
    assert_eq!(bytes, vec![0x52, 0x50, 0x5E]);
    assert_eq!(t.pop_notify(), Some(from_hex("ff03090101")));
    assert_eq!(t.pop_notify(), None);
}

#[test]
fn unsolicited_frames_are_dropped_without_a_subscription() {
    // the `subscribed` flag is wired — mirroring GATT, notify
    // frames are only surfaced after subscribe().
    let (mut t, pipe) = connected();
    pipe.rx
        .lock()
        .unwrap()
        .push_back(IoEvent::Data(from_hex("ff03090101ff052f0352505e")));
    let bytes = t.read(CHAR_BATTERY).unwrap();
    assert_eq!(bytes, vec![0x52, 0x50, 0x5E]);
    assert_eq!(t.pop_notify(), None);
}

#[test]
fn is_connected_tracks_the_socket_state() {
    // the trait default (always false) would make a
    // resident-session supervisor re-bootstrap in a loop.
    let (mut t, _pipe) = connected();
    assert_eq!(t.is_connected(), Ok(true));
    t.disconnect().unwrap();
    assert_eq!(t.is_connected(), Ok(false));
}

/* -------------------- writes / policy -------------------- */

#[test]
fn rfcomm_write_requires_connection() {
    let (mut t, _pipe) = transport();
    let frame = encode_command(0x09, &[0x01]).unwrap();
    assert_eq!(t.write(&frame), Err(TransportError::Disconnected));
}

#[test]
fn unknown_device_stays_read_only_over_spp() {
    // SPP exposes no advertised name: without attestation the device is
    // read-only and nothing reaches the wire.
    let (mut t, pipe) = connected();
    let frame = encode_command(0x09, &[0x01]).unwrap();
    assert!(matches!(
        t.write(&frame),
        Err(TransportError::Denied(
            Denial::ReadOnlyDevice
        ))
    ));
    assert!(pipe.tx.lock().unwrap().is_empty());
}

#[test]
fn attestation_lifts_read_only_and_the_frame_reaches_the_wire() {
    let (mut t, pipe) = connected();
    t.attest_model_known();
    let frame = encode_command(0x09, &[0x01]).unwrap();
    t.write(&frame).unwrap();
    assert_eq!(pipe.tx.lock().unwrap().as_slice(), &[frame]);
}

#[test]
fn falsified_0x0c_needs_opt_in_over_spp_like_everywhere_else() {
    // 0x0C NoiseCancelMode was demoted to write-experimental
    // after live HT08 validation showed the device ignores it. The
    // SPP path must enforce the same opt-in as GATT.
    let (mut t, pipe) = connected();
    t.attest_model_known();
    let frame = encode_command(0x0C, &[0x01]).unwrap();
    assert!(matches!(
        t.write(&frame),
        Err(TransportError::Denied(
            Denial::ExperimentalWithoutOptIn(0x0C)
        ))
    ));
    assert!(pipe.tx.lock().unwrap().is_empty());
}

#[test]
fn destructive_writes_are_denied_even_after_attestation() {
    let (mut t, pipe) = connected();
    t.attest_model_known();
    for op in [0x01u8, 0x02, 0x03] {
        let frame = encode_command(op, &[]).unwrap();
        assert!(matches!(
            t.write(&frame),
            Err(TransportError::Denied(
                Denial::DestructiveOpcode(_)
            ))
        ));
    }
    assert!(pipe.tx.lock().unwrap().is_empty());
}

#[test]
fn experimental_writes_require_opt_in_over_spp() {
    let (mut t, pipe) = connected();
    t.attest_model_known();
    let frame = encode_command(0x23, &[0x01]).unwrap();
    assert!(matches!(
        t.write(&frame),
        Err(TransportError::Denied(
            Denial::ExperimentalWithoutOptIn(0x23)
        ))
    ));
    t.set_experimental_opt_in(true);
    t.write(&frame).unwrap();
    assert_eq!(pipe.tx.lock().unwrap().len(), 1);
}

#[test]
fn attestation_is_cleared_by_disconnect_and_ignored_when_not_connected() {
    let (mut t, _pipe) = transport();
    t.attest_model_known(); // no-op without a connection
    t.connect("84:AC:60:62:69:DA").unwrap();
    let frame = encode_command(0x09, &[0x01]).unwrap();
    assert!(matches!(
        t.write(&frame),
        Err(TransportError::Denied(
            Denial::ReadOnlyDevice
        ))
    ));
}

/* -------------------- direct writes / subscribe -------------------- */

#[test]
fn write_direct_has_no_spp_equivalent() {
    let (mut t, _pipe) = connected();
    assert!(matches!(
        t.write_direct(CHAR_EQ_DIRECT, &[1, 2]),
        Err(TransportError::NotFound(_))
    ));
}

#[test]
fn subscribe_accepts_only_the_settings_notify_equivalent() {
    let (mut t, _pipe) = connected();
    t.subscribe(CHAR_SETTINGS_NOTIFY).unwrap();
    assert!(matches!(
        t.subscribe(CHAR_BATTERY),
        Err(TransportError::NotFound(_))
    ));
}

/* -------------------- address parsing -------------------- */

#[test]
fn parse_bdaddr_accepts_colon_hex_and_rejects_garbage() {
    assert_eq!(
        parse_bdaddr("84:AC:60:62:69:DA").unwrap(),
        [0x84, 0xAC, 0x60, 0x62, 0x69, 0xDA]
    );
    assert!(matches!(
        parse_bdaddr("84:AC:60:62:69"),
        Err(TransportError::InvalidArgument(_))
    ));
    assert!(matches!(
        parse_bdaddr("84:AC:60:62:69:ZZ"),
        Err(TransportError::InvalidArgument(_))
    ));
}

#[test]
fn multi_block_answer_returns_the_requested_block_params() {
    let (mut t, pipe) = connected();
    let answer = encode_blocks(&[
        CommandBlock {
            cmd: 0x09,
            params: vec![0x01],
        },
        CommandBlock {
            cmd: 0x2F,
            params: vec![0x52, 0x50, 0x5E],
        },
    ])
    .unwrap();
    pipe.rx.lock().unwrap().push_back(IoEvent::Data(answer));
    assert_eq!(t.read(CHAR_BATTERY).unwrap(), vec![0x52, 0x50, 0x5E]);
}


/* Laws and edge cases on concrete values */

#[test]
fn a_frame_pushed_whole_comes_back_whole() {
    let frame = encode_command(0x17, &[0x01, 0x05, 0x02]).unwrap();
    let mut r = FrameReader::new();
    r.push(&frame);
    assert_eq!(r.next_frame(), Some(frame));
    assert_eq!(r.next_frame(), None);
}

#[test]
fn notify_queue_drops_the_oldest_frame_when_full() {
    let pipe = Arc::new(FakePipe::default());
    let mut t = RfcommTransport::new(
        FakeFactory {
            pipe: Arc::clone(&pipe),
        },
        WritePolicy::ht08(),
    )
    .with_response_timeout(200);
    t.connect("84:AC:60:62:69:DA").unwrap();
    t.subscribe(CHAR_SETTINGS_NOTIFY).unwrap();
    for i in 0..70u8 {
        let frame = encode_command(0x09, &[i]).unwrap();
        pipe.rx.lock().unwrap().push_back(IoEvent::Data(frame));
    }
    pipe.rx
        .lock()
        .unwrap()
        .push_back(IoEvent::Data(from_hex("ff052f0352505e")));
    assert_eq!(t.read(CHAR_BATTERY).unwrap(), vec![0x52, 0x50, 0x5E]);
    let mut queued = Vec::new();
    while let Some(f) = t.pop_notify() {
        queued.push(f);
    }
    assert_eq!(queued.len(), 64);
    assert_eq!(queued[0], encode_command(0x09, &[6]).unwrap());
    assert_eq!(queued.last(), Some(&encode_command(0x09, &[69]).unwrap()));
}

#[test]
fn parse_bdaddr_accepts_lowercase_hex() {
    assert_eq!(
        parse_bdaddr("84:ac:60:62:69:da").unwrap(),
        [0x84, 0xAC, 0x60, 0x62, 0x69, 0xDA]
    );
    assert!(matches!(
        parse_bdaddr("84:AC:60:62:69:DA:00"),
        Err(TransportError::InvalidArgument(_))
    ));
    assert!(matches!(parse_bdaddr(""), Err(TransportError::InvalidArgument(_))));
}

#[test]
fn connect_failures_map_to_structured_errors() {
    assert_eq!(connect_error(ConnectFailure::Unreachable, 1, "x"), TransportError::DeviceOutOfRange);
    assert_eq!(connect_error(ConnectFailure::NetworkDown, 1, "x"), TransportError::AdapterOff);
    assert_eq!(connect_error(ConnectFailure::AccessDenied, 1, "x"), TransportError::PermissionDenied);
    assert_eq!(
        connect_error(ConnectFailure::Refused, 12, "x"),
        TransportError::NotFound("RFCOMM channel 12 refused (no service listening)".to_string())
    );
    assert_eq!(
        connect_error(ConnectFailure::Other, 1, "Invalid argument (os error 22)"),
        TransportError::Bus("RFCOMM connect failed: Invalid argument (os error 22)".to_string())
    );
}
