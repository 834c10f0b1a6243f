//! SPP/RFCOMM transport backend: the same `0xFF`-framed protocol over a byte
//! stream.
//!
//! Bytes from the earbuds are untrusted: every frame is validated before use,
//! garbage between frames is discarded, buffer growth is bounded, and a read-back
//! exchange gives up after a bounded number of socket reads. Outbound writes pass
//! the central write policy exactly like the GATT backend, and an SPP device stays
//! read-only until explicit user attestation (SPP exposes no advertised name).
//!
//! Status reads are `RequestData(0xFE)` exchanges; direct characteristic writes
//! have no SPP equivalent.

use std::collections::VecDeque;
use vstd::prelude::*;

use crate::frame_reader::{
    extract, lemma_extracted_frames_are_valid, lemma_skip_to_sof_len, skip_to_sof, FrameReader,
    MAX_FRAME, MAX_REASONABLE_FRAME,
};
use crate::packet::{decode_packet, encode_command, is_valid_frame, spec_decode, spec_encode, BlockModel};
use crate::policy::{frame_verdict, Denial, WritePolicy, CHAR_SETTINGS_NOTIFY};
use crate::text::{
    append_chars, append_str, ascii_lower_chars, ascii_lower_seq, chars_eq, chars_of, decimal,
    decimal_u8, string_of,
};
use crate::transport::{normalize_address, normalized_address, DiscoveredDevice, Transport, TransportError};

verus! {

/// SPP service UUID (Serial Port Profile).
pub const SPP_UUID: &'static str = "00001101-0000-1000-8000-00805f9b34fb";

/// Default RFCOMM channel for the QCY control service.
pub const DEFAULT_RFCOMM_CHANNEL: u8 = 1;

/// RequestData opcode: read-back request used to read state over the stream.
pub const REQUEST_DATA: u8 = 0xFE;
/// Opcode the device answers with after `RequestData(0xFE, [0x2F])`.
pub const OP_BATTERY: u8 = 0x2F;
/// Opcode the device answers with after `RequestData(0xFE, [0x30])`.
pub const OP_VERSION: u8 = 0x30;

/// Battery characteristic UUID, mapped to a stream `0x2F` read.
pub const CHAR_BATTERY: &'static str = "00000008-0000-1000-8000-00805f9b34fb";
/// Version characteristic UUID, mapped to a stream `0x30` read.
pub const CHAR_VERSION: &'static str = "00000007-0000-1000-8000-00805f9b34fb";

/// Bound on queued unsolicited notification frames (oldest dropped).
pub const MAX_NOTIFY_QUEUE: usize = 64;

/// Default number of socket reads one read-back exchange may take before it
/// times out (a 3 s window at the 200 ms receive timeout of the raw socket).
pub const DEFAULT_RESPONSE_READS: u32 = 15;

/// Why opening an RFCOMM connection failed, as the operating system reports it.
#[derive(Debug, Clone, Copy, PartialEq, Eq, Structural)]
pub enum ConnectFailure {
    /// The host is down or unreachable, or the attempt timed out.
    Unreachable,
    /// The local network (the adapter) is down.
    NetworkDown,
    /// Access to the socket was refused.
    AccessDenied,
    /// Nothing listens on the channel.
    Refused,
    /// Any other failure.
    Other,
}

/// The text of a refused channel.
pub open spec fn refused_text(channel: u8) -> Seq<char> {
    "RFCOMM channel "@ + decimal(channel as nat) + " refused (no service listening)"@
}

/// The structured error of a failed RFCOMM connection on `channel`; `detail`
/// describes an otherwise unclassified failure.
pub fn connect_error(failure: ConnectFailure, channel: u8, detail: &str) -> (r: TransportError)
    ensures
        failure == ConnectFailure::Unreachable ==> r == TransportError::DeviceOutOfRange,
        failure == ConnectFailure::NetworkDown ==> r == TransportError::AdapterOff,
        failure == ConnectFailure::AccessDenied ==> r == TransportError::PermissionDenied,
        failure == ConnectFailure::Refused ==> (r matches TransportError::NotFound(t) && t@ == refused_text(channel)),
        failure == ConnectFailure::Other ==> (r matches TransportError::Bus(t) && t@ == "RFCOMM connect failed: "@ + detail@),
{
    match failure {
        ConnectFailure::Unreachable => TransportError::DeviceOutOfRange,
        ConnectFailure::NetworkDown => TransportError::AdapterOff,
        ConnectFailure::AccessDenied => TransportError::PermissionDenied,
        ConnectFailure::Refused => {
            let mut out: Vec<char> = Vec::new();
            append_str(&mut out, "RFCOMM channel ");
            let d = decimal_u8(channel);
            append_chars(&mut out, d.as_slice());
            append_str(&mut out, " refused (no service listening)");
            TransportError::NotFound(string_of(out.as_slice()))
        },
        ConnectFailure::Other => {
            let mut out: Vec<char> = Vec::new();
            append_str(&mut out, "RFCOMM connect failed: ");
            append_str(&mut out, detail);
            TransportError::Bus(string_of(out.as_slice()))
        },
    }
}

/// A connected RFCOMM byte pipe.
pub trait RfcommSocket {
    /// Blocking read of at most `max` bytes, bounded by the socket's receive
    /// timeout. An empty result means the peer closed the connection;
    /// `Err(TransportError::Timeout)` means no data arrived in the window.
    fn read(&mut self, max: usize) -> Result<Vec<u8>, TransportError>;

    /// Write all bytes to the pipe.
    fn write_all(&mut self, bytes: &[u8]) -> Result<(), TransportError>;
}

/// Opens RFCOMM connections.
pub trait RfcommSocketFactory {
    type Socket: RfcommSocket;

    /// Open a connection to `(address, channel)`.
    fn open(&self, address: &str, channel: u8) -> Result<Self::Socket, TransportError>;
}

/// The stream opcode that answers a characteristic read, if the characteristic
/// has an SPP equivalent.
pub open spec fn spec_read_opcode(uuid: Seq<char>) -> Option<u8> {
    if ascii_lower_seq(uuid) == CHAR_BATTERY@ {
        Some(OP_BATTERY)
    } else if ascii_lower_seq(uuid) == CHAR_VERSION@ {
        Some(OP_VERSION)
    } else {
        None
    }
}

/// `params` are the parameters of an `op` block of a valid frame.
pub open spec fn answers(op: u8, params: Seq<u8>) -> bool {
    exists|f: Seq<u8>, i: int|
        #![trigger spec_decode(f).unwrap()[i]]
        is_valid_frame(f) && 0 <= i < spec_decode(f).unwrap().len() && spec_decode(f).unwrap()[i]
            == (op, params)
}

/// The parameters of the first block of a packet that carries `op`.
pub open spec fn first_block(blocks: Seq<BlockModel>, op: u8) -> Option<Seq<u8>> {
    if exists|i: int| 0 <= i < blocks.len() && blocks[i].0 == op && (forall|j: int| 0 <= j < i ==> (#[trigger] blocks[j]).0 != op) {
        let i = choose|i: int| 0 <= i < blocks.len() && blocks[i].0 == op && (forall|j: int| 0 <= j < i ==> (#[trigger] blocks[j]).0 != op);
        Some(blocks[i].1)
    } else {
        None
    }
}

proof fn lemma_first_block_at(blocks: Seq<BlockModel>, op: u8, i: int)
    requires
        0 <= i < blocks.len(),
        blocks[i].0 == op,
        forall|j: int| 0 <= j < i ==> (#[trigger] blocks[j]).0 != op,
    ensures
        first_block(blocks, op) == Some(blocks[i].1),
{
    let k = choose|k: int| 0 <= k < blocks.len() && blocks[k].0 == op && (forall|j: int| 0 <= j < k ==> (#[trigger] blocks[j]).0 != op);
    if k < i {
        assert(blocks[k].0 != op);
    } else if k > i {
        assert(blocks[i].0 != op);
    }
}

/// Extracting a frame always consumes bytes.
pub proof fn lemma_extract_shrinks(buf: Seq<u8>)
    ensures
        extract(buf).0 is Some ==> extract(buf).1.len() < buf.len(),
    decreases buf.len(),
{
    let b = skip_to_sof(buf);
    lemma_skip_to_sof_len(buf);
    if b.len() >= 2 && b[1] + 2 > MAX_REASONABLE_FRAME {
        lemma_extract_shrinks(b.drop_first());
    } else if b.len() >= 2 && b.len() >= b[1] + 2 && !is_valid_frame(b.take(b[1] + 2)) {
        lemma_extract_shrinks(b.drop_first());
    }
}

/// The answer to `op` among the frames already buffered: the parameters of the
/// first `op` block of the first frame, in order, that carries one.
pub open spec fn buffered_answer(buf: Seq<u8>, op: u8) -> Option<Seq<u8>>
    decreases buf.len(),
{
    let (frame, rest) = extract(buf);
    match frame {
        None => None,
        Some(f) => match first_block(spec_decode(f).unwrap(), op) {
            Some(v) => Some(v),
            None => {
                proof {
                    lemma_extract_shrinks(buf);
                }
                buffered_answer(rest, op)
            },
        },
    }
}

/// The notification queue `q` after taking the buffered frames for `op`: every
/// frame before the answer (all of them when none answers) is queued, in order.
pub open spec fn drained_queue(buf: Seq<u8>, op: u8, q: Seq<Seq<u8>>) -> Seq<Seq<u8>>
    decreases buf.len(),
{
    let (frame, rest) = extract(buf);
    match frame {
        None => q,
        Some(f) => match first_block(spec_decode(f).unwrap(), op) {
            Some(_) => q,
            None => {
                proof {
                    lemma_extract_shrinks(buf);
                }
                drained_queue(rest, op, notify_after(q, f))
            },
        },
    }
}

/// The read-back request for `op`: one `RequestData` block carrying it.
pub open spec fn request_frame(op: u8) -> Seq<u8> {
    spec_encode(seq![(REQUEST_DATA, seq![op])]).unwrap()
}

/// The notification queue after one more frame: the oldest frames beyond the
/// bound are dropped first.
pub open spec fn notify_after(q: Seq<Seq<u8>>, frame: Seq<u8>) -> Seq<Seq<u8>> {
    (if q.len() >= MAX_NOTIFY_QUEUE {
        q.skip(q.len() - (MAX_NOTIFY_QUEUE - 1))
    } else {
        q
    }).push(frame)
}

/// Blocking, per-connection SPP/RFCOMM transport.
pub struct RfcommTransport<F: RfcommSocketFactory> {
    factory: F,
    policy: WritePolicy,
    experimental_opt_in: bool,
    channel: u8,
    socket: Option<F::Socket>,
    connected_address: Option<String>,
    /// Model evidence: starts unknown (read-only) on every connection and only
    /// becomes known through explicit attestation.
    connected_model_known: bool,
    reader: FrameReader,
    /// Validated unsolicited frames received while answering reads.
    notify_queue: VecDeque<Vec<u8>>,
    subscribed: bool,
    /// Socket reads one read-back exchange may take.
    response_reads: u32,
    /// The connections asked of the factory: address, channel and outcome.
    opens: Ghost<Seq<(Seq<char>, u8, Result<(), TransportError>)>>,
    /// The bytes handed to the socket, write by write.
    sent: Ghost<Seq<Seq<u8>>>,
}

impl<F: RfcommSocketFactory> RfcommTransport<F> {
    /// Structural invariant: bounded reassembly buffer and notify queue, and no
    /// model attestation or subscription without a connection.
    pub closed spec fn wf(&self) -> bool {
        &&& self.reader.wf()
        &&& self.notify_queue@.len() <= MAX_NOTIFY_QUEUE
        &&& (!self.subscribed ==> self.notify_queue@.len() == 0)
        &&& (self.socket is None ==> !self.connected_model_known && !self.subscribed
            && self.connected_address is None && self.notify_queue@.len() == 0)
    }

    pub closed spec fn spec_connected(&self) -> bool {
        self.socket is Some
    }

    pub closed spec fn spec_socket(&self) -> Option<F::Socket> {
        self.socket
    }

    pub closed spec fn spec_address(&self) -> Option<Seq<char>> {
        match self.connected_address {
            Some(a) => Some(a@),
            None => None,
        }
    }

    pub closed spec fn spec_model_known(&self) -> bool {
        self.connected_model_known
    }

    pub closed spec fn spec_opt_in(&self) -> bool {
        self.experimental_opt_in
    }

    pub closed spec fn spec_policy(&self) -> WritePolicy {
        self.policy
    }

    pub closed spec fn spec_channel(&self) -> u8 {
        self.channel
    }

    pub closed spec fn spec_subscribed(&self) -> bool {
        self.subscribed
    }

    pub closed spec fn spec_response_reads(&self) -> u32 {
        self.response_reads
    }

    /// Queued unsolicited frames, oldest first.
    /// The connections asked of the factory so far: address, channel, outcome.
    pub closed spec fn spec_opens(&self) -> Seq<(Seq<char>, u8, Result<(), TransportError>)> {
        self.opens@
    }

    /// The bytes handed to the socket so far, write by write.
    pub closed spec fn spec_sent(&self) -> Seq<Seq<u8>> {
        self.sent@
    }

    /// The received bytes not yet taken as frames.
    pub closed spec fn spec_buffer(&self) -> Seq<u8> {
        self.reader@
    }

    pub closed spec fn spec_notify(&self) -> Seq<Seq<u8>> {
        self.notify_queue@.map_values(|f: Vec<u8>| f@)
    }

    /// A disconnected transport on the default channel.
    pub fn new(factory: F, policy: WritePolicy) -> (r: Self)
        ensures
            r.wf(),
            !r.spec_connected(),
            r.spec_address() is None,
            !r.spec_model_known(),
            !r.spec_subscribed(),
            r.spec_notify().len() == 0,
            r.spec_policy() == policy,
            !r.spec_opt_in(),
            r.spec_channel() == DEFAULT_RFCOMM_CHANNEL,
            r.spec_response_reads() == DEFAULT_RESPONSE_READS,
            r.spec_opens().len() == 0,
            r.spec_sent().len() == 0,
    {
        Self {
            factory,
            policy,
            experimental_opt_in: false,
            channel: DEFAULT_RFCOMM_CHANNEL,
            socket: None,
            connected_address: None,
            connected_model_known: false,
            reader: FrameReader::new(),
            notify_queue: VecDeque::new(),
            subscribed: false,
            response_reads: DEFAULT_RESPONSE_READS,
            opens: Ghost(Seq::empty()),
            sent: Ghost(Seq::empty()),
        }
    }

    /// Use a specific RFCOMM channel instead of the default.
    pub fn with_channel(self, channel: u8) -> (r: Self)
        ensures
            self.wf() ==> r.wf(),
            r.spec_channel() == channel,
            r.spec_connected() == self.spec_connected(),
            r.spec_address() == self.spec_address(),
            r.spec_model_known() == self.spec_model_known(),
            r.spec_opens() == self.spec_opens(),
            r.spec_sent() == self.spec_sent(),
            r.spec_policy() == self.spec_policy(),
            r.spec_opt_in() == self.spec_opt_in(),
            r.spec_response_reads() == self.spec_response_reads(),
    {
        let mut s = self;
        s.channel = channel;
        s
    }

    /// Override the read-back response window, counted in socket reads (each
    /// read waits at most the socket's own receive timeout).
    pub fn with_response_timeout(self, reads: u32) -> (r: Self)
        ensures
            self.wf() ==> r.wf(),
            r.spec_response_reads() == reads,
            r.spec_channel() == self.spec_channel(),
            r.spec_connected() == self.spec_connected(),
            r.spec_policy() == self.spec_policy(),
            r.spec_opt_in() == self.spec_opt_in(),
    {
        let mut s = self;
        s.response_reads = reads;
        s
    }

    /// Address of the connected device, if any.
    pub fn connected_address(&self) -> (r: Option<&str>)
        ensures
            match r {
                Some(a) => self.spec_address() == Some(a@),
                None => self.spec_address() is None,
            },
    {
        match &self.connected_address {
            Some(a) => Some(a.as_str()),
            None => None,
        }
    }

    /// Whether the connected device's model is known (attested).
    pub fn is_model_known(&self) -> (r: bool)
        ensures
            r == self.spec_model_known(),
    {
        self.connected_model_known
    }

    /// Pop the oldest queued unsolicited frame, if any.
    pub fn pop_notify(&mut self) -> (r: Option<Vec<u8>>)
        ensures
            final(self).spec_opens() == old(self).spec_opens(),
            final(self).spec_sent() == old(self).spec_sent(),
            old(self).wf() ==> final(self).wf(),
            old(self).spec_notify().len() == 0 ==> r is None && final(self).spec_notify()
                == old(self).spec_notify(),
            old(self).spec_notify().len() > 0 ==> (r matches Some(f) && f@ == old(self).spec_notify()[0] && final(self).spec_notify() == old(self).spec_notify().drop_first()),
            final(self).spec_connected() == old(self).spec_connected(),
            final(self).spec_model_known() == old(self).spec_model_known(),
            final(self).spec_subscribed() == old(self).spec_subscribed(),
    {
        let ghost q = self.spec_notify();
        let r = self.notify_queue.pop_front();
        assert(self.spec_notify() =~= if q.len() > 0 { q.drop_first() } else { q });
        r
    }

    fn queue_notify(&mut self, frame: Vec<u8>)
        requires
            old(self).spec_connected(),
        ensures
            final(self).spec_opens() == old(self).spec_opens(),
            final(self).spec_sent() == old(self).spec_sent(),
            old(self).wf() ==> final(self).wf(),
            final(self).spec_connected(),
            final(self).socket == old(self).socket,
            final(self).reader == old(self).reader,
            final(self).spec_model_known() == old(self).spec_model_known(),
            final(self).spec_subscribed() == old(self).spec_subscribed(),
            final(self).spec_address() == old(self).spec_address(),
            final(self).spec_opt_in() == old(self).spec_opt_in(),
            final(self).spec_policy() == old(self).spec_policy(),
            final(self).spec_channel() == old(self).spec_channel(),
            final(self).spec_response_reads() == old(self).spec_response_reads(),
            !old(self).spec_subscribed() ==> final(self).spec_notify() == old(self).spec_notify(),
            old(self).spec_subscribed() ==> final(self).spec_notify() == notify_after(old(self).spec_notify(), frame@),
    {
        if !self.subscribed {
            return;
        }
        let ghost q = self.spec_notify();
        while self.notify_queue.len() >= MAX_NOTIFY_QUEUE
            invariant
                self.notify_queue@.len() <= q.len(),
                self.spec_notify() == q.skip(q.len() - self.notify_queue@.len()),
                q.len() >= MAX_NOTIFY_QUEUE ==> self.notify_queue@.len() >= MAX_NOTIFY_QUEUE - 1,
                q.len() < MAX_NOTIFY_QUEUE ==> self.notify_queue@.len() == q.len(),
                self.opens == old(self).opens,
                self.sent == old(self).sent,
                self.socket == old(self).socket,
                self.reader == old(self).reader,
                self.connected_model_known == old(self).connected_model_known,
                self.subscribed == old(self).subscribed,
                self.connected_address == old(self).connected_address,
                self.experimental_opt_in == old(self).experimental_opt_in,
                self.policy == old(self).policy,
                self.channel == old(self).channel,
                self.response_reads == old(self).response_reads,
            decreases self.notify_queue@.len(),
        {
            let ghost before = self.spec_notify();
            self.notify_queue.pop_front();
            assert(self.spec_notify() =~= before.drop_first());
            assert(self.spec_notify() =~= q.skip(q.len() - self.notify_queue@.len()));
        }
        let ghost kept = self.spec_notify();
        self.notify_queue.push_back(frame);
        assert(self.spec_notify() =~= kept.push(frame@));
        assert(kept =~= if q.len() >= MAX_NOTIFY_QUEUE {
            q.skip(q.len() - (MAX_NOTIFY_QUEUE - 1))
        } else {
            q
        });
    }

    /// Map a characteristic read to the opcode answered over the stream.
    fn read_opcode(char_uuid: &str) -> (r: Option<u8>)
        ensures
            r == spec_read_opcode(char_uuid@),
    {
        let uuid = ascii_lower_chars(chars_of(char_uuid).as_slice());
        let battery = chars_of(CHAR_BATTERY);
        let version = chars_of(CHAR_VERSION);
        if chars_eq(uuid.as_slice(), battery.as_slice()) {
            Some(OP_BATTERY)
        } else if chars_eq(uuid.as_slice(), version.as_slice()) {
            Some(OP_VERSION)
        } else {
            None
        }
    }

    /// The parameters of the first `op` block of a packet, if any.
    fn find_block(packet: &crate::packet::Packet, op: u8) -> (r: Option<Vec<u8>>)
        ensures
            match r {
                Some(v) => first_block(packet@, op) == Some(v@),
                None => first_block(packet@, op) is None,
            },
    {
        let mut i: usize = 0;
        while i < packet.blocks.len()
            invariant
                i <= packet.blocks@.len(),
                packet@.len() == packet.blocks@.len(),
                forall|j: int| 0 <= j < i ==> (#[trigger] packet@[j]).0 != op,
            decreases packet.blocks@.len() - i,
        {
            assert(packet@[i as int] == packet.blocks@[i as int]@);
            if packet.blocks[i].cmd == op {
                let v = crate::packet::copy_all(packet.blocks[i].params.as_slice());
                assert(packet@[i as int] == (op, v@));
                proof {
                    lemma_first_block_at(packet@, op, i as int);
                }
                return Some(v);
            }
            i = i + 1;
        }
        None
    }

    /// Takes the frames already buffered, in order, until one answers `op`;
    /// everything else is queued as a notification.
    fn drain_for(&mut self, op: u8) -> (r: Option<Vec<u8>>)
        requires
            old(self).spec_connected(),
        ensures
            final(self).spec_opens() == old(self).spec_opens(),
            final(self).spec_sent() == old(self).spec_sent(),
            match r {
                Some(v) => buffered_answer(old(self).reader@, op) == Some(v@),
                None => buffered_answer(old(self).reader@, op) is None,
            },
            r matches Some(v) ==> answers(op, v@),
            old(self).wf() ==> final(self).wf(),
            final(self).spec_connected(),
            final(self).spec_model_known() == old(self).spec_model_known(),
            final(self).spec_subscribed() == old(self).spec_subscribed(),
            final(self).spec_address() == old(self).spec_address(),
            final(self).spec_opt_in() == old(self).spec_opt_in(),
            final(self).spec_policy() == old(self).spec_policy(),
            final(self).spec_channel() == old(self).spec_channel(),
            final(self).spec_response_reads() == old(self).spec_response_reads(),
            final(self).socket == old(self).socket,
            !old(self).spec_subscribed() ==> final(self).spec_notify() == old(self).spec_notify(),
            old(self).spec_subscribed() ==> final(self).spec_notify() == drained_queue(
                old(self).reader@,
                op,
                old(self).spec_notify(),
            ),
    {
        loop
            invariant
                self.spec_connected(),
                buffered_answer(self.reader@, op) == buffered_answer(old(self).reader@, op),
                old(self).spec_subscribed() ==> drained_queue(self.reader@, op, self.spec_notify())
                    == drained_queue(old(self).reader@, op, old(self).spec_notify()),
                self.spec_opens() == old(self).spec_opens(),
                self.spec_sent() == old(self).spec_sent(),
                !old(self).spec_subscribed() ==> self.spec_notify() == old(self).spec_notify(),
                self.spec_model_known() == old(self).spec_model_known(),
                self.spec_subscribed() == old(self).spec_subscribed(),
                self.spec_address() == old(self).spec_address(),
                self.spec_opt_in() == old(self).spec_opt_in(),
                self.spec_policy() == old(self).spec_policy(),
                self.spec_channel() == old(self).spec_channel(),
                self.spec_response_reads() == old(self).spec_response_reads(),
                self.socket == old(self).socket,
                old(self).wf() ==> self.wf(),
            decreases self.reader@.len(),
        {
            let ghost before = self.reader@;
            proof {
                lemma_extract_shrinks(before);
            }
            let next = self.reader.next_frame();
            proof {
                lemma_extracted_frames_are_valid(before);
            }
            match next {
                None => {
                    return None;
                },
                Some(frame) => {
                    let packet = match decode_packet(frame.as_slice()) {
                        Ok(p) => p,
                        Err(_) => {
                            assert(false);
                            return None;
                        },
                    };
                    assert(spec_decode(frame@).unwrap() == packet@);
                    match Self::find_block(&packet, op) {
                        Some(v) => {
                            proof {
                                let i = choose|i: int|
                                    0 <= i < packet@.len() && packet@[i].0 == op && (forall|j: int|
                                        0 <= j < i ==> (#[trigger] packet@[j]).0 != op);
                                assert(packet@[i] == (op, v@));
                                assert(is_valid_frame(frame@) && 0 <= i < spec_decode(
                                    frame@,
                                ).unwrap().len() && spec_decode(frame@).unwrap()[i] == (op, v@));
                            }
                            return Some(v);
                        },
                        None => {},
                    }
                    self.queue_notify(frame);
                },
            }
        }
    }

    /// Wait for a validated frame carrying `op`, queueing everything else. Gives
    /// up with `Timeout` after the configured number of socket reads.
    fn await_block_params(&mut self, op: u8) -> (r: Result<Vec<u8>, TransportError>)
        requires
            old(self).spec_connected(),
        ensures
            final(self).spec_opens() == old(self).spec_opens(),
            final(self).spec_sent() == old(self).spec_sent(),
            old(self).wf() ==> final(self).wf(),
            r matches Ok(v) ==> answers(op, v@),
            buffered_answer(old(self).reader@, op) matches Some(v) ==> (r matches Ok(w) && w@ == v),
            buffered_answer(old(self).reader@, op) is Some && old(self).spec_subscribed() ==> final(self).spec_notify()
                == drained_queue(old(self).reader@, op, old(self).spec_notify()),
            old(self).wf() && !old(self).spec_subscribed() ==> final(self).spec_notify().len() == 0,
            r is Ok ==> final(self).spec_connected(),
            final(self).spec_connected() ==> final(self).spec_model_known() == old(self).spec_model_known() && final(self).spec_subscribed() == old(self).spec_subscribed()
                && final(self).spec_address() == old(self).spec_address(),
            final(self).spec_opt_in() == old(self).spec_opt_in(),
            final(self).spec_policy() == old(self).spec_policy(),
            final(self).spec_channel() == old(self).spec_channel(),
            final(self).spec_response_reads() == old(self).spec_response_reads(),
    {
        let mut reads: u32 = 0;
        loop
            invariant
                self.spec_connected(),
                reads == 0 ==> self.reader@ == old(self).reader@ && self.spec_notify() == old(self).spec_notify(),
                self.spec_opens() == old(self).spec_opens(),
                self.spec_sent() == old(self).spec_sent(),
                !old(self).spec_subscribed() ==> self.spec_notify() == old(self).spec_notify(),
                reads > 0 ==> buffered_answer(old(self).reader@, op) is None,
                self.spec_model_known() == old(self).spec_model_known(),
                self.spec_subscribed() == old(self).spec_subscribed(),
                self.spec_address() == old(self).spec_address(),
                self.spec_opt_in() == old(self).spec_opt_in(),
                self.spec_policy() == old(self).spec_policy(),
                self.spec_channel() == old(self).spec_channel(),
                self.spec_response_reads() == old(self).spec_response_reads(),
                reads <= self.response_reads,
                old(self).wf() ==> self.wf(),
            decreases self.response_reads - reads,
        {
            match self.drain_for(op) {
                Some(v) => {
                    return Ok(v);
                },
                None => {},
            }
            if reads >= self.response_reads {
                return Err(TransportError::Timeout);
            }
            reads = reads + 1;
            let got = match &mut self.socket {
                Some(s) => s.read(MAX_FRAME),
                None => {
                    return Err(TransportError::Disconnected);
                },
            };
            match got {
                Ok(bytes) => {
                    if bytes.len() == 0 {
                        self.drop_connection();
                        return Err(TransportError::Disconnected);
                    }
                    self.reader.push(bytes.as_slice());
                },
                Err(TransportError::Timeout) => {},
                Err(e) => {
                    self.drop_connection();
                    return Err(e);
                },
            }
        }
    }

    /// Forget the connection and everything tied to it.
    fn drop_connection(&mut self)
        ensures
            final(self).spec_opens() == old(self).spec_opens(),
            final(self).spec_sent() == old(self).spec_sent(),
            old(self).wf() ==> final(self).wf(),
            !final(self).spec_connected(),
            final(self).spec_address() is None,
            !final(self).spec_model_known(),
            !final(self).spec_subscribed(),
            final(self).spec_notify() == Seq::<Seq<u8>>::empty(),
            final(self).spec_opt_in() == old(self).spec_opt_in(),
            final(self).spec_policy() == old(self).spec_policy(),
            final(self).spec_channel() == old(self).spec_channel(),
            final(self).spec_response_reads() == old(self).spec_response_reads(),
    {
        self.notify_queue = VecDeque::new();
        self.subscribed = false;
        self.connected_model_known = false;
        self.connected_address = None;
        self.reader = FrameReader::new();
        self.socket = None;
        assert(self.spec_notify() =~= Seq::<Seq<u8>>::empty());
    }
}

impl<F: RfcommSocketFactory> Transport for RfcommTransport<F> {
    /// SPP devices do not advertise; callers connect by explicit address.
    fn scan(&mut self) -> (r: Result<Vec<DiscoveredDevice>, TransportError>)
        ensures
            old(self).wf() ==> final(self).wf(),
            r matches Ok(list) && list@.len() == 0,
            *final(self) == *old(self),
    {
        Ok(Vec::new())
    }

    /// Opens a fresh connection to the normalized address; the device starts
    /// unknown (read-only), unsubscribed and with empty buffers.
    fn connect(&mut self, address: &str) -> (r: Result<(), TransportError>)
        ensures
            old(self).wf() ==> final(self).wf(),
            r is Ok ==> final(self).spec_connected() && final(self).spec_address() == Some(
                normalized_address(address@),
            ) && !final(self).spec_model_known() && !final(self).spec_subscribed()
                && final(self).spec_notify() == Seq::<Seq<u8>>::empty(),
            r is Err ==> !final(self).spec_connected(),
            final(self).spec_opt_in() == old(self).spec_opt_in(),
            final(self).spec_policy() == old(self).spec_policy(),
            final(self).spec_channel() == old(self).spec_channel(),
            final(self).spec_response_reads() == old(self).spec_response_reads(),
            final(self).spec_sent() == old(self).spec_sent(),
            final(self).spec_opens() == old(self).spec_opens().push(
                (normalized_address(address@), old(self).spec_channel(), r),
            ),
    {
        self.drop_connection();
        let normalized = normalize_address(address);
        let opened = self.factory.open(normalized.as_str(), self.channel);
        match opened {
            Ok(socket) => {
                self.opens = Ghost(self.opens@.push((normalized@, self.channel, Ok(()))));
                self.socket = Some(socket);
                self.connected_address = Some(normalized);
                Ok(())
            },
            Err(e) => {
                self.opens = Ghost(self.opens@.push((normalized@, self.channel, Err(e))));
                Err(e)
            },
        }
    }

    fn disconnect(&mut self) -> (r: Result<(), TransportError>)
        ensures
            old(self).wf() ==> final(self).wf(),
            r is Ok,
            !final(self).spec_connected(),
            final(self).spec_address() is None,
            !final(self).spec_model_known(),
            !final(self).spec_subscribed(),
            final(self).spec_notify() == Seq::<Seq<u8>>::empty(),
            final(self).spec_opt_in() == old(self).spec_opt_in(),
            final(self).spec_policy() == old(self).spec_policy(),
            final(self).spec_channel() == old(self).spec_channel(),
    {
        self.drop_connection();
        Ok(())
    }

    /// A `RequestData(0xFE)` exchange: unknown characteristics are `NotFound`,
    /// and a successful answer is the parameter list of a block carrying the
    /// requested opcode in a validated frame.
    fn read(&mut self, char_uuid: &str) -> (r: Result<Vec<u8>, TransportError>)
        ensures
            old(self).wf() ==> final(self).wf(),
            !old(self).spec_connected() ==> r == Err::<Vec<u8>, TransportError>(
                TransportError::Disconnected,
            ) && *final(self) == *old(self),
            old(self).spec_connected() && spec_read_opcode(char_uuid@) is None ==> (r matches Err(
                TransportError::NotFound(u),
            ) && u@ == char_uuid@),
            r matches Ok(v) ==> spec_read_opcode(char_uuid@) matches Some(op) && answers(op, v@),
            final(self).spec_connected() ==> final(self).spec_model_known() == old(self).spec_model_known(),
            final(self).spec_opt_in() == old(self).spec_opt_in(),
            final(self).spec_policy() == old(self).spec_policy(),
            final(self).spec_opens() == old(self).spec_opens(),
            old(self).spec_connected() ==> match spec_read_opcode(char_uuid@) {
                None => final(self).spec_sent() == old(self).spec_sent(),
                Some(op) => final(self).spec_sent() == old(self).spec_sent() || final(self).spec_sent()
                    == old(self).spec_sent().push(request_frame(op)),
            },
            old(self).wf() && !old(self).spec_subscribed() ==> final(self).spec_notify().len() == 0,
            r is Ok && old(self).spec_subscribed() ==> (spec_read_opcode(char_uuid@) matches Some(op)
                && (buffered_answer(old(self).spec_buffer(), op) is Some ==> final(self).spec_notify()
                == drained_queue(old(self).spec_buffer(), op, old(self).spec_notify()))),
    {
        if self.socket.is_none() {
            return Err(TransportError::Disconnected);
        }
        let op = match Self::read_opcode(char_uuid) {
            Some(op) => op,
            None => return Err(TransportError::NotFound(string_of(chars_of(char_uuid).as_slice()))),
        };
        let mut params: Vec<u8> = Vec::new();
        params.push(op);
        proof {
            assert(params@ =~= seq![op]);
            assert(crate::packet::encode_body(seq![(REQUEST_DATA, seq![op])]).len() == 3) by {
                reveal_with_fuel(crate::packet::encode_body, 2);
            }
        }
        let request = match encode_command(REQUEST_DATA, params.as_slice()) {
            Ok(f) => f,
            Err(_) => {
                assert(false);
                return Err(TransportError::Disconnected);
            },
        };
        match self.policy.authorize_frame(request.as_slice(), self.experimental_opt_in) {
            Ok(()) => {},
            Err(d) => return Err(TransportError::Denied(d)),
        }
        self.sent = Ghost(self.sent@.push(request@));
        let written = match &mut self.socket {
            Some(s) => s.write_all(request.as_slice()),
            None => return Err(TransportError::Disconnected),
        };
        match written {
            Ok(()) => {},
            Err(e) => return Err(e),
        }
        self.await_block_params(op)
    }

    /// Refused without a connection, refused as read-only until the model is
    /// attested, then judged by the central policy; only an authorized frame is
    /// handed to the socket.
    fn write(&mut self, bytes: &[u8]) -> (r: Result<(), TransportError>)
        ensures
            old(self).wf() ==> final(self).wf(),
            !old(self).spec_connected() ==> r == Err::<(), TransportError>(
                TransportError::Disconnected,
            ),
            old(self).spec_connected() && !old(self).spec_model_known() ==> r == Err::<
                (),
                TransportError,
            >(TransportError::Denied(Denial::ReadOnlyDevice)),
            old(self).spec_connected() && old(self).spec_model_known() ==> (frame_verdict(
                old(self).spec_policy(),
                bytes@,
                old(self).spec_opt_in(),
            ) matches Err(d) ==> r == Err::<(), TransportError>(TransportError::Denied(d))),
            r is Ok ==> frame_verdict(old(self).spec_policy(), bytes@, old(self).spec_opt_in())
                is Ok && old(self).spec_model_known(),
            !old(self).spec_connected() || !old(self).spec_model_known() || frame_verdict(
                old(self).spec_policy(),
                bytes@,
                old(self).spec_opt_in(),
            ) is Err ==> *final(self) == *old(self),
            final(self).spec_connected() == old(self).spec_connected(),
            final(self).spec_model_known() == old(self).spec_model_known(),
            final(self).spec_address() == old(self).spec_address(),
            final(self).spec_opt_in() == old(self).spec_opt_in(),
            final(self).spec_policy() == old(self).spec_policy(),
            final(self).spec_opens() == old(self).spec_opens(),
            old(self).spec_connected() && old(self).spec_model_known() && frame_verdict(
                old(self).spec_policy(),
                bytes@,
                old(self).spec_opt_in(),
            ) is Ok ==> final(self).spec_sent() == old(self).spec_sent().push(bytes@),
    {
        if self.socket.is_none() {
            return Err(TransportError::Disconnected);
        }
        if !self.connected_model_known {
            return Err(TransportError::Denied(Denial::ReadOnlyDevice));
        }
        match self.policy.authorize_frame(bytes, self.experimental_opt_in) {
            Ok(()) => {},
            Err(d) => return Err(TransportError::Denied(d)),
        }
        self.sent = Ghost(self.sent@.push(bytes@));
        match &mut self.socket {
            Some(s) => s.write_all(bytes),
            None => Err(TransportError::Disconnected),
        }
    }

    /// SPP has no characteristics: direct writes do not exist on this transport.
    fn write_direct(&mut self, char_uuid: &str, _bytes: &[u8]) -> (r: Result<(), TransportError>)
        ensures
            old(self).wf() ==> final(self).wf(),
            *final(self) == *old(self),
            !old(self).spec_connected() ==> r == Err::<(), TransportError>(
                TransportError::Disconnected,
            ),
            old(self).spec_connected() ==> (r matches Err(TransportError::NotFound(u)) && u@
                == char_uuid@),
    {
        if self.socket.is_none() {
            return Err(TransportError::Disconnected);
        }
        Err(TransportError::NotFound(string_of(chars_of(char_uuid).as_slice())))
    }

    /// Only the settings-notify equivalent can be subscribed.
    fn subscribe(&mut self, char_uuid: &str) -> (r: Result<(), TransportError>)
        ensures
            old(self).wf() ==> final(self).wf(),
            !old(self).spec_connected() ==> r == Err::<(), TransportError>(
                TransportError::Disconnected,
            ) && *final(self) == *old(self),
            old(self).spec_connected() && ascii_lower_seq(char_uuid@) == CHAR_SETTINGS_NOTIFY@
                ==> r is Ok && final(self).spec_subscribed(),
            old(self).spec_connected() && ascii_lower_seq(char_uuid@) != CHAR_SETTINGS_NOTIFY@
                ==> (r matches Err(TransportError::NotFound(u)) && u@ == char_uuid@) && *final(self) == *old(self),
            final(self).spec_connected() == old(self).spec_connected(),
            final(self).spec_model_known() == old(self).spec_model_known(),
            final(self).spec_opt_in() == old(self).spec_opt_in(),
            final(self).spec_policy() == old(self).spec_policy(),
    {
        if self.socket.is_none() {
            return Err(TransportError::Disconnected);
        }
        let uuid = ascii_lower_chars(chars_of(char_uuid).as_slice());
        let notify = chars_of(CHAR_SETTINGS_NOTIFY);
        if chars_eq(uuid.as_slice(), notify.as_slice()) {
            self.subscribed = true;
            Ok(())
        } else {
            Err(TransportError::NotFound(string_of(chars_of(char_uuid).as_slice())))
        }
    }

    fn set_experimental_opt_in(&mut self, on: bool)
        ensures
            old(self).wf() ==> final(self).wf(),
            final(self).spec_opt_in() == on,
            final(self).spec_connected() == old(self).spec_connected(),
            final(self).spec_model_known() == old(self).spec_model_known(),
            final(self).spec_policy() == old(self).spec_policy(),
            final(self).spec_socket() == old(self).spec_socket(),
    {
        self.experimental_opt_in = on;
    }

    /// Lifts read-only for the current connection only; a no-op without one.
    fn attest_model_known(&mut self)
        ensures
            old(self).wf() ==> final(self).wf(),
            final(self).spec_model_known() == old(self).spec_connected(),
            final(self).spec_connected() == old(self).spec_connected(),
            final(self).spec_opt_in() == old(self).spec_opt_in(),
            final(self).spec_policy() == old(self).spec_policy(),
            final(self).spec_socket() == old(self).spec_socket(),
    {
        self.connected_model_known = self.socket.is_some();
    }

    /// The socket is the link.
    fn is_connected(&mut self) -> (r: Result<bool, TransportError>)
        ensures
            old(self).wf() ==> final(self).wf(),
            *final(self) == *old(self),
            r == Ok::<bool, TransportError>(old(self).spec_connected()),
    {
        Ok(self.socket.is_some())
    }

    fn session_address(&mut self) -> (r: Option<String>)
        ensures
            old(self).wf() ==> final(self).wf(),
            *final(self) == *old(self),
            match r {
                Some(a) => old(self).spec_address() == Some(a@),
                None => old(self).spec_address() is None,
            },
    {
        match &self.connected_address {
            Some(a) => Some(a.clone()),
            None => None,
        }
    }
}

/// Value of one hexadecimal digit (either case).
pub open spec fn hex_value(c: char) -> Option<nat> {
    if '0' <= c && c <= '9' {
        Some((c as nat - 48) as nat)
    } else if 'a' <= c && c <= 'f' {
        Some((c as nat - 87) as nat)
    } else if 'A' <= c && c <= 'F' {
        Some((c as nat - 55) as nat)
    } else {
        None
    }
}

/// Value of a run of hexadecimal digits (`Some(0)` for none), `None` when a
/// character is not a hex digit.
pub open spec fn hex_run_value(s: Seq<char>) -> Option<nat>
    decreases s.len(),
{
    if s.len() == 0 {
        Some(0)
    } else {
        match (hex_run_value(s.drop_last()), hex_value(s.last())) {
            (Some(v), Some(d)) => Some(v * 16 + d),
            _ => None,
        }
    }
}

/// `u8::from_str_radix(s, 16)`: an optional `+`, then at least one hex digit,
/// with a value of at most 255.
pub open spec fn parse_hex_u8(s: Seq<char>) -> Option<u8> {
    let d = if s.len() > 0 && s[0] == '+' {
        s.drop_first()
    } else {
        s
    };
    if d.len() == 0 {
        None
    } else {
        match hex_run_value(d) {
            Some(v) => if v <= 255 {
                Some(v as u8)
            } else {
                None
            },
            None => None,
        }
    }
}

/// `s` split at every `:` (an empty text gives one empty part).
pub open spec fn split_colon(s: Seq<char>) -> Seq<Seq<char>>
    decreases s.len(),
{
    if s.len() == 0 {
        seq![Seq::<char>::empty()]
    } else {
        let p = split_colon(s.drop_last());
        if s.last() == ':' {
            p.push(Seq::<char>::empty())
        } else {
            p.update(p.len() - 1, p.last().push(s.last()))
        }
    }
}

/// Splitting never yields an empty list of parts.
pub proof fn lemma_split_colon_nonempty(s: Seq<char>)
    ensures
        split_colon(s).len() >= 1,
    decreases s.len(),
{
    if s.len() > 0 {
        lemma_split_colon_nonempty(s.drop_last());
    }
}

/// The six octets of a colon-separated Bluetooth address, in printed order.
pub open spec fn spec_bdaddr(address: Seq<char>) -> Option<Seq<u8>> {
    let parts = split_colon(address);
    if parts.len() == 6 && (forall|i: int| 0 <= i < 6 ==> #[trigger] parse_hex_u8(parts[i]) is Some) {
        Some(Seq::new(6, |i: int| parse_hex_u8(parts[i]).unwrap()))
    } else {
        None
    }
}

fn hex_value_exec(c: char) -> (r: Option<u8>)
    ensures
        match hex_value(c) {
            Some(v) => r == Some(v as u8),
            None => r is None,
        },
{
    if '0' <= c && c <= '9' {
        Some((c as u8) - 48)
    } else if 'a' <= c && c <= 'f' {
        Some((c as u8) - 87)
    } else if 'A' <= c && c <= 'F' {
        Some((c as u8) - 55)
    } else {
        None
    }
}

fn parse_hex_u8_exec(s: &[char]) -> (r: Option<u8>)
    ensures
        r == parse_hex_u8(s@),
{
    let start: usize = if s.len() > 0 && s[0] == '+' { 1 } else { 0 };
    let ghost d = if s@.len() > 0 && s@[0] == '+' { s@.drop_first() } else { s@ };
    assert(d =~= s@.subrange(start as int, s@.len() as int));
    if start == s.len() {
        return None;
    }
    let mut valid = true;
    let mut cur: u32 = 0;
    let mut i: usize = start;
    assert(d.take(0) =~= Seq::<char>::empty());
    while i < s.len()
        invariant
            start <= i <= s@.len(),
            d == s@.subrange(start as int, s@.len() as int),
            valid == (hex_run_value(d.take(i - start)) is Some),
            valid ==> cur as nat == if hex_run_value(d.take(i - start)).unwrap() < 256 {
                hex_run_value(d.take(i - start)).unwrap()
            } else {
                256
            },
            cur <= 256,
        decreases s@.len() - i,
    {
        let ghost pre = d.take(i - start);
        let ghost next = d.take(i + 1 - start);
        assert(next.drop_last() =~= pre);
        assert(next.last() == s@[i as int]);
        match hex_value_exec(s[i]) {
            Some(v) => {
                if valid {
                    let n = cur * 16 + v as u32;
                    cur = if n > 256 { 256 } else { n };
                }
            },
            None => {
                valid = false;
            },
        }
        i = i + 1;
    }
    assert(d.take(i - start) =~= d);
    if valid && cur <= 255 {
        Some(cur as u8)
    } else {
        None
    }
}

/// Parses a colon-separated Bluetooth address into its six octets, in printed
/// order. Anything else is an `InvalidArgument` naming the address.
pub fn parse_bdaddr(address: &str) -> (r: Result<[u8; 6], TransportError>)
    ensures
        match spec_bdaddr(address@) {
            Some(octets) => r matches Ok(b) && b@ == octets,
            None => r matches Err(TransportError::InvalidArgument(msg)) && msg@
                == "invalid Bluetooth address: "@ + address@,
        },
{
    let cs = chars_of(address);
    let mut parts: Vec<Vec<char>> = Vec::new();
    parts.push(Vec::new());
    let mut i: usize = 0;
    assert(cs@.take(0) =~= Seq::<char>::empty());
    while i < cs.len()
        invariant
            i <= cs@.len(),
            cs@ == address@,
            parts@.len() >= 1,
            parts@.map_values(|p: Vec<char>| p@) == split_colon(cs@.take(i as int)),
        decreases cs@.len() - i,
    {
        let ghost before = parts@.map_values(|p: Vec<char>| p@);
        let ghost next = cs@.take(i + 1);
        assert(next.drop_last() =~= cs@.take(i as int));
        assert(next.last() == cs@[i as int]);
        if cs[i] == ':' {
            parts.push(Vec::new());
            assert(parts@.map_values(|p: Vec<char>| p@) =~= before.push(Seq::<char>::empty()));
        } else {
            let last = parts.len() - 1;
            let mut part = parts.pop().unwrap();
            part.push(cs[i]);
            parts.push(part);
            assert(parts@.map_values(|p: Vec<char>| p@) =~= before.update(
                before.len() - 1,
                before.last().push(cs@[i as int]),
            ));
        }
        i = i + 1;
    }
    assert(cs@.take(cs@.len() as int) =~= cs@);
    let ghost split = parts@.map_values(|p: Vec<char>| p@);
    let mut msg: Vec<char> = Vec::new();
    crate::text::append_str(&mut msg, "invalid Bluetooth address: ");
    crate::text::append_chars(&mut msg, cs.as_slice());
    if parts.len() != 6 {
        return Err(TransportError::InvalidArgument(string_of(msg.as_slice())));
    }
    let mut octets: Vec<u8> = Vec::new();
    let mut k: usize = 0;
    while k < 6
        invariant
            k <= 6,
            parts@.len() == 6,
            split == parts@.map_values(|p: Vec<char>| p@),
            split == split_colon(address@),
            octets@.len() == k,
            forall|j: int| 0 <= j < k ==> #[trigger] parse_hex_u8(split[j]) == Some(octets@[j]),
            msg@ == "invalid Bluetooth address: "@ + address@,
        decreases 6 - k,
    {
        assert(split[k as int] == parts@[k as int]@);
        match parse_hex_u8_exec(parts[k].as_slice()) {
            Some(b) => octets.push(b),
            None => {
                return Err(TransportError::InvalidArgument(string_of(msg.as_slice())));
            },
        }
        k = k + 1;
    }
    let out: [u8; 6] = [octets[0], octets[1], octets[2], octets[3], octets[4], octets[5]];
    assert(out@ =~= Seq::new(6, |i: int| parse_hex_u8(split[i]).unwrap()));
    Ok(out)
}

} // verus!
