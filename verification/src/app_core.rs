//! The application core's decision logic.
//!
//! The UI never touches GATT bytes: it hands the core typed commands and receives
//! typed events carrying snapshots. [`AppCore`] owns a transport and decides, for
//! each command and each supervisor tick, which transport calls to make and which
//! events to emit. Every device write is encoded by the protocol layer and then
//! converges on the transport's central write policy. The worker thread, the
//! command channel and the clock that drive it live outside this module.
//!
//! Safety gates owned by this layer:
//!
//! * Find Earbuds requires an explicit `confirmed_not_worn` preflight flag; without
//!   it the chime is refused before any write is attempted.
//! * Destructive opcodes are never constructible from a [`CoreCommand`].
//! * Unknown devices stay read-only unless the user attests the model.

use vstd::prelude::*;

use crate::packet::{encode_body, encode_command, spec_encode, BlockModel, DecodeError};
use crate::policy::{denial_text, CHAR_SETTINGS_NOTIFY};
use crate::protocol::{battery_charging_of, battery_level_of, cell_of, cmd_code, BatteryState, Cmd};
use crate::text::{
    append_chars, append_str, ascii_lower_chars, ascii_lower_seq, chars_eq, chars_of, decimal,
    decimal_u8, string_of, trim_chars, trim_spec,
};
use crate::transport::{
    normalize_address, normalized_address, transport_error_text, DiscoveredDevice, Transport,
    TransportError,
};

verus! {

/// Battery characteristic (proven read).
pub const CHAR_BATTERY: &'static str = "00000008-0000-1000-8000-00805f9b34fb";

/// Firmware version characteristic (proven read).
pub const CHAR_VERSION: &'static str = "00000007-0000-1000-8000-00805f9b34fb";

/// Typed battery snapshot for the UI.
#[derive(Debug, Clone, Copy, PartialEq, Eq, Structural)]
pub struct BatterySnapshot {
    pub left: u8,
    pub right: u8,
    pub case: u8,
    pub charging_left: bool,
    pub charging_right: bool,
    pub charging_case: bool,
}

impl Default for BatterySnapshot {
    fn default() -> (r: Self)
        ensures
            r == (BatterySnapshot {
                left: 0,
                right: 0,
                case: 0,
                charging_left: false,
                charging_right: false,
                charging_case: false,
            }),
    {
        BatterySnapshot {
            left: 0,
            right: 0,
            case: 0,
            charging_left: false,
            charging_right: false,
            charging_case: false,
        }
    }
}

/// Noise-control modes mapped to the hardware-validated `AncSetting` (0x17) scene
/// table.
#[derive(Debug, Clone, Copy, PartialEq, Eq, Structural)]
pub enum SimpleNoise {
    Off,
    /// ANC indoor.
    Anc,
    /// Adaptive ANC.
    Adaptive,
    /// ANC commuting/working.
    Commuting,
    /// ANC noisy environment.
    Noisy,
    /// ANC wind reduction.
    Wind,
    /// Transparency.
    Transparency,
}

/// The `[mode, subScene, noiseValue]` parameters of each noise mode.
pub open spec fn scene_of(n: SimpleNoise) -> (u8, u8, u8) {
    match n {
        SimpleNoise::Off => (0x02, 0x00, 0x00),
        SimpleNoise::Anc => (0x01, 0x01, 0x02),
        SimpleNoise::Adaptive => (0x01, 0x05, 0x02),
        SimpleNoise::Commuting => (0x01, 0x02, 0x02),
        SimpleNoise::Noisy => (0x01, 0x03, 0x02),
        SimpleNoise::Wind => (0x01, 0x04, 0x02),
        SimpleNoise::Transparency => (0x03, 0x02, 0x04),
    }
}

/// The variant name of each noise mode.
pub open spec fn noise_name(n: SimpleNoise) -> Seq<char> {
    match n {
        SimpleNoise::Off => "Off"@,
        SimpleNoise::Anc => "Anc"@,
        SimpleNoise::Adaptive => "Adaptive"@,
        SimpleNoise::Commuting => "Commuting"@,
        SimpleNoise::Noisy => "Noisy"@,
        SimpleNoise::Wind => "Wind"@,
        SimpleNoise::Transparency => "Transparency"@,
    }
}

impl SimpleNoise {
    /// Hardware-validated HT08 ANC scene `[mode, subScene, noiseValue]` for opcode
    /// 0x17 AncSetting.
    pub fn scene(self) -> (r: (u8, u8, u8))
        ensures
            r == scene_of(self),
    {
        match self {
            SimpleNoise::Off => (0x02, 0x00, 0x00),
            SimpleNoise::Anc => (0x01, 0x01, 0x02),
            SimpleNoise::Adaptive => (0x01, 0x05, 0x02),
            SimpleNoise::Commuting => (0x01, 0x02, 0x02),
            SimpleNoise::Noisy => (0x01, 0x03, 0x02),
            SimpleNoise::Wind => (0x01, 0x04, 0x02),
            SimpleNoise::Transparency => (0x03, 0x02, 0x04),
        }
    }

    /// The mode's variant name, as shown in status messages.
    pub fn name(self) -> (r: &'static str)
        ensures
            r@ == noise_name(self),
    {
        match self {
            SimpleNoise::Off => "Off",
            SimpleNoise::Anc => "Anc",
            SimpleNoise::Adaptive => "Adaptive",
            SimpleNoise::Commuting => "Commuting",
            SimpleNoise::Noisy => "Noisy",
            SimpleNoise::Wind => "Wind",
            SimpleNoise::Transparency => "Transparency",
        }
    }
}

/// Distinct noise modes select distinct hardware scenes.
pub proof fn lemma_scenes_distinct(a: SimpleNoise, b: SimpleNoise)
    requires
        scene_of(a) == scene_of(b),
    ensures
        a == b,
{
}

/// Raw ANC scene selection for `AncSetting` (0x17).
#[derive(Debug, Clone, Copy, PartialEq, Eq, Structural)]
pub struct AncScene {
    pub mode: u8,
    pub sub_scene: u8,
    pub noise_value: u8,
}

/// Media control actions (host MPRIS, never device writes).
#[derive(Debug, Clone, Copy, PartialEq, Eq, Structural)]
pub enum MediaCommand {
    Play,
    Pause,
    Next,
    Previous,
}

/// MPRIS requests: status queries and control actions are distinct operations.
#[derive(Debug, Clone, Copy, PartialEq, Eq, Structural)]
pub enum MediaRequest {
    Status,
    Control(MediaCommand),
}

/// Typed device state snapshot for the UI. Fields are `None`/empty when unknown.
#[derive(Debug, Clone, PartialEq)]
pub struct DeviceSnapshot {
    pub connected: bool,
    pub name: String,
    pub address: String,
    /// The identity actually holding the live session, when the transport knows
    /// it (dual-mode LE fallback). Attestations correlate with this identity.
    pub session_address: Option<String>,
    /// False when the model is not proven; such devices stay read-only.
    pub model_known: bool,
    pub rssi: Option<i16>,
    pub battery: Option<BatterySnapshot>,
    pub firmware: Option<String>,
    /// Last applied ANC scene; `None` until the first successful write.
    pub noise: Option<SimpleNoise>,
}

/// The view of an optional string.
pub open spec fn opt_text(s: Option<String>) -> Option<Seq<char>> {
    match s {
        Some(t) => Some(t@),
        None => None,
    }
}

/// The empty snapshot: nothing connected, nothing known.
pub open spec fn snapshot_is_default(s: DeviceSnapshot) -> bool {
    &&& !s.connected
    &&& s.name@ == Seq::<char>::empty()
    &&& s.address@ == Seq::<char>::empty()
    &&& s.session_address is None
    &&& !s.model_known
    &&& s.rssi is None
    &&& s.battery is None
    &&& s.firmware is None
    &&& s.noise is None
}

impl Default for DeviceSnapshot {
    fn default() -> (r: Self)
        ensures
            snapshot_is_default(r),
    {
        DeviceSnapshot {
            connected: false,
            name: String::new(),
            address: String::new(),
            session_address: None,
            model_known: false,
            rssi: None,
            battery: None,
            firmware: None,
            noise: None,
        }
    }
}

fn copy_text(s: &String) -> (r: String)
    ensures
        r == *s,
{
    s.clone()
}

fn copy_opt_text(s: &Option<String>) -> (r: Option<String>)
    ensures
        r == *s,
{
    match s {
        Some(t) => Some(t.clone()),
        None => None,
    }
}

/// A copy of a discovered device.
pub fn copy_device(d: &DiscoveredDevice) -> (r: DiscoveredDevice)
    ensures
        r == *d,
{
    DiscoveredDevice {
        address: d.address.clone(),
        name: d.name.clone(),
        rssi: d.rssi,
        model_known: d.model_known,
    }
}

/// A copy of a list of discovered devices.
pub fn copy_devices(list: &Vec<DiscoveredDevice>) -> (r: Vec<DiscoveredDevice>)
    ensures
        r@ == list@,
{
    let mut out: Vec<DiscoveredDevice> = Vec::new();
    let mut i: usize = 0;
    while i < list.len()
        invariant
            i <= list@.len(),
            out@ == list@.subrange(0, i as int),
        decreases list@.len() - i,
    {
        out.push(copy_device(&list[i]));
        i = i + 1;
        assert(out@ =~= list@.subrange(0, i as int));
    }
    assert(list@.subrange(0, list@.len() as int) =~= list@);
    out
}

impl DeviceSnapshot {
    /// A field-by-field copy of the snapshot.
    pub fn copy(&self) -> (r: DeviceSnapshot)
        ensures
            r == *self,
    {
        DeviceSnapshot {
            connected: self.connected,
            name: copy_text(&self.name),
            address: copy_text(&self.address),
            session_address: copy_opt_text(&self.session_address),
            model_known: self.model_known,
            rssi: self.rssi,
            battery: self.battery,
            firmware: copy_opt_text(&self.firmware),
            noise: self.noise,
        }
    }
}

/// Timing of the resident-session supervisor, in milliseconds and ticks.
#[derive(Debug, Clone, Copy, PartialEq, Eq, Structural)]
pub struct SupervisorConfig {
    /// Supervisor tick period (milliseconds; at least one is used).
    pub tick_ms: u64,
    /// While connected, check the link every N ticks.
    pub link_check_every_ticks: u32,
    /// While connected, refresh battery/firmware status every N ticks; this is
    /// also the GATT keepalive.
    pub status_refresh_every_ticks: u32,
    /// Cooldown between automatic re-bootstrap attempts after link loss.
    pub rebootstrap_cooldown_ms: u64,
}

impl Default for SupervisorConfig {
    fn default() -> (r: Self)
        ensures
            r == (SupervisorConfig {
                tick_ms: 1000,
                link_check_every_ticks: 5,
                status_refresh_every_ticks: 30,
                rebootstrap_cooldown_ms: 15000,
            }),
    {
        SupervisorConfig {
            tick_ms: 1000,
            link_check_every_ticks: 5,
            status_refresh_every_ticks: 30,
            rebootstrap_cooldown_ms: 15000,
        }
    }
}

/// Tracing is enabled only for an explicit truthy value: `1`, `true` or `yes`,
/// trimmed and case-insensitive. Mere presence (e.g. `0`) does not enable it.
pub open spec fn is_truthy(value: Seq<char>) -> bool {
    let t = ascii_lower_seq(trim_spec(value));
    t == "1"@ || t == "true"@ || t == "yes"@
}

/// Truthy parse of the core-trace switch.
pub fn trace_value_is_truthy(value: &str) -> (r: bool)
    ensures
        r == is_truthy(value@),
{
    let t = ascii_lower_chars(trim_chars(chars_of(value).as_slice()).as_slice());
    chars_eq(t.as_slice(), chars_of("1").as_slice()) || chars_eq(
        t.as_slice(),
        chars_of("true").as_slice(),
    ) || chars_eq(t.as_slice(), chars_of("yes").as_slice())
}

/// The parameter byte of an on/off toggle: `0x01` on, `0x02` off.
pub fn enable_byte(on: bool) -> (r: u8)
    ensures
        r == (if on { 0x01u8 } else { 0x02u8 }),
{
    if on {
        0x01
    } else {
        0x02
    }
}

/// The battery snapshot of a `[left, right, case]` readout.
pub open spec fn battery_of_bytes(b: Seq<u8>) -> BatterySnapshot {
    BatterySnapshot {
        left: battery_level_of(b[0]),
        right: battery_level_of(b[1]),
        case: battery_level_of(b[2]),
        charging_left: battery_charging_of(b[0]),
        charging_right: battery_charging_of(b[1]),
        charging_case: battery_charging_of(b[2]),
    }
}

/// Each cell of a battery read comes from its own byte: the left cell from the
/// first, the right from the second and the case from the third; the charging
/// flag is bit 7 of that byte and the level its low seven bits, capped at 100.
pub proof fn lemma_battery_cells_from_own_bytes(b: Seq<u8>)
    requires
        b.len() >= 3,
    ensures
        battery_of_bytes(b).charging_left == (b[0] & 0x80u8 != 0),
        battery_of_bytes(b).charging_right == (b[1] & 0x80u8 != 0),
        battery_of_bytes(b).charging_case == (b[2] & 0x80u8 != 0),
        battery_of_bytes(b).left == (if b[0] & 0x7Fu8 > 100 { 100u8 } else { b[0] & 0x7Fu8 }),
        battery_of_bytes(b).right == (if b[1] & 0x7Fu8 > 100 { 100u8 } else { b[1] & 0x7Fu8 }),
        battery_of_bytes(b).case == (if b[2] & 0x7Fu8 > 100 { 100u8 } else { b[2] & 0x7Fu8 }),
{
    assert(forall|x: u8| #![auto] (x & 0x80u8 != 0) == (x >= 128) && x & 0x7Fu8 == x % 128) by (bit_vector);
}

/// The battery snapshot of a decoded battery state.
pub fn battery_snapshot(state: &BatteryState) -> (r: BatterySnapshot)
    ensures
        r.left == state.left.level,
        r.right == state.right.level,
        r.case == state.case.level,
        r.charging_left == state.left.charging,
        r.charging_right == state.right.charging,
        r.charging_case == state.case.charging,
{
    BatterySnapshot {
        left: state.left.level,
        right: state.right.level,
        case: state.case.level,
        charging_left: state.left.charging,
        charging_right: state.right.charging,
        charging_case: state.case.charging,
    }
}

/// `major.minor.patch` from the first three version bytes.
pub open spec fn firmware_text_of(bytes: Seq<u8>) -> Seq<char> {
    decimal(bytes[0] as nat) + "."@ + decimal(bytes[1] as nat) + "."@ + decimal(bytes[2] as nat)
}

/// The firmware version text of a version read; `None` below three bytes.
pub fn firmware_text(bytes: &[u8]) -> (r: Option<String>)
    ensures
        bytes@.len() >= 3 <==> r is Some,
        r matches Some(s) ==> s@ == firmware_text_of(bytes@),
{
    if bytes.len() < 3 {
        return None;
    }
    let mut out: Vec<char> = Vec::new();
    let a = decimal_u8(bytes[0]);
    append_chars(&mut out, a.as_slice());
    append_str(&mut out, ".");
    let b = decimal_u8(bytes[1]);
    append_chars(&mut out, b.as_slice());
    append_str(&mut out, ".");
    let c = decimal_u8(bytes[2]);
    append_chars(&mut out, c.as_slice());
    Some(string_of(out.as_slice()))
}

/// The frame of one command block with at most three parameter bytes.
pub open spec fn small_frame(op: u8, params: Seq<u8>) -> Seq<u8> {
    seq![0xFFu8, (params.len() + 2) as u8, op, params.len() as u8] + params
}

/// Encodes a command with at most three parameters; such a frame always fits.
pub fn encode_small(op: u8, params: &[u8]) -> (r: Vec<u8>)
    requires
        params@.len() <= 3,
    ensures
        spec_encode(seq![(op, params@)]) == Ok::<Seq<u8>, DecodeError>(r@),
        r@ == small_frame(op, params@),
{
    proof {
        let blocks: Seq<BlockModel> = seq![(op, params@)];
        assert(blocks.drop_first() =~= Seq::<BlockModel>::empty());
        assert(encode_body(blocks) =~= seq![op, params@.len() as u8] + params@) by {
            reveal_with_fuel(encode_body, 2);
        }
    }
    match encode_command(op, params) {
        Ok(frame) => {
            assert(frame@ =~= small_frame(op, params@));
            frame
        },
        Err(_) => {
            assert(false);
            Vec::new()
        },
    }
}


/// Device-facing commands. Deliberately cannot express destructive opcodes,
/// arbitrary opcode writes, or un-preflighted chimes.
#[derive(Debug, Clone, PartialEq)]
pub enum CoreCommand {
    Scan,
    Connect(String),
    /// Attach the first device already connected at the host level; a no-op when
    /// nothing is connected or a device is already attached.
    AttachConnected,
    /// Explicit user attestation that the connected device is a known model.
    ConfirmModel { address: String },
    Disconnect,
    RefreshStatus,
    SetNoise(SimpleNoise),
    SetAncScene(AncScene),
    SetGameMode(bool),
    SetSleepMode(bool),
    SetInEarDetection(bool),
    /// Find Earbuds; `confirmed_not_worn` must come from the interactive preflight.
    FindChime { led: bool, chime: bool, tone_id: u8, confirmed_not_worn: bool },
    /// Session-scoped experimental-write opt-in (never persisted).
    SetExperimentalOptIn(bool),
    Shutdown,
}

/// Typed events to the UI.
#[derive(Debug, Clone, PartialEq)]
pub enum CoreEvent {
    Discovered(Vec<DiscoveredDevice>),
    StateChanged(DeviceSnapshot),
    /// An operation failed; the message is user-actionable.
    Error(String),
    /// A write was denied by the central policy.
    Denied(String),
    /// The user confirmed the connected device's model; the address should be
    /// persisted so future connections start writable.
    ModelConfirmed { address: String },
    /// The device link dropped; the core keeps re-bootstrapping in the background.
    SessionLost { address: String },
    /// The background re-bootstrap succeeded.
    SessionRestored { address: String },
    Info(String),
}

/// `e` is an error event with exactly this text.
pub open spec fn is_error(e: CoreEvent, text: Seq<char>) -> bool {
    e matches CoreEvent::Error(m) && m@ == text
}

/// `e` is a denial event with exactly this text.
pub open spec fn is_denied(e: CoreEvent, text: Seq<char>) -> bool {
    e matches CoreEvent::Denied(m) && m@ == text
}

/// `e` is an info event with exactly this text.
pub open spec fn is_info(e: CoreEvent, text: Seq<char>) -> bool {
    e matches CoreEvent::Info(m) && m@ == text
}

/// `e` reports this snapshot.
pub open spec fn is_state(e: CoreEvent, s: DeviceSnapshot) -> bool {
    e matches CoreEvent::StateChanged(t) && t == s
}

/// The event a failed write turns into: policy denials stay distinguishable.
pub open spec fn write_failure_event(e: TransportError) -> CoreEventModel {
    match e {
        TransportError::Denied(d) => CoreEventModel::Denied(denial_text(d)),
        _ => CoreEventModel::Error(transport_error_text(e)),
    }
}

/// Exactly one more write was answered.
pub open spec fn written_once(before: Seq<Result<(), TransportError>>, after: Seq<Result<(), TransportError>>) -> bool {
    after.len() == before.len() + 1 && after.drop_last() == before
}

/// What a framed write returns follows the transport's answer: success, or
/// the event that reports the failure.
pub open spec fn write_reported(outcome: Result<(), TransportError>, r: Result<(), CoreEvent>) -> bool {
    match outcome {
        Ok(()) => r is Ok,
        Err(e) => r matches Err(ev) && event_is(ev, write_failure_event(e)),
    }
}

/// The event that reports one write: `info` on success, else the failure
/// (prefixed with the feature name when there is one).
pub open spec fn outcome_event(outcome: Result<(), TransportError>, ev: CoreEvent, info: Seq<char>, feature: Option<Seq<char>>) -> bool {
    match outcome {
        Ok(()) => is_info(ev, info),
        Err(e) => match feature {
            Some(f) => tagged_event_is(ev, f, write_failure_event(e)),
            None => event_is(ev, write_failure_event(e)),
        },
    }
}

/// A noise-mode change made one write, and the transport's answer decided the
/// events: the mode's `Info` comes first exactly when the write succeeded, and a
/// failure is reported by the event that describes it.
pub open spec fn noise_write_reported(
    before: Seq<Result<(), TransportError>>,
    after: Seq<Result<(), TransportError>>,
    ev_before: Seq<CoreEvent>,
    ev_after: Seq<CoreEvent>,
    mode: SimpleNoise,
) -> bool {
    &&& written_once(before, after)
    &&& (after.last() is Ok <==> is_info(ev_after[ev_before.len() as int], "noise mode set to "@ + noise_name(mode)))
    &&& (after.last() matches Err(e) ==> event_is(ev_after.last(), write_failure_event(e)))
}

/// Text-level model of an error or denial event.
pub enum CoreEventModel {
    Error(Seq<char>),
    Denied(Seq<char>),
}

/// `e` carries the text of the model event `m`.
pub open spec fn event_is(e: CoreEvent, m: CoreEventModel) -> bool {
    match m {
        CoreEventModel::Error(t) => is_error(e, t),
        CoreEventModel::Denied(t) => is_denied(e, t),
    }
}

/// The text the preflight gate answers an unconfirmed chime with.
pub const PREFLIGHT_DENIAL: &'static str = "Find Earbuds requires the interactive preflight: confirm the earbuds are not being worn before sounding the chime.";

/// `e` carries the text of `m`, prefixed with a feature name.
pub open spec fn tagged_event_is(e: CoreEvent, feature: Seq<char>, m: CoreEventModel) -> bool {
    match m {
        CoreEventModel::Error(t) => is_error(e, feature + ": "@ + t),
        CoreEventModel::Denied(t) => is_denied(e, feature + ": "@ + t),
    }
}

/// The text a model confirmation without a matching connection is answered with.
pub const CONFIRM_REQUIRES_CONNECTION: &'static str = "model confirmation requires the device to be connected";

/// What a supervisor tick asks of the loop that drives the core.
#[derive(Debug, Clone, Copy, PartialEq, Eq, Structural)]
pub enum TickOutcome {
    /// Nothing further to do.
    Idle,
    /// The link was found lost on this tick (the re-bootstrap clock restarts).
    LinkLost,
    /// The session is lost and supervised: a re-bootstrap attempt is wanted
    /// once the cooldown allows it.
    RebootstrapWanted,
}

/// The application core: the transport plus the worker state that the command
/// handler and the resident-session supervisor share.
pub struct AppCore<T: Transport> {
    transport: T,
    snapshot: DeviceSnapshot,
    last_discovered: Vec<DiscoveredDevice>,
    known_devices: Vec<String>,
    experimental_opt_in: bool,
    /// Armed on a successful connect, disarmed on an explicit user disconnect.
    supervising: bool,
    tick_count: u32,
    last_rebootstrap_error: Option<String>,
    /// The frames handed to the transport's framed write, in order.
    writes: Ghost<Seq<Seq<u8>>>,
    /// The answers of the transport's link-state checks, in order.
    link_reports: Ghost<Seq<Result<bool, TransportError>>>,
    /// The transport's answer to each framed write, in the order of `writes`.
    write_outcomes: Ghost<Seq<Result<(), TransportError>>>,
    /// The link actions asked of the transport, in order.
    links: Ghost<Seq<LinkAction>>,
    /// The characteristic reads asked of the transport and their answers, in order.
    reads: Ghost<Seq<(Seq<char>, Result<Seq<u8>, TransportError>)>>,
}

/// The view of a characteristic read's answer.
pub open spec fn read_view(r: Result<Vec<u8>, TransportError>) -> Result<Seq<u8>, TransportError> {
    match r {
        Ok(b) => Ok(b@),
        Err(e) => Err(e),
    }
}

/// The battery after a battery read: three or more bytes replace it, cell by
/// cell from their own byte; anything else leaves it as it was.
pub open spec fn battery_after(before: Option<BatterySnapshot>, read: Result<Seq<u8>, TransportError>) -> Option<BatterySnapshot> {
    match read {
        Ok(b) => if b.len() >= 3 {
            Some(battery_of_bytes(b))
        } else {
            before
        },
        Err(_) => before,
    }
}

/// The firmware text after a version read: three or more bytes replace it;
/// anything else leaves it as it was.
pub open spec fn firmware_after(before: Option<Seq<char>>, read: Result<Seq<u8>, TransportError>) -> Option<Seq<char>> {
    match read {
        Ok(b) => if b.len() >= 3 {
            Some(firmware_text_of(b))
        } else {
            before
        },
        Err(_) => before,
    }
}

/// A status refresh read the battery, then the version, and took the battery
/// and firmware of the snapshot from those answers.
pub open spec fn status_refreshed(
    reads0: Seq<(Seq<char>, Result<Seq<u8>, TransportError>)>,
    reads1: Seq<(Seq<char>, Result<Seq<u8>, TransportError>)>,
    s0: DeviceSnapshot,
    s1: DeviceSnapshot,
) -> bool {
    &&& reads1.len() == reads0.len() + 2
    &&& reads1.subrange(0, reads0.len() as int) == reads0
    &&& reads1[reads0.len() as int].0 == CHAR_BATTERY@
    &&& reads1[reads0.len() + 1int].0 == CHAR_VERSION@
    &&& s1.battery == battery_after(s0.battery, reads1[reads0.len() as int].1)
    &&& opt_text(s1.firmware) == firmware_after(opt_text(s0.firmware), reads1[reads0.len() + 1int].1)
}

/// A link action asked of the transport: connect to an address, or disconnect.
pub enum LinkAction {
    Connect(Seq<char>),
    Disconnect,
}

/// Whether a list of texts holds `s`.
pub open spec fn texts_contain(list: Seq<Seq<char>>, s: Seq<char>) -> bool {
    exists|k: int| 0 <= k < list.len() && list[k] == s
}

fn contains_text(list: &Vec<String>, s: &str) -> (r: bool)
    ensures
        r == texts_contain(list@.map_values(|t: String| t@), s@),
{
    let want = chars_of(s);
    let ghost m = list@.map_values(|t: String| t@);
    let mut i: usize = 0;
    while i < list.len()
        invariant
            i <= list@.len(),
            want@ == s@,
            m == list@.map_values(|t: String| t@),
            forall|k: int| 0 <= k < i ==> m[k] != s@,
        decreases list@.len() - i,
    {
        if chars_eq(chars_of(list[i].as_str()).as_slice(), want.as_slice()) {
            assert(m[i as int] == s@);
            return true;
        }
        i = i + 1;
    }
    false
}

/// Where a re-bootstrap attempt is due: never attempted, or the cooldown has
/// passed since the last attempt (a clock that went backwards counts as no time).
pub fn rebootstrap_due(last_attempt_ms: Option<u64>, now_ms: u64, cooldown_ms: u64) -> (r: bool)
    ensures
        r == match last_attempt_ms {
            None => true,
            Some(t) => now_ms >= t && now_ms - t >= cooldown_ms || now_ms < t && cooldown_ms == 0,
        },
{
    match last_attempt_ms {
        None => true,
        Some(t) => {
            let elapsed: u64 = if now_ms >= t { now_ms - t } else { 0 };
            elapsed >= cooldown_ms
        },
    }
}

fn prefixed(prefix: &str, text: &str) -> (r: String)
    ensures
        r@ == prefix@ + text@,
{
    let mut out: Vec<char> = Vec::new();
    append_str(&mut out, prefix);
    append_str(&mut out, text);
    string_of(out.as_slice())
}

fn error_with(prefix: &str, e: &TransportError) -> (r: CoreEvent)
    ensures
        is_error(r, prefix@ + transport_error_text(*e)),
{
    let t = e.message();
    CoreEvent::Error(prefixed(prefix, t.as_str()))
}

/// Tag a failed toggle write with the feature name, so the UI can roll back
/// exactly the optimistic toggle that caused it.
pub fn tag_failure(event: CoreEvent, feature: &str) -> (r: CoreEvent)
    ensures
        event matches CoreEvent::Error(m) ==> is_error(r, feature@ + ": "@ + m@),
        event matches CoreEvent::Denied(m) ==> is_denied(r, feature@ + ": "@ + m@),
        !(event is Error || event is Denied) ==> r == event,
{
    match event {
        CoreEvent::Error(message) => {
            let mut out: Vec<char> = Vec::new();
            append_str(&mut out, feature);
            append_str(&mut out, ": ");
            append_str(&mut out, message.as_str());
            CoreEvent::Error(string_of(out.as_slice()))
        },
        CoreEvent::Denied(message) => {
            let mut out: Vec<char> = Vec::new();
            append_str(&mut out, feature);
            append_str(&mut out, ": ");
            append_str(&mut out, message.as_str());
            CoreEvent::Denied(string_of(out.as_slice()))
        },
        other => other,
    }
}

impl<T: Transport> AppCore<T> {
    pub closed spec fn spec_snapshot(&self) -> DeviceSnapshot {
        self.snapshot
    }

    pub closed spec fn spec_supervising(&self) -> bool {
        self.supervising
    }

    pub closed spec fn spec_opt_in(&self) -> bool {
        self.experimental_opt_in
    }

    /// Addresses whose model the user confirmed (normalized).
    pub closed spec fn spec_known(&self) -> Seq<Seq<char>> {
        self.known_devices@.map_values(|t: String| t@)
    }

    pub closed spec fn spec_discovered(&self) -> Seq<DiscoveredDevice> {
        self.last_discovered@
    }

    pub closed spec fn spec_ticks(&self) -> u32 {
        self.tick_count
    }

    /// The transport the core drives.
    pub closed spec fn spec_transport(&self) -> T {
        self.transport
    }

    /// The frames the core has handed to the transport's framed write, in order.
    pub closed spec fn spec_writes(&self) -> Seq<Seq<u8>> {
        self.writes@
    }

    /// The answers the transport gave to the supervisor's link-state checks.
    pub closed spec fn spec_link_reports(&self) -> Seq<Result<bool, TransportError>> {
        self.link_reports@
    }

    /// The characteristic reads asked of the transport so far, with their answers.
    pub closed spec fn spec_reads(&self) -> Seq<(Seq<char>, Result<Seq<u8>, TransportError>)> {
        self.reads@
    }

    /// The link actions asked of the transport so far.
    pub closed spec fn spec_links(&self) -> Seq<LinkAction> {
        self.links@
    }

    /// The transport's answers to the framed writes so far.
    pub closed spec fn spec_write_outcomes(&self) -> Seq<Result<(), TransportError>> {
        self.write_outcomes@
    }

    pub closed spec fn spec_last_rebootstrap_error(&self) -> Option<Seq<char>> {
        opt_text(self.last_rebootstrap_error)
    }

    /// Everything but the transport and the snapshot is as in `other`.
    /// As `same_settings`, and no link action was asked.
    pub open spec fn same_bookkeeping(&self, other: &Self) -> bool {
        &&& self.same_settings(other)
        &&& self.spec_links() == other.spec_links()
    }

    /// Supervision, opt-in, confirmed devices, discovery list, tick count and
    /// last re-bootstrap error are as in `other`.
    pub open spec fn same_settings(&self, other: &Self) -> bool {
        &&& self.spec_supervising() == other.spec_supervising()
        &&& self.spec_opt_in() == other.spec_opt_in()
        &&& self.spec_known() == other.spec_known()
        &&& self.spec_discovered() == other.spec_discovered()
        &&& self.spec_ticks() == other.spec_ticks()
        &&& self.spec_last_rebootstrap_error() == other.spec_last_rebootstrap_error()
    }

    /// A core over `transport`; `known_devices` are the addresses whose model the
    /// user already confirmed (stored normalized), so matching connections start
    /// writable without asking again.
    pub fn new(transport: T, known_devices: Vec<String>) -> (r: Self)
        ensures
            snapshot_is_default(r.spec_snapshot()),
            !r.spec_supervising(),
            !r.spec_opt_in(),
            r.spec_ticks() == 0,
            r.spec_discovered().len() == 0,
            r.spec_last_rebootstrap_error() is None,
            r.spec_transport() == transport,
            r.spec_writes().len() == 0,
            r.spec_known().len() == known_devices@.len(),
            forall|k: int|
                0 <= k < known_devices@.len() ==> r.spec_known()[k] == normalized_address(
                    #[trigger] known_devices@[k]@,
                ),
    {
        let mut known: Vec<String> = Vec::new();
        let mut i: usize = 0;
        while i < known_devices.len()
            invariant
                i <= known_devices@.len(),
                known@.len() == i,
                forall|k: int|
                    0 <= k < i ==> (#[trigger] known@[k])@ == normalized_address(known_devices@[k]@),
            decreases known_devices@.len() - i,
        {
            known.push(normalize_address(known_devices[i].as_str()));
            i = i + 1;
        }
        AppCore {
            transport,
            snapshot: DeviceSnapshot::default(),
            last_discovered: Vec::new(),
            known_devices: known,
            experimental_opt_in: false,
            supervising: false,
            tick_count: 0,
            last_rebootstrap_error: None,
            writes: Ghost(Seq::empty()),
            link_reports: Ghost(Seq::empty()),
            write_outcomes: Ghost(Seq::empty()),
            links: Ghost(Seq::empty()),
            reads: Ghost(Seq::empty()),
        }
    }

    /// The current device snapshot.
    pub fn snapshot(&self) -> (r: &DeviceSnapshot)
        ensures
            *r == self.spec_snapshot(),
    {
        &self.snapshot
    }

    /// Whether the resident-session supervisor holds the session.
    pub fn supervising(&self) -> (r: bool)
        ensures
            r == self.spec_supervising(),
    {
        self.supervising
    }

    /// The confirmed-model addresses (normalized).
    pub fn known_devices(&self) -> (r: &Vec<String>)
        ensures
            r@.map_values(|t: String| t@) == self.spec_known(),
    {
        &self.known_devices
    }

    /// The transport the core drives.
    pub fn transport(&self) -> (r: &T)
        ensures
            *r == self.spec_transport(),
    {
        &self.transport
    }
}


impl<T: Transport> AppCore<T> {
    /// Reads battery and firmware into the snapshot (connected only). A failed
    /// read is reported as an error event; undecodable data leaves the field.
    fn refresh_status(&mut self, events: &mut Vec<CoreEvent>)
        ensures
            final(self).spec_writes() == old(self).spec_writes(),
            !old(self).spec_snapshot().connected ==> *final(self) == *old(self) && final(events)@
                == old(events)@,
            final(self).same_bookkeeping(old(self)),
            final(self).spec_snapshot().connected == old(self).spec_snapshot().connected,
            final(self).spec_snapshot().name == old(self).spec_snapshot().name,
            final(self).spec_snapshot().address == old(self).spec_snapshot().address,
            final(self).spec_snapshot().session_address == old(self).spec_snapshot().session_address,
            final(self).spec_snapshot().model_known == old(self).spec_snapshot().model_known,
            final(self).spec_snapshot().rssi == old(self).spec_snapshot().rssi,
            final(self).spec_snapshot().noise == old(self).spec_snapshot().noise,
            final(events)@.len() <= old(events)@.len() + 2,
            extends(old(events)@, final(events)@),
            forall|k: int|
                old(events)@.len() <= k < final(events)@.len() ==> #[trigger] final(events)@[k] is Error,
            old(self).spec_snapshot().connected ==> status_refreshed(
                old(self).spec_reads(),
                final(self).spec_reads(),
                old(self).spec_snapshot(),
                final(self).spec_snapshot(),
            ),
    {
        if !self.snapshot.connected {
            proof {
                lemma_extends_refl(events@);
            }
            return;
        }
        let ghost start = events@;
        let battery_read = self.transport.read(CHAR_BATTERY);
        self.reads = Ghost(self.reads@.push((CHAR_BATTERY@, read_view(battery_read))));
        match battery_read {
            Ok(bytes) => {
                match BatteryState::decode(bytes.as_slice()) {
                    Some(state) => {
                        self.snapshot.battery = Some(battery_snapshot(&state));
                        assert(self.snapshot.battery == Some(battery_of_bytes(bytes@)));
                    },
                    None => {},
                }
            },
            Err(e) => {
                events.push(error_with("battery read failed: ", &e));
            },
        }
        let version_read = self.transport.read(CHAR_VERSION);
        self.reads = Ghost(self.reads@.push((CHAR_VERSION@, read_view(version_read))));
        match version_read {
            Ok(bytes) => {
                match firmware_text(bytes.as_slice()) {
                    Some(t) => {
                        self.snapshot.firmware = Some(t);
                        assert(opt_text(self.snapshot.firmware) == Some(firmware_text_of(bytes@)));
                    },
                    None => {},
                }
            },
            Err(e) => {
                events.push(error_with("firmware read failed: ", &e));
            },
        }
        assert(events@.subrange(0, start.len() as int) =~= start);
        assert(self.reads@.subrange(0, old(self).reads@.len() as int) =~= old(self).reads@);
    }

    /// The quiet status refresh used as the keepalive: updates the snapshot and
    /// never reports errors (link loss is detected separately).
    fn keepalive_refresh(&mut self)
        ensures
            final(self).spec_writes() == old(self).spec_writes(),
            final(self).spec_link_reports() == old(self).spec_link_reports(),
            final(self).same_bookkeeping(old(self)),
            final(self).spec_snapshot().connected == old(self).spec_snapshot().connected,
            final(self).spec_snapshot().name == old(self).spec_snapshot().name,
            final(self).spec_snapshot().address == old(self).spec_snapshot().address,
            final(self).spec_snapshot().session_address == old(self).spec_snapshot().session_address,
            final(self).spec_snapshot().model_known == old(self).spec_snapshot().model_known,
            final(self).spec_snapshot().rssi == old(self).spec_snapshot().rssi,
            final(self).spec_snapshot().noise == old(self).spec_snapshot().noise,
            final(self).spec_snapshot().battery == old(self).spec_snapshot().battery || exists|b: Seq<u8>|
                b.len() >= 3 && final(self).spec_snapshot().battery == Some(#[trigger] battery_of_bytes(b)),
            opt_text(final(self).spec_snapshot().firmware) == opt_text(old(self).spec_snapshot().firmware)
                || exists|b: Seq<u8>| b.len() >= 3 && opt_text(final(self).spec_snapshot().firmware) == Some(
                #[trigger] firmware_text_of(b),
            ),
            status_refreshed(
                old(self).spec_reads(),
                final(self).spec_reads(),
                old(self).spec_snapshot(),
                final(self).spec_snapshot(),
            ),
    {
        let battery_read = self.transport.read(CHAR_BATTERY);
        self.reads = Ghost(self.reads@.push((CHAR_BATTERY@, read_view(battery_read))));
        match battery_read {
            Ok(bytes) => {
                match BatteryState::decode(bytes.as_slice()) {
                    Some(state) => {
                        self.snapshot.battery = Some(battery_snapshot(&state));
                        assert(self.snapshot.battery == Some(battery_of_bytes(bytes@)));
                    },
                    None => {},
                }
            },
            Err(_) => {},
        }
        let version_read = self.transport.read(CHAR_VERSION);
        self.reads = Ghost(self.reads@.push((CHAR_VERSION@, read_view(version_read))));
        match version_read {
            Ok(bytes) => {
                match firmware_text(bytes.as_slice()) {
                    Some(t) => {
                        self.snapshot.firmware = Some(t);
                        assert(opt_text(self.snapshot.firmware) == Some(firmware_text_of(bytes@)));
                    },
                    None => {},
                }
            },
            Err(_) => {},
        }
        assert(self.reads@.subrange(0, old(self).reads@.len() as int) =~= old(self).reads@);
    }

    /// Hands a frame to the transport; a failure becomes the event to report
    /// (policy denials as `Denied`, everything else as `Error`).
    fn write_frame(&mut self, frame: &[u8]) -> (r: Result<(), CoreEvent>)
        ensures
            final(self).spec_writes() == old(self).spec_writes().push(frame@),
            final(self).same_bookkeeping(old(self)),
            final(self).spec_snapshot() == old(self).spec_snapshot(),
            r matches Err(ev) ==> exists|e: TransportError| event_is(ev, #[trigger] write_failure_event(e)),
            written_once(old(self).spec_write_outcomes(), final(self).spec_write_outcomes()),
            write_reported(final(self).spec_write_outcomes().last(), r),
    {
        self.writes = Ghost(self.writes@.push(frame@));
        let res = self.transport.write(frame);
        self.write_outcomes = Ghost(self.write_outcomes@.push(res));
        assert(self.write_outcomes@.drop_last() =~= old(self).write_outcomes@);
        match res {
            Ok(()) => Ok(()),
            Err(e) => {
                let ghost ge = e;
                match e {
                    TransportError::Denied(d) => {
                        let t = d.message();
                        let ev = CoreEvent::Denied(t);
                        assert(event_is(ev, write_failure_event(ge)));
                        Err(ev)
                    },
                    other => {
                        let t = other.message();
                        let ev = CoreEvent::Error(t);
                        assert(event_is(ev, write_failure_event(ge)));
                        Err(ev)
                    },
                }
            },
        }
    }

    /// Writes one device command with at most three parameters.
    fn write_command(&mut self, cmd: Cmd, params: &[u8]) -> (r: Result<(), CoreEvent>)
        requires
            params@.len() <= 3,
        ensures
            final(self).spec_writes() == old(self).spec_writes().push(small_frame(cmd_code(cmd), params@)),
            final(self).same_bookkeeping(old(self)),
            final(self).spec_snapshot() == old(self).spec_snapshot(),
            r matches Err(ev) ==> exists|e: TransportError| event_is(ev, #[trigger] write_failure_event(e)),
            written_once(old(self).spec_write_outcomes(), final(self).spec_write_outcomes()),
            write_reported(final(self).spec_write_outcomes().last(), r),
    {
        let frame = encode_small(cmd.code(), params);
        self.write_frame(frame.as_slice())
    }
}


/// The identity an attestation correlates with: the session identity when the
/// transport reports one, else the normalized requested address.
pub open spec fn attest_identity(session: Option<Seq<char>>, requested: Seq<char>) -> Seq<char> {
    match session {
        Some(a) => a,
        None => normalized_address(requested),
    }
}

fn find_discovered(list: &Vec<DiscoveredDevice>, address: &str) -> (r: Option<usize>)
    ensures
        match r {
            Some(k) => k < list@.len() && list@[k as int].address@ == address@ && forall|j: int|
                0 <= j < k ==> list@[j].address@ != address@,
            None => forall|j: int| 0 <= j < list@.len() ==> list@[j].address@ != address@,
        },
{
    let want = chars_of(address);
    let mut i: usize = 0;
    while i < list.len()
        invariant
            i <= list@.len(),
            want@ == address@,
            forall|j: int| 0 <= j < i ==> list@[j].address@ != address@,
        decreases list@.len() - i,
    {
        if chars_eq(chars_of(list[i].address.as_str()).as_slice(), want.as_slice()) {
            return Some(i);
        }
        i = i + 1;
    }
    None
}

impl<T: Transport> AppCore<T> {
    /// The shared connect path: connect, subscribe the settings notify (the
    /// keepalive), fill the snapshot from the discovery list, auto-attest a
    /// previously confirmed session identity, then refresh the status.
    fn do_connect(&mut self, address: String, events: &mut Vec<CoreEvent>) -> (r: Result<(), String>)
        ensures
            final(self).spec_writes() == old(self).spec_writes(),
            final(self).same_settings(old(self)),
            final(self).spec_links() == old(self).spec_links().push(LinkAction::Connect(address@)),
            r matches Err(m) ==> (exists|e: TransportError| m@ == "connect failed: "@
                + transport_error_text(e)) && final(self).spec_snapshot() == old(
                self).spec_snapshot() && final(events)@ == old(events)@,
            r is Ok ==> {
                let s = final(self).spec_snapshot();
                &&& s.connected
                &&& s.address@ == address@
                &&& s.noise == old(self).spec_snapshot().noise
                &&& texts_contain(
                    old(self).spec_known(),
                    attest_identity(opt_text(s.session_address), address@),
                ) ==> s.model_known
                &&& forall|k: int|
                    0 <= k < old(self).spec_discovered().len() && (#[trigger] old(self).spec_discovered()[k]).address@ == address@ && (forall|j: int|
                        0 <= j < k ==> old(self).spec_discovered()[j].address@ != address@) ==> {
                        let d = old(self).spec_discovered()[k];
                        s.name@ == d.name@ && s.rssi == d.rssi && (d.model_known ==> s.model_known)
                    }
                &&& (forall|k: int|
                    0 <= k < old(self).spec_discovered().len() ==> (#[trigger] old(self).spec_discovered()[k]).address@ != address@) ==> (old(self).spec_snapshot().model_known ==> s.model_known)
            },
            extends(old(events)@, final(events)@),
            forall|k: int|
                old(events)@.len() <= k < final(events)@.len() ==> #[trigger] final(events)@[k] is Error,
            r is Ok ==> status_refreshed(
                old(self).spec_reads(),
                final(self).spec_reads(),
                old(self).spec_snapshot(),
                final(self).spec_snapshot(),
            ),
    {
        self.links = Ghost(self.links@.push(LinkAction::Connect(address@)));
        match self.transport.connect(address.as_str()) {
            Ok(()) => {},
            Err(e) => {
                let t = e.message();
                proof {
                    lemma_extends_refl(events@);
                }
                return Err(prefixed("connect failed: ", t.as_str()));
            },
        }
        let _ = self.transport.subscribe(CHAR_SETTINGS_NOTIFY);
        self.snapshot.connected = true;
        match find_discovered(&self.last_discovered, address.as_str()) {
            Some(k) => {
                self.snapshot.name = copy_text(&self.last_discovered[k].name);
                self.snapshot.rssi = self.last_discovered[k].rssi;
                self.snapshot.model_known = self.last_discovered[k].model_known;
            },
            None => {},
        }
        let session_address = match self.transport.session_address() {
            Some(a) => Some(normalize_address(a.as_str())),
            None => None,
        };
        let attest_address = match &session_address {
            Some(a) => copy_text(a),
            None => normalize_address(address.as_str()),
        };
        self.snapshot.session_address = session_address;
        self.snapshot.address = address;
        if !self.snapshot.model_known && contains_text(&self.known_devices, attest_address.as_str()) {
            self.transport.attest_model_known();
            self.snapshot.model_known = true;
        }
        self.refresh_status(events);
        Ok(())
    }
}


/// `after` starts with `before`.
pub open spec fn extends(before: Seq<CoreEvent>, after: Seq<CoreEvent>) -> bool {
    before.len() <= after.len() && after.subrange(0, before.len() as int) == before
}

proof fn lemma_extends_push(a: Seq<CoreEvent>, b: Seq<CoreEvent>, e: CoreEvent)
    requires
        extends(a, b),
    ensures
        extends(a, b.push(e)),
        extends(b, b.push(e)),
{
    assert(b.push(e).subrange(0, a.len() as int) =~= b.subrange(0, a.len() as int));
    assert(b.push(e).subrange(0, b.len() as int) =~= b);
}

proof fn lemma_extends_trans(a: Seq<CoreEvent>, b: Seq<CoreEvent>, c: Seq<CoreEvent>)
    requires
        extends(a, b),
        extends(b, c),
    ensures
        extends(a, c),
{
    assert(c.subrange(0, a.len() as int) =~= b.subrange(0, a.len() as int));
}

proof fn lemma_extends_refl(a: Seq<CoreEvent>)
    ensures
        extends(a, a),
{
    assert(a.subrange(0, a.len() as int) =~= a);
}

/// `after` is `before` followed by exactly `added`.
pub open spec fn appended(before: Seq<CoreEvent>, after: Seq<CoreEvent>, added: int) -> bool {
    after.len() == before.len() + added && after.subrange(0, before.len() as int) == before
}

/// Info text of a toggle write that succeeded.
pub open spec fn toggle_info(feature: Seq<char>, on: bool) -> Seq<char> {
    feature + if on { " on"@ } else { " off"@ }
}

impl<T: Transport> AppCore<T> {
    fn state_event(&self) -> (r: CoreEvent)
        ensures
            is_state(r, self.spec_snapshot()),
    {
        CoreEvent::StateChanged(self.snapshot.copy())
    }

    /// Explicit user disconnect: disarms the resident session (no background
    /// re-bootstrap after it), disconnects and resets the snapshot.
    pub fn user_disconnect(&mut self, events: &mut Vec<CoreEvent>)
        ensures
            final(self).spec_writes() == old(self).spec_writes(),
            !final(self).spec_supervising(),
            snapshot_is_default(final(self).spec_snapshot()),
            final(self).spec_opt_in() == old(self).spec_opt_in(),
            final(self).spec_known() == old(self).spec_known(),
            final(self).spec_discovered() == old(self).spec_discovered(),
            final(self).spec_ticks() == old(self).spec_ticks(),
            final(self).spec_last_rebootstrap_error() == old(self).spec_last_rebootstrap_error(),
            appended(old(events)@, final(events)@, 1),
            is_state(final(events)@.last(), final(self).spec_snapshot()),
            final(self).spec_links() == old(self).spec_links().push(LinkAction::Disconnect),
    {
        self.supervising = false;
        self.links = Ghost(self.links@.push(LinkAction::Disconnect));
        let _ = self.transport.disconnect();
        self.snapshot = DeviceSnapshot::default();
        let ev = self.state_event();
        events.push(ev);
        assert(events@.subrange(0, old(events)@.len() as int) =~= old(events)@);
    }

    fn cmd_scan(&mut self, events: &mut Vec<CoreEvent>)
        ensures
            final(self).spec_writes() == old(self).spec_writes(),
            final(self).spec_snapshot() == old(self).spec_snapshot(),
            final(self).spec_supervising() == old(self).spec_supervising(),
            final(self).spec_opt_in() == old(self).spec_opt_in(),
            final(self).spec_known() == old(self).spec_known(),
            final(self).spec_ticks() == old(self).spec_ticks(),
            final(self).spec_last_rebootstrap_error() == old(self).spec_last_rebootstrap_error(),
            appended(old(events)@, final(events)@, 1),
            final(events)@.last() matches CoreEvent::Discovered(list) ==> list@ == final(self).spec_discovered(),
            final(events)@.last() is Discovered || (final(self).spec_discovered() == old(self).spec_discovered() && exists|e: TransportError|
                is_error(final(events)@.last(), "scan failed: "@ + transport_error_text(e))),
            final(self).spec_links() == old(self).spec_links(),
    {
        match self.transport.scan() {
            Ok(list) => {
                self.last_discovered = copy_devices(&list);
                events.push(CoreEvent::Discovered(list));
            },
            Err(e) => {
                events.push(error_with("scan failed: ", &e));
            },
        }
        assert(events@.subrange(0, old(events)@.len() as int) =~= old(events)@);
    }
}


impl<T: Transport> AppCore<T> {
    /// User-initiated connect; a successful session becomes the resident
    /// session that the supervisor holds.
    fn cmd_connect(&mut self, address: String, events: &mut Vec<CoreEvent>)
        ensures
            final(self).spec_writes() == old(self).spec_writes(),
            final(self).spec_opt_in() == old(self).spec_opt_in(),
            final(self).spec_known() == old(self).spec_known(),
            final(self).spec_discovered() == old(self).spec_discovered(),
            final(self).spec_ticks() == old(self).spec_ticks(),
            final(self).spec_last_rebootstrap_error() == old(self).spec_last_rebootstrap_error(),
            final(events)@.len() > old(events)@.len(),
            extends(old(events)@, final(events)@),
            final(events)@.last() is StateChanged ==> final(self).spec_supervising()
                && final(self).spec_snapshot().connected && final(self).spec_snapshot().address@
                == address@ && is_state(final(events)@.last(), final(self).spec_snapshot()),
            !(final(events)@.last() is StateChanged) ==> final(self).spec_supervising() == old(self).spec_supervising() && final(self).spec_snapshot() == old(self).spec_snapshot()
                && exists|e: TransportError|
                is_error(final(events)@.last(), "connect failed: "@ + transport_error_text(e)),
            final(self).spec_links() == old(self).spec_links().push(LinkAction::Connect(address@)),
            final(events)@.last() is StateChanged ==> status_refreshed(
                old(self).spec_reads(),
                final(self).spec_reads(),
                old(self).spec_snapshot(),
                final(self).spec_snapshot(),
            ),
    {
        let ghost start = events@;
        match self.do_connect(address, events) {
            Ok(()) => {
                self.supervising = true;
                let ev = self.state_event();
                let ghost mid = events@;
                events.push(ev);
                proof {
                    lemma_extends_push(start, mid, ev);
                }
            },
            Err(msg) => {
                let ev = CoreEvent::Error(msg);
                events.push(ev);
                proof {
                    lemma_extends_refl(start);
                    lemma_extends_push(start, start, ev);
                }
            },
        }
    }

    /// Attach the first device already connected at the host level.
    fn cmd_attach(&mut self, events: &mut Vec<CoreEvent>)
        ensures
            final(self).spec_writes() == old(self).spec_writes(),
            old(self).spec_snapshot().connected ==> *final(self) == *old(self) && final(events)@
                == old(events)@,
            final(self).spec_opt_in() == old(self).spec_opt_in(),
            final(self).spec_known() == old(self).spec_known(),
            final(self).spec_ticks() == old(self).spec_ticks(),
            final(self).spec_last_rebootstrap_error() == old(self).spec_last_rebootstrap_error(),
            extends(old(events)@, final(events)@),
            final(self).spec_supervising() != old(self).spec_supervising() ==> final(self).spec_supervising() && final(self).spec_snapshot().connected,
            final(self).spec_links() == old(self).spec_links() || (final(self).spec_links().len() == old(self).spec_links().len() + 1
                && final(self).spec_links().drop_last() == old(self).spec_links() && final(self).spec_links().last() is Connect),
    {
        if self.snapshot.connected {
            proof {
                lemma_extends_refl(events@);
            }
            return;
        }
        let ghost start = events@;
        match self.transport.connected_devices() {
            Ok(list) => {
                if list.len() > 0 {
                    let address = list[0].address.clone();
                    self.last_discovered = copy_devices(&list);
                    let ev0 = CoreEvent::Discovered(list);
                    events.push(ev0);
                    proof {
                        lemma_extends_refl(start);
                        lemma_extends_push(start, start, ev0);
                    }
                    let ghost after_discovered = events@;
                    match self.do_connect(address, events) {
                        Ok(()) => {
                            self.supervising = true;
                            let ev = self.state_event();
                            let ghost mid = events@;
                            events.push(ev);
                            proof {
                                lemma_extends_trans(start, after_discovered, mid);
                                lemma_extends_push(start, mid, ev);
                            }
                        },
                        Err(msg) => {
                            let ev = CoreEvent::Error(msg);
                            let ghost mid = events@;
                            events.push(ev);
                            proof {
                                lemma_extends_push(start, mid, ev);
                            }
                        },
                    }
                } else {
                    proof {
                        lemma_extends_refl(start);
                    }
                }
            },
            Err(e) => {
                let ev = error_with("attach failed: ", &e);
                events.push(ev);
                proof {
                    lemma_extends_refl(start);
                    lemma_extends_push(start, start, ev);
                }
            },
        }
    }

    /// Explicit model attestation for the connected device. Refused unless the
    /// address matches the connected one (after normalization); the identity
    /// holding the session is what gets remembered.
    fn cmd_confirm(&mut self, address: String, events: &mut Vec<CoreEvent>)
        ensures
            final(self).spec_writes() == old(self).spec_writes(),
            !old(self).spec_snapshot().connected || normalized_address(
                old(self).spec_snapshot().address@,
            ) != normalized_address(address@) ==> *final(self) == *old(self) && appended(
                old(events)@,
                final(events)@,
                1,
            ) && is_error(final(events)@.last(), CONFIRM_REQUIRES_CONNECTION@),
            old(self).spec_snapshot().connected && normalized_address(
                old(self).spec_snapshot().address@,
            ) == normalized_address(address@) ==> {
                let persist = attest_identity(
                    opt_text(old(self).spec_snapshot().session_address),
                    address@,
                );
                &&& final(self).spec_snapshot().model_known
                &&& texts_contain(final(self).spec_known(), persist)
                &&& forall|k: int|
                    0 <= k < old(self).spec_known().len() ==> texts_contain(
                        final(self).spec_known(),
                        #[trigger] old(self).spec_known()[k],
                    )
                &&& appended(old(events)@, final(events)@, 2)
                &&& final(events)@[final(events)@.len() - 2] matches CoreEvent::ModelConfirmed {
                    address: a,
                } && a@ == persist
                &&& is_state(final(events)@.last(), final(self).spec_snapshot())
            },
            final(self).spec_supervising() == old(self).spec_supervising(),
            final(self).spec_opt_in() == old(self).spec_opt_in(),
            final(self).spec_discovered() == old(self).spec_discovered(),
            final(self).spec_ticks() == old(self).spec_ticks(),
            final(self).spec_last_rebootstrap_error() == old(self).spec_last_rebootstrap_error(),
            final(self).spec_links() == old(self).spec_links(),
    {
        let normalized = normalize_address(address.as_str());
        let current = normalize_address(self.snapshot.address.as_str());
        if !self.snapshot.connected || !chars_eq(
            chars_of(current.as_str()).as_slice(),
            chars_of(normalized.as_str()).as_slice(),
        ) {
            events.push(
                CoreEvent::Error(string_of(chars_of(CONFIRM_REQUIRES_CONNECTION).as_slice())),
            );
            assert(events@.subrange(0, old(events)@.len() as int) =~= old(events)@);
            return;
        }
        self.transport.attest_model_known();
        self.snapshot.model_known = true;
        let persist = match &self.snapshot.session_address {
            Some(a) => a.clone(),
            None => normalized,
        };
        let ghost before = self.known_devices@;
        if !contains_text(&self.known_devices, persist.as_str()) {
            self.known_devices.push(persist.clone());
            proof {
                assert(self.spec_known()[before.len() as int] == persist@);
                assert forall|k: int| 0 <= k < before.len() implies self.spec_known()[k]
                    == before.map_values(|t: String| t@)[k] by {}
            }
        }
        proof {
            assert forall|k: int|
                0 <= k < old(self).spec_known().len() implies texts_contain(
                self.spec_known(),
                #[trigger] old(self).spec_known()[k],
            ) by {
                assert(self.spec_known()[k] == old(self).spec_known()[k]);
            }
        }
        events.push(CoreEvent::ModelConfirmed { address: persist });
        let ev = self.state_event();
        events.push(ev);
        assert(events@.subrange(0, old(events)@.len() as int) =~= old(events)@);
    }
}


/// The frame a noise mode is written with: `AncSetting` with its scene.
pub open spec fn noise_frame(mode: SimpleNoise) -> Seq<u8> {
    small_frame(cmd_code(Cmd::AncSetting), seq![scene_of(mode).0, scene_of(mode).1, scene_of(mode).2])
}

/// The frame of a raw ANC scene.
pub open spec fn scene_frame(scene: AncScene) -> Seq<u8> {
    small_frame(cmd_code(Cmd::AncSetting), seq![scene.mode, scene.sub_scene, scene.noise_value])
}

/// The frame of an on/off toggle.
pub open spec fn toggle_frame(cmd: Cmd, on: bool) -> Seq<u8> {
    small_frame(cmd_code(cmd), seq![if on { 0x01u8 } else { 0x02u8 }])
}

/// The LED-flash frame of Find Earbuds.
pub open spec fn flash_frame() -> Seq<u8> {
    small_frame(cmd_code(Cmd::LightFlash), seq![0x01u8])
}

/// The chime frame of Find Earbuds.
pub open spec fn chime_frame(tone_id: u8) -> Seq<u8> {
    small_frame(cmd_code(Cmd::TonePlay), seq![tone_id])
}

/// The frames a confirmed Find Earbuds request writes when nothing fails: the
/// LED flash first, then the chime.
pub open spec fn find_frames(led: bool, chime: bool, tone_id: u8) -> Seq<Seq<u8>> {
    (if led {
        seq![flash_frame()]
    } else {
        Seq::empty()
    }) + (if chime {
        seq![chime_frame(tone_id)]
    } else {
        Seq::empty()
    })
}

/// What a confirmed Find Earbuds request hands to the transport: the planned
/// frames, or only the flash when the flash failed (which stops the chime).
pub open spec fn find_writes_ok(before: Seq<Seq<u8>>, after: Seq<Seq<u8>>, led: bool, chime: bool, tone_id: u8, failed_flash: bool) -> bool {
    ||| after == before + find_frames(led, chime, tone_id)
    ||| led && chime && failed_flash && after == before.push(flash_frame())
}

impl<T: Transport> AppCore<T> {
    /// Writes the hardware-validated `AncSetting` scene of a noise mode; on
    /// success the applied mode is recorded in the snapshot.
    fn cmd_set_noise(&mut self, mode: SimpleNoise, events: &mut Vec<CoreEvent>)
        ensures
            final(self).spec_writes() == old(self).spec_writes().push(noise_frame(mode)),
            final(self).same_bookkeeping(old(self)),
            final(events)@.len() > old(events)@.len(),
            extends(old(events)@, final(events)@),
            is_info(final(events)@[old(events)@.len() as int], "noise mode set to "@ + noise_name(mode))
                ==> final(self).spec_snapshot() == (DeviceSnapshot {
                noise: Some(mode),
                ..old(self).spec_snapshot()
            }) && appended(old(events)@, final(events)@, 2) && is_state(
                final(events)@.last(),
                final(self).spec_snapshot(),
            ),
            !is_info(final(events)@[old(events)@.len() as int], "noise mode set to "@ + noise_name(mode))
                ==> final(self).spec_snapshot() == old(self).spec_snapshot() && appended(
                old(events)@,
                final(events)@,
                1,
            ) && exists|e: TransportError| event_is(final(events)@.last(), #[trigger] write_failure_event(e)),
            noise_write_reported(old(self).spec_write_outcomes(), final(self).spec_write_outcomes(), old(events)@, final(events)@, mode),
    {
        let (m, sub, noise) = mode.scene();
        let params: [u8; 3] = [m, sub, noise];
        assert(params@ =~= seq![scene_of(mode).0, scene_of(mode).1, scene_of(mode).2]);
        match self.write_command(Cmd::AncSetting, params.as_slice()) {
            Ok(()) => {
                self.snapshot.noise = Some(mode);
                let mut text: Vec<char> = Vec::new();
                append_str(&mut text, "noise mode set to ");
                append_str(&mut text, mode.name());
                events.push(CoreEvent::Info(string_of(text.as_slice())));
                let ev = self.state_event();
                events.push(ev);
            },
            Err(ev) => {
                proof {
                    let e = choose|e: TransportError| event_is(ev, write_failure_event(e));
                    assert(!is_info(ev, "noise mode set to "@ + noise_name(mode)));
                }
                events.push(ev);
            },
        }
        assert(events@.subrange(0, old(events)@.len() as int) =~= old(events)@);
    }

    /// Writes a raw ANC scene.
    fn cmd_anc_scene(&mut self, scene: AncScene, events: &mut Vec<CoreEvent>)
        ensures
            final(self).spec_writes() == old(self).spec_writes().push(scene_frame(scene)),
            final(self).same_bookkeeping(old(self)),
            final(self).spec_snapshot() == old(self).spec_snapshot(),
            appended(old(events)@, final(events)@, 1),
            is_info(final(events)@.last(), "ANC scene applied"@) || exists|e: TransportError|
                event_is(final(events)@.last(), #[trigger] write_failure_event(e)),
            written_once(old(self).spec_write_outcomes(), final(self).spec_write_outcomes()),
            outcome_event(final(self).spec_write_outcomes().last(), final(events)@.last(), "ANC scene applied"@, None),
    {
        let params: [u8; 3] = [scene.mode, scene.sub_scene, scene.noise_value];
        assert(params@ =~= seq![scene.mode, scene.sub_scene, scene.noise_value]);
        match self.write_command(Cmd::AncSetting, params.as_slice()) {
            Ok(()) => {
                events.push(CoreEvent::Info(string_of(chars_of("ANC scene applied").as_slice())));
            },
            Err(ev) => {
                events.push(ev);
            },
        }
        assert(events@.subrange(0, old(events)@.len() as int) =~= old(events)@);
    }

    /// Writes an on/off toggle; a failure is tagged with the feature name.
    fn cmd_toggle(&mut self, cmd: Cmd, feature: &str, on: bool, events: &mut Vec<CoreEvent>)
        ensures
            final(self).spec_writes() == old(self).spec_writes().push(toggle_frame(cmd, on)),
            final(self).same_bookkeeping(old(self)),
            final(self).spec_snapshot() == old(self).spec_snapshot(),
            appended(old(events)@, final(events)@, 1),
            is_info(final(events)@.last(), toggle_info(feature@, on)) || exists|e: TransportError|
                tagged_event_is(final(events)@.last(), feature@, #[trigger] write_failure_event(e)),
            written_once(old(self).spec_write_outcomes(), final(self).spec_write_outcomes()),
            outcome_event(final(self).spec_write_outcomes().last(), final(events)@.last(), toggle_info(feature@, on), Some(feature@)),
    {
        let params: [u8; 1] = [enable_byte(on)];
        assert(params@ =~= seq![if on { 0x01u8 } else { 0x02u8 }]);
        match self.write_command(cmd, params.as_slice()) {
            Ok(()) => {
                let mut text: Vec<char> = Vec::new();
                append_str(&mut text, feature);
                if on {
                    append_str(&mut text, " on");
                } else {
                    append_str(&mut text, " off");
                }
                events.push(CoreEvent::Info(string_of(text.as_slice())));
            },
            Err(ev) => {
                let tagged = tag_failure(ev, feature);
                events.push(tagged);
            },
        }
        assert(events@.subrange(0, old(events)@.len() as int) =~= old(events)@);
    }

    /// Find Earbuds. Without the preflight confirmation nothing is written; the
    /// LED flash goes first and a failed flash stops the chime.
    fn cmd_find_chime(
        &mut self,
        led: bool,
        chime: bool,
        tone_id: u8,
        confirmed_not_worn: bool,
        events: &mut Vec<CoreEvent>,
    )
        ensures
            !confirmed_not_worn ==> *final(self) == *old(self) && appended(
                old(events)@,
                final(events)@,
                1,
            ) && is_denied(final(events)@.last(), PREFLIGHT_DENIAL@),
            confirmed_not_worn && !led && !chime ==> *final(self) == *old(self) && final(events)@
                == old(events)@,
            final(self).same_bookkeeping(old(self)),
            final(self).spec_snapshot() == old(self).spec_snapshot(),
            extends(old(events)@, final(events)@),
            final(events)@.len() <= old(events)@.len() + 1,
            confirmed_not_worn ==> find_writes_ok(
                old(self).spec_writes(),
                final(self).spec_writes(),
                led,
                chime,
                tone_id,
                appended(old(events)@, final(events)@, 1) && exists|e: TransportError|
                    event_is(final(events)@.last(), #[trigger] write_failure_event(e)),
            ),
            final(self).spec_links() == old(self).spec_links(),
    {
        if !confirmed_not_worn {
            events.push(CoreEvent::Denied(string_of(chars_of(PREFLIGHT_DENIAL).as_slice())));
            assert(events@.subrange(0, old(events)@.len() as int) =~= old(events)@);
            return;
        }
        if led {
            let params: [u8; 1] = [0x01];
            assert(params@ =~= seq![0x01u8]);
            match self.write_command(Cmd::LightFlash, params.as_slice()) {
                Ok(()) => {},
                Err(ev) => {
                    events.push(ev);
                    assert(events@.subrange(0, old(events)@.len() as int) =~= old(events)@);
                    proof {
                        if !chime {
                            assert(self.spec_writes() =~= old(self).spec_writes() + find_frames(led, chime, tone_id));
                        } else {
                            assert(events@ =~= old(events)@.push(ev));
                        }
                    }
                    return;
                },
            }
        }
        let ghost mid = self.spec_writes();
        if chime {
            let params: [u8; 1] = [tone_id];
            assert(params@ =~= seq![tone_id]);
            match self.write_command(Cmd::TonePlay, params.as_slice()) {
                Ok(()) => {
                    events.push(CoreEvent::Info(string_of(chars_of("chime sent").as_slice())));
                },
                Err(ev) => {
                    events.push(ev);
                },
            }
        }
        assert(self.spec_writes() =~= old(self).spec_writes() + find_frames(led, chime, tone_id));
        assert(events@.subrange(0, old(events)@.len() as int) =~= old(events)@);
    }

    /// Session-scoped experimental-write opt-in, passed on to the transport.
    fn cmd_opt_in(&mut self, on: bool, events: &mut Vec<CoreEvent>)
        ensures
            final(self).spec_writes() == old(self).spec_writes(),
            final(self).spec_opt_in() == on,
            final(self).spec_snapshot() == old(self).spec_snapshot(),
            final(self).spec_supervising() == old(self).spec_supervising(),
            final(self).spec_known() == old(self).spec_known(),
            final(self).spec_discovered() == old(self).spec_discovered(),
            final(self).spec_ticks() == old(self).spec_ticks(),
            final(self).spec_last_rebootstrap_error() == old(self).spec_last_rebootstrap_error(),
            appended(old(events)@, final(events)@, 1),
            is_info(
                final(events)@.last(),
                if on {
                    "experimental writes enabled for this session"@
                } else {
                    "experimental writes disabled"@
                },
            ),
            final(self).spec_links() == old(self).spec_links(),
    {
        self.experimental_opt_in = on;
        self.transport.set_experimental_opt_in(on);
        let text = if on {
            "experimental writes enabled for this session"
        } else {
            "experimental writes disabled"
        };
        events.push(CoreEvent::Info(string_of(chars_of(text).as_slice())));
        assert(events@.subrange(0, old(events)@.len() as int) =~= old(events)@);
    }
}


/// Every address of `before` is still in `after`.
pub open spec fn keeps_all(before: Seq<Seq<char>>, after: Seq<Seq<char>>) -> bool {
    forall|k: int| 0 <= k < before.len() ==> texts_contain(after, #[trigger] before[k])
}

proof fn lemma_keeps_all_refl(a: Seq<Seq<char>>)
    ensures
        keeps_all(a, a),
{
    assert forall|k: int| 0 <= k < a.len() implies texts_contain(a, #[trigger] a[k]) by {}
}

impl<T: Transport> AppCore<T> {
    /// Handles one typed command, appending the events it produces. Returns
    /// `false` exactly for `Shutdown`, which changes nothing.
    pub fn handle_command(&mut self, cmd: CoreCommand, events: &mut Vec<CoreEvent>) -> (r: bool)
        ensures
            r == !(cmd is Shutdown),
            extends(old(events)@, final(events)@),
            keeps_all(old(self).spec_known(), final(self).spec_known()),
            final(self).spec_ticks() == old(self).spec_ticks(),
            final(self).spec_last_rebootstrap_error() == old(self).spec_last_rebootstrap_error(),
            cmd is Shutdown ==> *final(self) == *old(self) && final(events)@ == old(events)@,
            !(cmd is SetExperimentalOptIn) ==> final(self).spec_opt_in() == old(self).spec_opt_in(),
            cmd matches CoreCommand::SetExperimentalOptIn(on) ==> final(self).spec_opt_in() == on,
            cmd matches CoreCommand::FindChime { confirmed_not_worn, .. } && !confirmed_not_worn
                ==> *final(self) == *old(self) && appended(old(events)@, final(events)@, 1)
                && is_denied(final(events)@.last(), PREFLIGHT_DENIAL@),
            cmd matches CoreCommand::ConfirmModel { address } && (!old(self).spec_snapshot().connected || normalized_address(old(self).spec_snapshot().address@)
                != normalized_address(address@)) ==> *final(self) == *old(self) && appended(
                old(events)@,
                final(events)@,
                1,
            ) && is_error(final(events)@.last(), CONFIRM_REQUIRES_CONNECTION@),
            cmd matches CoreCommand::ConfirmModel { address } ==> (old(self).spec_snapshot().connected
                && normalized_address(old(self).spec_snapshot().address@) == normalized_address(
                address@,
            ) ==> final(self).spec_snapshot().model_known && texts_contain(
                final(self).spec_known(),
                attest_identity(opt_text(old(self).spec_snapshot().session_address), address@),
            )),
            cmd is Disconnect ==> !final(self).spec_supervising() && snapshot_is_default(
                final(self).spec_snapshot(),
            ),
            cmd matches CoreCommand::Connect(address) ==> (final(events)@.last() is StateChanged
                ==> final(self).spec_supervising() && final(self).spec_snapshot().connected
                && final(self).spec_snapshot().address@ == address@),
            cmd matches CoreCommand::Connect(address) && !(final(events)@.last() is StateChanged)
                ==> final(self).spec_snapshot() == old(self).spec_snapshot()
                && final(self).spec_supervising() == old(self).spec_supervising(),
            cmd matches CoreCommand::SetNoise(mode) ==> (final(self).spec_snapshot().noise == Some(
                mode,
            ) || final(self).spec_snapshot() == old(self).spec_snapshot()),
            cmd is AttachConnected && old(self).spec_snapshot().connected ==> *final(self) == *old(self) && final(events)@ == old(events)@,
            cmd is SetAncScene || cmd is SetGameMode || cmd is SetSleepMode || cmd is SetInEarDetection
                || cmd is FindChime ==> final(self).spec_snapshot() == old(self).spec_snapshot(),
            !(cmd is Connect || cmd is AttachConnected || cmd is Disconnect) ==> final(self).spec_supervising() == old(self).spec_supervising(),
            !(cmd is SetNoise || cmd is SetAncScene || cmd is SetGameMode || cmd is SetSleepMode
                || cmd is SetInEarDetection || cmd is FindChime) ==> final(self).spec_writes() == old(self).spec_writes(),
            cmd matches CoreCommand::SetNoise(mode) ==> final(self).spec_writes() == old(self).spec_writes().push(noise_frame(mode)),
            cmd matches CoreCommand::SetNoise(mode) ==> (is_info(final(events)@[old(events)@.len() as int], "noise mode set to "@ + noise_name(mode))
                ==> final(self).spec_snapshot() == (DeviceSnapshot {
                noise: Some(mode),
                ..old(self).spec_snapshot()
            }) && appended(old(events)@, final(events)@, 2) && is_state(
                final(events)@.last(),
                final(self).spec_snapshot(),
            )),
            cmd matches CoreCommand::SetNoise(mode) ==> (!is_info(final(events)@[old(events)@.len() as int], "noise mode set to "@ + noise_name(mode))
                ==> final(self).spec_snapshot() == old(self).spec_snapshot() && appended(
                old(events)@,
                final(events)@,
                1,
            ) && exists|e: TransportError| event_is(final(events)@.last(), #[trigger] write_failure_event(e))),
            cmd is Disconnect ==> appended(old(events)@, final(events)@, 1) && is_state(final(events)@.last(), final(self).spec_snapshot()),
            cmd is Disconnect ==> final(self).spec_links() == old(self).spec_links().push(LinkAction::Disconnect),
            cmd is RefreshStatus && old(self).spec_snapshot().connected ==> status_refreshed(
                old(self).spec_reads(),
                final(self).spec_reads(),
                old(self).spec_snapshot(),
                final(self).spec_snapshot(),
            ),
            cmd is Connect && final(events)@.last() is StateChanged ==> status_refreshed(
                old(self).spec_reads(),
                final(self).spec_reads(),
                old(self).spec_snapshot(),
                final(self).spec_snapshot(),
            ),
            cmd matches CoreCommand::Connect(address) ==> final(self).spec_links() == old(self).spec_links().push(LinkAction::Connect(address@)),
            cmd is AttachConnected ==> final(self).spec_links() == old(self).spec_links() || (final(self).spec_links().len() == old(self).spec_links().len() + 1
                && final(self).spec_links().drop_last() == old(self).spec_links() && final(self).spec_links().last() is Connect),
            !(cmd is Connect || cmd is AttachConnected || cmd is Disconnect) ==> final(self).spec_links() == old(self).spec_links(),
            cmd is SetAncScene || cmd is SetGameMode || cmd is SetSleepMode || cmd is SetInEarDetection
                ==> appended(old(events)@, final(events)@, 1) && written_once(old(self).spec_write_outcomes(), final(self).spec_write_outcomes()),
            cmd is SetAncScene ==> outcome_event(final(self).spec_write_outcomes().last(), final(events)@.last(), "ANC scene applied"@, None),
            cmd matches CoreCommand::SetGameMode(on) ==> outcome_event(final(self).spec_write_outcomes().last(), final(events)@.last(), toggle_info("game mode"@, on), Some("game mode"@)),
            cmd matches CoreCommand::SetSleepMode(on) ==> outcome_event(final(self).spec_write_outcomes().last(), final(events)@.last(), toggle_info("sleep mode"@, on), Some("sleep mode"@)),
            cmd matches CoreCommand::SetInEarDetection(on) ==> outcome_event(final(self).spec_write_outcomes().last(), final(events)@.last(), toggle_info("in-ear detection"@, on), Some("in-ear detection"@)),
            cmd matches CoreCommand::SetNoise(mode) ==> noise_write_reported(
                old(self).spec_write_outcomes(),
                final(self).spec_write_outcomes(),
                old(events)@,
                final(events)@,
                mode,
            ),
            cmd matches CoreCommand::SetAncScene(scene) ==> final(self).spec_writes() == old(self).spec_writes().push(scene_frame(scene)),
            cmd matches CoreCommand::SetGameMode(on) ==> final(self).spec_writes() == old(self).spec_writes().push(toggle_frame(Cmd::LowLatency, on)),
            cmd matches CoreCommand::SetSleepMode(on) ==> final(self).spec_writes() == old(self).spec_writes().push(toggle_frame(Cmd::SleepMode, on)),
            cmd matches CoreCommand::SetInEarDetection(on) ==> final(self).spec_writes() == old(self).spec_writes().push(toggle_frame(Cmd::InEarDetection, on)),
            cmd matches CoreCommand::FindChime { led, chime, tone_id, confirmed_not_worn } ==> (confirmed_not_worn ==> find_writes_ok(
                old(self).spec_writes(),
                final(self).spec_writes(),
                led,
                chime,
                tone_id,
                appended(old(events)@, final(events)@, 1) && exists|e: TransportError|
                    event_is(final(events)@.last(), #[trigger] write_failure_event(e)),
            )),
    {
        proof {
            lemma_keeps_all_refl(self.spec_known());
        }
        match cmd {
            CoreCommand::Shutdown => {
                proof {
                    lemma_extends_refl(events@);
                }
                return false;
            },
            CoreCommand::Scan => self.cmd_scan(events),
            CoreCommand::Connect(address) => self.cmd_connect(address, events),
            CoreCommand::AttachConnected => self.cmd_attach(events),
            CoreCommand::ConfirmModel { address } => self.cmd_confirm(address, events),
            CoreCommand::Disconnect => {
                self.user_disconnect(events);
                proof {
                    lemma_extends_refl(old(events)@);
                    lemma_extends_push(old(events)@, old(events)@, events@.last());
                    assert(events@ =~= old(events)@.push(events@.last()));
                }
            },
            CoreCommand::RefreshStatus => {
                self.refresh_status(events);
                let ev = self.state_event();
                let ghost mid = events@;
                events.push(ev);
                proof {
                    lemma_extends_push(old(events)@, mid, ev);
                }
            },
            CoreCommand::SetNoise(mode) => self.cmd_set_noise(mode, events),
            CoreCommand::SetAncScene(scene) => self.cmd_anc_scene(scene, events),
            CoreCommand::SetGameMode(on) => self.cmd_toggle(Cmd::LowLatency, "game mode", on, events),
            CoreCommand::SetSleepMode(on) => self.cmd_toggle(Cmd::SleepMode, "sleep mode", on, events),
            CoreCommand::SetInEarDetection(on) => self.cmd_toggle(
                Cmd::InEarDetection,
                "in-ear detection",
                on,
                events,
            ),
            CoreCommand::FindChime { led, chime, tone_id, confirmed_not_worn } => self.cmd_find_chime(
                led,
                chime,
                tone_id,
                confirmed_not_worn,
                events,
            ),
            CoreCommand::SetExperimentalOptIn(on) => self.cmd_opt_in(on, events),
        }
        true
    }
}


/// The tick counter after one more tick (wrapping).
pub open spec fn next_tick(t: u32) -> u32 {
    if t == u32::MAX {
        0
    } else {
        (t + 1) as u32
    }
}

/// A period in ticks, at least one.
pub open spec fn period(n: u32) -> u32 {
    if n == 0 {
        1
    } else {
        n
    }
}

/// The link is checked on this tick (`t` is the new tick count).
pub open spec fn link_due(t: u32, cfg: SupervisorConfig) -> bool {
    t % period(cfg.link_check_every_ticks) == 0
}

/// The status is refreshed on this tick (`t` is the new tick count).
pub open spec fn refresh_due(t: u32, cfg: SupervisorConfig) -> bool {
    t % period(cfg.status_refresh_every_ticks) == 0
}

/// The events a link check appends for an answer of the transport.
pub open spec fn link_event_count(report: Result<bool, TransportError>) -> int {
    match report {
        Ok(true) => 0,
        Ok(false) => 2,
        Err(_) => 1,
    }
}

impl<T: Transport> AppCore<T> {
    /// One supervisor tick. While a supervised session is connected, the link is
    /// checked every `link_check_every_ticks` ticks (a lost link is reported and
    /// starts re-bootstrap mode) and the status is refreshed as keepalive every
    /// `status_refresh_every_ticks` ticks. A supervised lost session asks for a
    /// re-bootstrap attempt.
    pub fn tick(&mut self, cfg: &SupervisorConfig, events: &mut Vec<CoreEvent>) -> (r: TickOutcome)
        ensures
            final(self).spec_writes() == old(self).spec_writes(),
            final(self).spec_links() == old(self).spec_links(),
            final(self).spec_ticks() == next_tick(old(self).spec_ticks()),
            final(self).spec_supervising() == old(self).spec_supervising(),
            final(self).spec_opt_in() == old(self).spec_opt_in(),
            final(self).spec_known() == old(self).spec_known(),
            final(self).spec_discovered() == old(self).spec_discovered(),
            extends(old(events)@, final(events)@),
            !old(self).spec_supervising() ==> r == TickOutcome::Idle && final(events)@ == old(events)@ && final(self).spec_snapshot() == old(self).spec_snapshot(),
            old(self).spec_supervising() && !old(self).spec_snapshot().connected ==> r
                == TickOutcome::RebootstrapWanted && final(events)@ == old(events)@ && final(self).spec_snapshot() == old(self).spec_snapshot(),
            r == TickOutcome::LinkLost ==> old(self).spec_supervising() && old(self).spec_snapshot().connected && !final(self).spec_snapshot().connected
                && final(self).spec_snapshot().address == old(self).spec_snapshot().address
                && final(self).spec_last_rebootstrap_error() is None
                && (final(events)@[old(events)@.len() as int] matches CoreEvent::SessionLost {
                address: a,
            } && a@ == old(self).spec_snapshot().address@),
            r == TickOutcome::LinkLost ==> next_tick(old(self).spec_ticks()) % period(
                cfg.link_check_every_ticks,
            ) == 0,
            r != TickOutcome::LinkLost ==> final(self).spec_snapshot().connected == old(self).spec_snapshot().connected && final(self).spec_last_rebootstrap_error() == old(self).spec_last_rebootstrap_error(),
            !(old(self).spec_supervising() && old(self).spec_snapshot().connected) ==> final(self).spec_transport() == old(self).spec_transport()
                && final(self).spec_link_reports() == old(self).spec_link_reports(),
            old(self).spec_supervising() && old(self).spec_snapshot().connected && !link_due(next_tick(old(self).spec_ticks()), *cfg)
                ==> final(self).spec_link_reports() == old(self).spec_link_reports() && r == TickOutcome::Idle
                && final(events)@.len() == old(events)@.len() + (if refresh_due(next_tick(old(self).spec_ticks()), *cfg) { 1int } else { 0int }),
            old(self).spec_supervising() && old(self).spec_snapshot().connected && link_due(next_tick(old(self).spec_ticks()), *cfg)
                ==> ({
                let report = final(self).spec_link_reports().last();
                &&& final(self).spec_link_reports() == old(self).spec_link_reports().push(report)
                &&& final(events)@.len() == old(events)@.len() + link_event_count(report) + (if refresh_due(
                    next_tick(old(self).spec_ticks()),
                    *cfg,
                ) {
                    1int
                } else {
                    0int
                })
                &&& (report == Ok::<bool, TransportError>(false) <==> r == TickOutcome::LinkLost)
                &&& report == Ok::<bool, TransportError>(false) ==> (final(events)@[old(events)@.len() + 1int] matches CoreEvent::StateChanged(s)
                    && !s.connected && s.address == old(self).spec_snapshot().address)
                &&& report is Err ==> final(events)@[old(events)@.len() as int] is Error
            }),
            old(self).spec_supervising() && old(self).spec_snapshot().connected && refresh_due(next_tick(old(self).spec_ticks()), *cfg)
                ==> is_state(final(events)@.last(), final(self).spec_snapshot()),
    {
        self.tick_count = if self.tick_count == u32::MAX {
            0
        } else {
            self.tick_count + 1
        };
        if !self.supervising {
            proof {
                lemma_extends_refl(events@);
            }
            return TickOutcome::Idle;
        }
        if !self.snapshot.connected {
            proof {
                lemma_extends_refl(events@);
            }
            return TickOutcome::RebootstrapWanted;
        }
        let ghost start = events@;
        let ghost reports0 = self.link_reports@;
        let mut outcome = TickOutcome::Idle;
        let link_every: u32 = if cfg.link_check_every_ticks == 0 {
            1
        } else {
            cfg.link_check_every_ticks
        };
        assert(self.tick_count == next_tick(old(self).spec_ticks()));
        assert((self.tick_count % link_every == 0) == link_due(next_tick(old(self).spec_ticks()), *cfg));
        if self.tick_count % link_every == 0 {
            let report = self.transport.is_connected();
            self.link_reports = Ghost(self.link_reports@.push(report));
            match report {
                Ok(true) => {},
                Ok(false) => {
                    self.snapshot.connected = false;
                    let address = self.snapshot.address.clone();
                    events.push(CoreEvent::SessionLost { address });
                    let ev = self.state_event();
                    events.push(ev);
                    self.last_rebootstrap_error = None;
                    outcome = TickOutcome::LinkLost;
                },
                Err(e) => {
                    events.push(error_with("link state check failed: ", &e));
                },
            }
        }
        let ghost mid = events@;
        let ghost reports1 = self.link_reports@;
        assert(mid.subrange(0, start.len() as int) =~= start);
        assert(link_due(next_tick(old(self).spec_ticks()), *cfg) ==> reports1 == reports0.push(reports1.last())
            && mid.len() == start.len() + link_event_count(reports1.last()));
        assert(!link_due(next_tick(old(self).spec_ticks()), *cfg) ==> reports1 == reports0 && mid == start);
        let refresh_every: u32 = if cfg.status_refresh_every_ticks == 0 {
            1
        } else {
            cfg.status_refresh_every_ticks
        };
        assert((self.tick_count % refresh_every == 0) == refresh_due(next_tick(old(self).spec_ticks()), *cfg));
        if self.tick_count % refresh_every == 0 {
            self.keepalive_refresh();
            let ev = self.state_event();
            events.push(ev);
            proof {
                lemma_extends_push(start, mid, ev);
            }
        }
        outcome
    }

    /// One re-bootstrap attempt: reconnect the address of the lost session.
    /// The caller may run it while it keeps receiving commands.
    pub fn attempt_rebootstrap(&mut self, events: &mut Vec<CoreEvent>) -> (r: Result<(), String>)
        ensures
            final(self).spec_writes() == old(self).spec_writes(),
            final(self).same_settings(old(self)),
            final(self).spec_links() == old(self).spec_links().push(LinkAction::Connect(old(self).spec_snapshot().address@)),
            extends(old(events)@, final(events)@),
            r is Err ==> final(self).spec_snapshot() == old(self).spec_snapshot() && final(events)@
                == old(events)@,
            r is Ok ==> final(self).spec_snapshot().connected && final(self).spec_snapshot().address@ == old(self).spec_snapshot().address@,
    {
        let address = self.snapshot.address.clone();
        self.do_connect(address, events)
    }

    /// Reports the outcome of a re-bootstrap attempt for `address`: a restored
    /// session, or an error that is reported only when it differs from the last
    /// one, so a long out-of-range stretch does not flood the UI.
    pub fn finish_rebootstrap(
        &mut self,
        address: String,
        result: Result<(), String>,
        events: &mut Vec<CoreEvent>,
    )
        ensures
            final(self).spec_writes() == old(self).spec_writes(),
            final(self).spec_snapshot() == old(self).spec_snapshot(),
            final(self).spec_supervising() == old(self).spec_supervising(),
            final(self).spec_opt_in() == old(self).spec_opt_in(),
            final(self).spec_known() == old(self).spec_known(),
            final(self).spec_discovered() == old(self).spec_discovered(),
            final(self).spec_ticks() == old(self).spec_ticks(),
            result is Ok ==> final(self).spec_last_rebootstrap_error() is None && appended(
                old(events)@,
                final(events)@,
                2,
            ) && (final(events)@[old(events)@.len() as int] matches CoreEvent::SessionRestored {
                address: a,
            } && a@ == address@) && is_state(final(events)@.last(), final(self).spec_snapshot()),
            result matches Err(m) ==> final(self).spec_last_rebootstrap_error() == Some(m@),
            result matches Err(m) ==> (old(self).spec_last_rebootstrap_error() == Some(m@) ==> final(events)@ == old(events)@),
            result matches Err(m) ==> (old(self).spec_last_rebootstrap_error() != Some(m@) ==> appended(
                old(events)@,
                final(events)@,
                1,
            ) && is_error(final(events)@.last(), "re-bootstrap: "@ + m@)),
    {
        match result {
            Ok(()) => {
                self.last_rebootstrap_error = None;
                events.push(CoreEvent::SessionRestored { address });
                let ev = self.state_event();
                events.push(ev);
            },
            Err(msg) => {
                let repeated = match &self.last_rebootstrap_error {
                    Some(last) => chars_eq(
                        chars_of(last.as_str()).as_slice(),
                        chars_of(msg.as_str()).as_slice(),
                    ),
                    None => false,
                };
                if !repeated {
                    let text = prefixed("re-bootstrap: ", msg.as_str());
                    self.last_rebootstrap_error = Some(msg);
                    events.push(CoreEvent::Error(text));
                }
            },
        }
        assert(events@.subrange(0, old(events)@.len() as int) =~= old(events)@);
    }
}

} // verus!
