//! Host-side services: structured host errors, media state and the codec /
//! sample-rate / profile facts of the host audio path.
//!
//! None of this is ever written to the earbuds. Codec facts live in the host
//! Bluetooth stack: each A2DP stream is a BlueZ `MediaTransport1` object with a
//! profile UUID, an A2DP codec number and a codec configuration blob. The pure
//! functions here interpret those facts; a field that cannot be sourced stays
//! unknown, never guessed.

use vstd::prelude::*;

use crate::text::{
    append_str, chars_eq, chars_of, has_prefix, spec_to_lowercase, starts_with_chars, string_of,
    to_lowercase,
};

verus! {

/// Structured host-service errors. Missing services are a normal state on a host
/// without the relevant daemon.
#[derive(Debug, Clone, PartialEq, Eq)]
pub enum HostError {
    /// The required service (session bus, player, audio graph) is not present.
    ServiceUnavailable(String),
    /// The requested player/target was not found.
    NotFound(String),
    /// The operation is not supported by the backend or this build.
    Unsupported(String),
    /// A backend call failed in a way that does not map to a more specific variant.
    Backend(String),
}

/// Human-readable text of a host error.
pub open spec fn host_error_text(e: HostError) -> Seq<char> {
    match e {
        HostError::ServiceUnavailable(what) => "service unavailable: "@ + what@,
        HostError::NotFound(what) => "not found: "@ + what@,
        HostError::Unsupported(what) => "unsupported: "@ + what@,
        HostError::Backend(msg) => "host backend error: "@ + msg@,
    }
}

impl HostError {
    /// The error's human-readable text.
    pub fn message(&self) -> (r: String)
        ensures
            r@ == host_error_text(*self),
    {
        let mut out: Vec<char> = Vec::new();
        match self {
            HostError::ServiceUnavailable(what) => {
                append_str(&mut out, "service unavailable: ");
                append_str(&mut out, what.as_str());
            },
            HostError::NotFound(what) => {
                append_str(&mut out, "not found: ");
                append_str(&mut out, what.as_str());
            },
            HostError::Unsupported(what) => {
                append_str(&mut out, "unsupported: ");
                append_str(&mut out, what.as_str());
            },
            HostError::Backend(msg) => {
                append_str(&mut out, "host backend error: ");
                append_str(&mut out, msg.as_str());
            },
        }
        string_of(out.as_slice())
    }
}

/// A media control action; each maps to one `org.mpris.MediaPlayer2.Player` method.
#[derive(Debug, Clone, Copy, PartialEq, Eq, Structural)]
pub enum MediaAction {
    Play,
    Pause,
    Next,
    Previous,
}

impl MediaAction {
    /// The player method name of the action.
    pub fn method(self) -> (r: &'static str)
        ensures
            r@ == match self {
                MediaAction::Play => "Play"@,
                MediaAction::Pause => "Pause"@,
                MediaAction::Next => "Next"@,
                MediaAction::Previous => "Previous"@,
            },
    {
        match self {
            MediaAction::Play => "Play",
            MediaAction::Pause => "Pause",
            MediaAction::Next => "Next",
            MediaAction::Previous => "Previous",
        }
    }
}

/// Normalized media state for a UI/CLI.
#[derive(Debug, Clone, PartialEq, Eq)]
pub struct MediaStatus {
    pub playing: bool,
    pub title: String,
    pub artist: String,
    pub player: String,
    /// 0-100; `None` when the player does not expose a volume.
    pub volume: Option<u8>,
}

impl Default for MediaStatus {
    /// No media: not playing, empty texts, no volume.
    fn default() -> (r: Self)
        ensures
            !r.playing,
            r.title@ == Seq::<char>::empty(),
            r.artist@ == Seq::<char>::empty(),
            r.player@ == Seq::<char>::empty(),
            r.volume is None,
    {
        MediaStatus {
            playing: false,
            title: String::new(),
            artist: String::new(),
            player: String::new(),
            volume: None,
        }
    }
}

/// What is known about the active host audio path; `None` means unknown.
#[derive(Debug, Clone, PartialEq, Eq)]
pub struct CodecInfo {
    /// Active codec name (e.g. "sbc", "aac", "aptx", "ldac"), if known.
    pub codec: Option<String>,
    /// Active sample rate in Hz, if known.
    pub sample_rate_hz: Option<u32>,
    /// Audio profile (e.g. "a2dp-sink"), if known.
    pub profile: Option<String>,
}

impl Default for CodecInfo {
    fn default() -> (r: Self)
        ensures
            r.codec is None && r.sample_rate_hz is None && r.profile is None,
    {
        CodecInfo { codec: None, sample_rate_hz: None, profile: None }
    }
}

impl CodecInfo {
    /// Fully unknown — the safe default when no reliable source is available.
    pub fn unknown() -> (r: Self)
        ensures
            r.codec is None && r.sample_rate_hz is None && r.profile is None,
    {
        CodecInfo { codec: None, sample_rate_hz: None, profile: None }
    }

    /// True when nothing is known; the UI renders "--" rather than a value.
    pub fn is_unknown(&self) -> (r: bool)
        ensures
            r == (self.codec is None && self.sample_rate_hz is None && self.profile is None),
    {
        self.codec.is_none() && self.sample_rate_hz.is_none() && self.profile.is_none()
    }
}

/// A source of codec state. Implementations report unknown rather than an error
/// when a field is simply not exposed, and never fabricate a value.
pub trait CodecSource {
    fn read(&self) -> Result<CodecInfo, HostError>;
}

/// A codec source that always reports unknown.
#[derive(Default)]
pub struct UnknownCodecSource;

impl CodecSource for UnknownCodecSource {
    fn read(&self) -> (r: Result<CodecInfo, HostError>)
        ensures
            r matches Ok(c) && c.codec is None && c.sample_rate_hz is None && c.profile is None,
    {
        Ok(CodecInfo::unknown())
    }
}

/// A fixed codec source, for tests and callers that sourced the values elsewhere.
pub struct StaticCodecSource(pub CodecInfo);

impl CodecSource for StaticCodecSource {
    fn read(&self) -> (r: Result<CodecInfo, HostError>)
        ensures
            r == Ok::<CodecInfo, HostError>(self.0),
    {
        Ok(
            CodecInfo {
                codec: match &self.0.codec {
                    Some(c) => Some(c.clone()),
                    None => None,
                },
                sample_rate_hz: self.0.sample_rate_hz,
                profile: match &self.0.profile {
                    Some(p) => Some(p.clone()),
                    None => None,
                },
            },
        )
    }
}

/// A2DP codec assigned numbers.
pub const A2DP_CODEC_SBC: u8 = 0x00;
pub const A2DP_CODEC_MPEG12: u8 = 0x01;
pub const A2DP_CODEC_MPEG24_AAC: u8 = 0x02;
pub const A2DP_CODEC_ATRAC: u8 = 0x04;
pub const A2DP_CODEC_VENDOR: u8 = 0xFF;

/// Vendor IDs.
pub const VENDOR_APTX: u32 = 0x0000004f;
pub const VENDOR_FASTSTREAM: u32 = 0x0000000a;
pub const VENDOR_APTX_HD: u32 = 0x000000d7;
pub const VENDOR_LDAC: u32 = 0x0000012d;
pub const VENDOR_OPUS_G: u32 = 0x000000e0;

/// Codec IDs within vendor space.
pub const CODEC_ID_APTX: u16 = 0x0001;
pub const CODEC_ID_FASTSTREAM: u16 = 0x0001;
pub const CODEC_ID_APTX_LL: u16 = 0x0002;
pub const CODEC_ID_APTX_HD: u16 = 0x0024;
pub const CODEC_ID_LDAC: u16 = 0x00aa;
pub const CODEC_ID_OPUS_G: u16 = 0x0001;

/// Raw facts of one A2DP transport, exactly as the stack exposes them.
#[derive(Debug, Clone, PartialEq, Eq)]
pub struct A2dpTransport {
    /// Profile UUID of the transport.
    pub uuid: String,
    /// A2DP codec assigned number.
    pub codec: u8,
    /// Codec-specific configuration blob.
    pub configuration: Vec<u8>,
    /// Transport state: `idle`, `pending`, `broadcasting` or `active`.
    pub state: String,
}

/// A source of A2DP transport facts.
pub trait CodecBus {
    fn a2dp_transports(&self) -> Result<Vec<A2dpTransport>, HostError>;
}

/// The index of the transport that best represents what the user hears: the
/// first `active` one, else the first `pending` one, else the first one.
pub open spec fn selected_index(ts: Seq<A2dpTransport>) -> Option<int> {
    if exists|i: int| 0 <= i < ts.len() && ts[i].state@ == "active"@ {
        Some(choose|i: int| 0 <= i < ts.len() && ts[i].state@ == "active"@ && forall|j: int| 0 <= j < i ==> ts[j].state@ != "active"@)
    } else if exists|i: int| 0 <= i < ts.len() && ts[i].state@ == "pending"@ {
        Some(choose|i: int| 0 <= i < ts.len() && ts[i].state@ == "pending"@ && forall|j: int| 0 <= j < i ==> ts[j].state@ != "pending"@)
    } else if ts.len() > 0 {
        Some(0)
    } else {
        None
    }
}

fn first_with_state(transports: &[A2dpTransport], state: &str) -> (r: Option<usize>)
    ensures
        match r {
            Some(i) => i < transports@.len() && transports@[i as int].state@ == state@ && forall|j: int|
                0 <= j < i ==> transports@[j].state@ != state@,
            None => forall|j: int| 0 <= j < transports@.len() ==> transports@[j].state@ != state@,
        },
{
    let want = chars_of(state);
    let mut i: usize = 0;
    while i < transports.len()
        invariant
            i <= transports@.len(),
            want@ == state@,
            forall|j: int| 0 <= j < i ==> transports@[j].state@ != state@,
        decreases transports@.len() - i,
    {
        if chars_eq(chars_of(transports[i].state.as_str()).as_slice(), want.as_slice()) {
            return Some(i);
        }
        i = i + 1;
    }
    None
}

proof fn lemma_first_unique(ts: Seq<A2dpTransport>, s: Seq<char>, a: int, b: int)
    requires
        0 <= a < ts.len(),
        0 <= b < ts.len(),
        ts[a].state@ == s,
        ts[b].state@ == s,
        forall|j: int| 0 <= j < a ==> ts[j].state@ != s,
        forall|j: int| 0 <= j < b ==> ts[j].state@ != s,
    ensures
        a == b,
{
    if a < b {
        assert(ts[a].state@ != s);
    } else if b < a {
        assert(ts[b].state@ != s);
    }
}

/// Pick the transport that best represents what the user is hearing right now:
/// an actively streaming transport wins, then a pending one, then any transport.
pub fn select_transport(transports: &[A2dpTransport]) -> (r: Option<&A2dpTransport>)
    ensures
        match selected_index(transports@) {
            Some(i) => r == Some(&transports@[i]),
            None => r is None,
        },
{
    match first_with_state(transports, "active") {
        Some(i) => {
            proof {
                let k = choose|k: int| 0 <= k < transports@.len() && transports@[k].state@ == "active"@ && forall|j: int| 0 <= j < k ==> transports@[j].state@ != "active"@;
                lemma_first_unique(transports@, "active"@, i as int, k);
            }
            return Some(&transports[i]);
        },
        None => {},
    }
    match first_with_state(transports, "pending") {
        Some(i) => {
            proof {
                let k = choose|k: int| 0 <= k < transports@.len() && transports@[k].state@ == "pending"@ && forall|j: int| 0 <= j < k ==> transports@[j].state@ != "pending"@;
                lemma_first_unique(transports@, "pending"@, i as int, k);
            }
            return Some(&transports[i]);
        },
        None => {},
    }
    if transports.len() > 0 {
        Some(&transports[0])
    } else {
        None
    }
}

/// The little-endian vendor ID and codec ID at the head of a vendor codec
/// configuration blob; `None` below six bytes.
pub open spec fn spec_vendor_ids(c: Seq<u8>) -> Option<(u32, u16)> {
    if c.len() < 6 {
        None
    } else {
        Some(
            (
                (c[0] as int + 256 * c[1] as int + 65536 * c[2] as int + 16777216 * c[3] as int) as u32,
                (c[4] as int + 256 * c[5] as int) as u16,
            ),
        )
    }
}

/// Parse the 4-byte little-endian vendor ID and 2-byte little-endian codec ID from
/// the head of a vendor codec configuration blob.
pub fn vendor_ids(configuration: &[u8]) -> (r: Option<(u32, u16)>)
    ensures
        r == spec_vendor_ids(configuration@),
{
    if configuration.len() < 6 {
        return None;
    }
    let vendor: u32 = configuration[0] as u32 + 256 * (configuration[1] as u32) + 65536 * (
    configuration[2] as u32) + 16777216 * (configuration[3] as u32);
    let codec: u16 = configuration[4] as u16 + 256 * (configuration[5] as u16);
    Some((vendor, codec))
}

/// The codec name of a transport; `None` means unknown.
pub open spec fn spec_codec_name(codec: u8, configuration: Seq<u8>) -> Option<Seq<char>> {
    if codec == A2DP_CODEC_SBC {
        Some("sbc"@)
    } else if codec == A2DP_CODEC_MPEG12 {
        Some("mpeg-1,2-audio"@)
    } else if codec == A2DP_CODEC_MPEG24_AAC {
        Some("aac"@)
    } else if codec == A2DP_CODEC_ATRAC {
        Some("atrac"@)
    } else if codec == A2DP_CODEC_VENDOR {
        match spec_vendor_ids(configuration) {
            Some((v, c)) => if v == VENDOR_APTX && c == CODEC_ID_APTX {
                Some("aptx"@)
            } else if v == VENDOR_FASTSTREAM && c == CODEC_ID_FASTSTREAM {
                Some("faststream"@)
            } else if v == VENDOR_FASTSTREAM && c == CODEC_ID_APTX_LL {
                Some("aptx-ll"@)
            } else if v == VENDOR_APTX_HD && c == CODEC_ID_APTX_HD {
                Some("aptx-hd"@)
            } else if v == VENDOR_LDAC && c == CODEC_ID_LDAC {
                Some("ldac"@)
            } else if v == VENDOR_OPUS_G && c == CODEC_ID_OPUS_G {
                Some("opus-g"@)
            } else {
                None
            },
            None => None,
        }
    } else {
        None
    }
}

fn some_text(s: &str) -> (r: Option<String>)
    ensures
        r matches Some(t) && t@ == s@,
{
    Some(string_of(chars_of(s).as_slice()))
}

/// Human-readable codec name for a transport. `None` means unknown — never guessed.
pub fn codec_name(transport: &A2dpTransport) -> (r: Option<String>)
    ensures
        match spec_codec_name(transport.codec, transport.configuration@) {
            Some(n) => r matches Some(t) && t@ == n,
            None => r is None,
        },
{
    let codec = transport.codec;
    if codec == A2DP_CODEC_SBC {
        some_text("sbc")
    } else if codec == A2DP_CODEC_MPEG12 {
        some_text("mpeg-1,2-audio")
    } else if codec == A2DP_CODEC_MPEG24_AAC {
        some_text("aac")
    } else if codec == A2DP_CODEC_ATRAC {
        some_text("atrac")
    } else if codec == A2DP_CODEC_VENDOR {
        match vendor_ids(transport.configuration.as_slice()) {
            Some((v, c)) => if v == VENDOR_APTX && c == CODEC_ID_APTX {
                some_text("aptx")
            } else if v == VENDOR_FASTSTREAM && c == CODEC_ID_FASTSTREAM {
                some_text("faststream")
            } else if v == VENDOR_FASTSTREAM && c == CODEC_ID_APTX_LL {
                some_text("aptx-ll")
            } else if v == VENDOR_APTX_HD && c == CODEC_ID_APTX_HD {
                some_text("aptx-hd")
            } else if v == VENDOR_LDAC && c == CODEC_ID_LDAC {
                some_text("ldac")
            } else if v == VENDOR_OPUS_G && c == CODEC_ID_OPUS_G {
                some_text("opus-g")
            } else {
                None
            },
            None => None,
        }
    } else {
        None
    }
}

/// SBC sampling-frequency bit (octet 0, low nibble) to Hz.
pub open spec fn sbc_rate(freq: u8) -> Option<u32> {
    if freq == 0x01 {
        Some(48000)
    } else if freq == 0x02 {
        Some(44100)
    } else if freq == 0x04 {
        Some(32000)
    } else if freq == 0x08 {
        Some(16000)
    } else {
        None
    }
}

/// MPEG-1,2 sampling-frequency bit (octet 1, low six bits) to Hz.
pub open spec fn mpeg_rate(freq: u8) -> Option<u32> {
    if freq == 0x01 {
        Some(48000)
    } else if freq == 0x02 {
        Some(44100)
    } else if freq == 0x04 {
        Some(32000)
    } else if freq == 0x08 {
        Some(24000)
    } else if freq == 0x10 {
        Some(22050)
    } else if freq == 0x20 {
        Some(16000)
    } else {
        None
    }
}

/// AAC 12-bit sampling-frequency field to Hz.
pub open spec fn aac_rate(freq: u16) -> Option<u32> {
    if freq == 0x0008 {
        Some(48000)
    } else if freq == 0x0010 {
        Some(44100)
    } else if freq == 0x0020 {
        Some(32000)
    } else if freq == 0x0040 {
        Some(24000)
    } else if freq == 0x0080 {
        Some(22050)
    } else if freq == 0x0100 {
        Some(16000)
    } else if freq == 0x0200 {
        Some(12000)
    } else if freq == 0x0400 {
        Some(11025)
    } else if freq == 0x0800 {
        Some(8000)
    } else if freq == 0x0004 {
        Some(64000)
    } else if freq == 0x0002 {
        Some(88200)
    } else if freq == 0x0001 {
        Some(96000)
    } else {
        None
    }
}

/// LDAC frequency byte to Hz.
pub open spec fn ldac_rate(freq: u8) -> Option<u32> {
    if freq == 0x10 {
        Some(48000)
    } else if freq == 0x20 {
        Some(44100)
    } else if freq == 0x08 {
        Some(88200)
    } else if freq == 0x04 {
        Some(96000)
    } else if freq == 0x02 {
        Some(176400)
    } else if freq == 0x01 {
        Some(192000)
    } else {
        None
    }
}

/// The AAC frequency field: octet 1 shifted up four bits, joined with the high
/// nibble of octet 2.
pub open spec fn aac_freq_field(b1: u8, b2: u8) -> u16 {
    ((b1 as u16) << 4u16) | ((b2 >> 4u8) as u16)
}

/// The sample rate a codec configuration selects, when its layout is known.
pub open spec fn spec_sample_rate(codec: u8, cfg: Seq<u8>) -> Option<u32> {
    if codec == A2DP_CODEC_SBC {
        if cfg.len() >= 1 {
            sbc_rate(cfg[0] & 0x0F)
        } else {
            None
        }
    } else if codec == A2DP_CODEC_MPEG12 {
        if cfg.len() >= 2 {
            mpeg_rate(cfg[1] & 0x3F)
        } else {
            None
        }
    } else if codec == A2DP_CODEC_MPEG24_AAC {
        if cfg.len() >= 3 {
            aac_rate(aac_freq_field(cfg[1], cfg[2]))
        } else {
            None
        }
    } else if codec == A2DP_CODEC_VENDOR {
        match spec_vendor_ids(cfg) {
            Some((v, c)) => if v == VENDOR_LDAC && c == CODEC_ID_LDAC && cfg.len() >= 7 {
                ldac_rate(cfg[6])
            } else {
                None
            },
            None => None,
        }
    } else {
        None
    }
}

fn sbc_rate_exec(freq: u8) -> (r: Option<u32>)
    ensures
        r == sbc_rate(freq),
{
    match freq {
        0x01 => Some(48000),
        0x02 => Some(44100),
        0x04 => Some(32000),
        0x08 => Some(16000),
        _ => None,
    }
}

fn mpeg_rate_exec(freq: u8) -> (r: Option<u32>)
    ensures
        r == mpeg_rate(freq),
{
    match freq {
        0x01 => Some(48000),
        0x02 => Some(44100),
        0x04 => Some(32000),
        0x08 => Some(24000),
        0x10 => Some(22050),
        0x20 => Some(16000),
        _ => None,
    }
}

fn aac_rate_exec(freq: u16) -> (r: Option<u32>)
    ensures
        r == aac_rate(freq),
{
    match freq {
        0x0008 => Some(48000),
        0x0010 => Some(44100),
        0x0020 => Some(32000),
        0x0040 => Some(24000),
        0x0080 => Some(22050),
        0x0100 => Some(16000),
        0x0200 => Some(12000),
        0x0400 => Some(11025),
        0x0800 => Some(8000),
        0x0004 => Some(64000),
        0x0002 => Some(88200),
        0x0001 => Some(96000),
        _ => None,
    }
}

fn ldac_rate_exec(freq: u8) -> (r: Option<u32>)
    ensures
        r == ldac_rate(freq),
{
    match freq {
        0x10 => Some(48000),
        0x20 => Some(44100),
        0x08 => Some(88200),
        0x04 => Some(96000),
        0x02 => Some(176400),
        0x01 => Some(192000),
        _ => None,
    }
}

/// Sample rate in Hz parsed from the codec configuration blob, when the layout is
/// known (SBC/MPEG frequency bitmaps, AAC 12-bit frequency, LDAC frequency byte).
pub fn sample_rate_hz(transport: &A2dpTransport) -> (r: Option<u32>)
    ensures
        r == spec_sample_rate(transport.codec, transport.configuration@),
{
    let cfg = transport.configuration.as_slice();
    let codec = transport.codec;
    if codec == A2DP_CODEC_SBC {
        if cfg.len() >= 1 {
            sbc_rate_exec(cfg[0] & 0x0F)
        } else {
            None
        }
    } else if codec == A2DP_CODEC_MPEG12 {
        if cfg.len() >= 2 {
            mpeg_rate_exec(cfg[1] & 0x3F)
        } else {
            None
        }
    } else if codec == A2DP_CODEC_MPEG24_AAC {
        if cfg.len() >= 3 {
            let freq: u16 = ((cfg[1] as u16) << 4u16) | ((cfg[2] >> 4u8) as u16);
            aac_rate_exec(freq)
        } else {
            None
        }
    } else if codec == A2DP_CODEC_VENDOR {
        match vendor_ids(cfg) {
            Some((v, c)) => if v == VENDOR_LDAC && c == CODEC_ID_LDAC && cfg.len() >= 7 {
                ldac_rate_exec(cfg[6])
            } else {
                None
            },
            None => None,
        }
    } else {
        None
    }
}

/// The audio profile named by a (Unicode-lowercased) profile UUID prefix.
pub open spec fn spec_profile(uuid: Seq<char>) -> Option<Seq<char>> {
    let lower = spec_to_lowercase(uuid);
    if has_prefix(lower, "0000110a-"@) {
        Some("a2dp-source"@)
    } else if has_prefix(lower, "0000110b-"@) {
        Some("a2dp-sink"@)
    } else if has_prefix(lower, "00001108-"@) {
        Some("headset-hs"@)
    } else if has_prefix(lower, "0000111e-"@) {
        Some("handsfree-hf"@)
    } else {
        None
    }
}

/// Audio profile name from the transport's profile UUID. Only well-known
/// A2DP/HFP/HSP UUIDs are named; anything else stays unknown.
pub fn profile_from_uuid(uuid: &str) -> (r: Option<String>)
    ensures
        match spec_profile(uuid@) {
            Some(p) => r matches Some(t) && t@ == p,
            None => r is None,
        },
{
    let lower = to_lowercase(uuid);
    let l = chars_of(lower.as_str());
    if starts_with_chars(l.as_slice(), chars_of("0000110a-").as_slice()) {
        some_text("a2dp-source")
    } else if starts_with_chars(l.as_slice(), chars_of("0000110b-").as_slice()) {
        some_text("a2dp-sink")
    } else if starts_with_chars(l.as_slice(), chars_of("00001108-").as_slice()) {
        some_text("headset-hs")
    } else if starts_with_chars(l.as_slice(), chars_of("0000111e-").as_slice()) {
        some_text("handsfree-hf")
    } else {
        None
    }
}

/// The codec facts reported for a selected transport.
pub open spec fn reported_for(c: CodecInfo, t: A2dpTransport) -> bool {
    &&& match spec_codec_name(t.codec, t.configuration@) {
        Some(n) => c.codec matches Some(x) && x@ == n,
        None => c.codec is None,
    }
    &&& c.sample_rate_hz == spec_sample_rate(t.codec, t.configuration@)
    &&& match spec_profile(t.uuid@) {
        Some(p) => c.profile matches Some(x) && x@ == p,
        None => c.profile is None,
    }
}

/// Interprets a list of A2DP transports: the facts of the selected transport,
/// or fully unknown when there is none.
pub fn codec_info_of(transports: &[A2dpTransport]) -> (r: CodecInfo)
    ensures
        match selected_index(transports@) {
            Some(i) => reported_for(r, transports@[i]),
            None => r.codec is None && r.sample_rate_hz is None && r.profile is None,
        },
{
    match select_transport(transports) {
        Some(t) => CodecInfo {
            codec: codec_name(t),
            sample_rate_hz: sample_rate_hz(t),
            profile: profile_from_uuid(t.uuid.as_str()),
        },
        None => CodecInfo::unknown(),
    }
}

/// Codec source backed by BlueZ `MediaTransport1` objects.
pub struct BluezCodecSource<B: CodecBus> {
    bus: B,
}

impl<B: CodecBus> BluezCodecSource<B> {
    /// The bus the source reads.
    pub closed spec fn spec_bus(&self) -> B {
        self.bus
    }

    pub fn new(bus: B) -> (r: Self)
        ensures
            r.spec_bus() == bus,
    {
        BluezCodecSource { bus }
    }
}

impl<B: CodecBus> CodecSource for BluezCodecSource<B> {
    /// Bus errors pass through; otherwise the facts of the selected transport, or
    /// unknown when no A2DP transport is present (not an error).
    fn read(&self) -> (r: Result<CodecInfo, HostError>)
        ensures
            r matches Ok(c) ==> (c.codec is None && c.sample_rate_hz is None && c.profile is None)
                || exists|t: A2dpTransport| reported_for(c, t),
    {
        let transports = self.bus.a2dp_transports()?;
        let info = codec_info_of(transports.as_slice());
        proof {
            match selected_index(transports@) {
                Some(i) => {
                    assert(reported_for(info, transports@[i]));
                },
                None => {},
            }
        }
        Ok(info)
    }
}

/// The sample rate of any LDAC configuration follows the LDAC frequency bits
/// of BlueZ's `a2dp-codecs.h`: `0x20` is 44.1 kHz, `0x10` 48 kHz, `0x08`
/// 88.2 kHz, `0x04` 96 kHz, `0x02` 176.4 kHz and `0x01` 192 kHz; any other
/// byte gives no rate. The rest of the configuration plays no part.
pub proof fn lemma_ldac_sample_rates(cfg: Seq<u8>)
    requires
        cfg.len() >= 7,
        cfg[0] == 0x2d && cfg[1] == 0x01 && cfg[2] == 0 && cfg[3] == 0,
        cfg[4] == 0xaa && cfg[5] == 0,
    ensures
        cfg[6] == 0x20 ==> spec_sample_rate(A2DP_CODEC_VENDOR, cfg) == Some(44100u32),
        cfg[6] == 0x10 ==> spec_sample_rate(A2DP_CODEC_VENDOR, cfg) == Some(48000u32),
        cfg[6] == 0x08 ==> spec_sample_rate(A2DP_CODEC_VENDOR, cfg) == Some(88200u32),
        cfg[6] == 0x04 ==> spec_sample_rate(A2DP_CODEC_VENDOR, cfg) == Some(96000u32),
        cfg[6] == 0x02 ==> spec_sample_rate(A2DP_CODEC_VENDOR, cfg) == Some(176400u32),
        cfg[6] == 0x01 ==> spec_sample_rate(A2DP_CODEC_VENDOR, cfg) == Some(192000u32),
        !(cfg[6] == 0x20 || cfg[6] == 0x10 || cfg[6] == 0x08 || cfg[6] == 0x04 || cfg[6] == 0x02
            || cfg[6] == 0x01) ==> spec_sample_rate(A2DP_CODEC_VENDOR, cfg) is None,
{
    assert(spec_vendor_ids(cfg) == Some((VENDOR_LDAC, CODEC_ID_LDAC)));
}

/// The sample rate of any SBC configuration follows the frequency bits of its
/// first octet's low nibble: `0x1` is 48 kHz, `0x2` 44.1 kHz, `0x4` 32 kHz and
/// `0x8` 16 kHz; anything else gives no rate.
pub proof fn lemma_sbc_sample_rates(cfg: Seq<u8>)
    requires
        cfg.len() >= 1,
    ensures
        cfg[0] & 0x0F == 0x01 ==> spec_sample_rate(A2DP_CODEC_SBC, cfg) == Some(48000u32),
        cfg[0] & 0x0F == 0x02 ==> spec_sample_rate(A2DP_CODEC_SBC, cfg) == Some(44100u32),
        cfg[0] & 0x0F == 0x04 ==> spec_sample_rate(A2DP_CODEC_SBC, cfg) == Some(32000u32),
        cfg[0] & 0x0F == 0x08 ==> spec_sample_rate(A2DP_CODEC_SBC, cfg) == Some(16000u32),
        !(cfg[0] & 0x0F == 0x01 || cfg[0] & 0x0F == 0x02 || cfg[0] & 0x0F == 0x04 || cfg[0] & 0x0F
            == 0x08) ==> spec_sample_rate(A2DP_CODEC_SBC, cfg) is None,
{
}

/// The sample rate of any MPEG-1,2 configuration follows the frequency bits of
/// its second octet's low six bits: `0x01` 48 kHz, `0x02` 44.1 kHz, `0x04`
/// 32 kHz, `0x08` 24 kHz, `0x10` 22.05 kHz and `0x20` 16 kHz.
pub proof fn lemma_mpeg_sample_rates(cfg: Seq<u8>)
    requires
        cfg.len() >= 2,
    ensures
        cfg[1] & 0x3F == 0x01 ==> spec_sample_rate(A2DP_CODEC_MPEG12, cfg) == Some(48000u32),
        cfg[1] & 0x3F == 0x02 ==> spec_sample_rate(A2DP_CODEC_MPEG12, cfg) == Some(44100u32),
        cfg[1] & 0x3F == 0x04 ==> spec_sample_rate(A2DP_CODEC_MPEG12, cfg) == Some(32000u32),
        cfg[1] & 0x3F == 0x08 ==> spec_sample_rate(A2DP_CODEC_MPEG12, cfg) == Some(24000u32),
        cfg[1] & 0x3F == 0x10 ==> spec_sample_rate(A2DP_CODEC_MPEG12, cfg) == Some(22050u32),
        cfg[1] & 0x3F == 0x20 ==> spec_sample_rate(A2DP_CODEC_MPEG12, cfg) == Some(16000u32),
{
}

/// A host-service request, as far as its answer without the service matters.
#[derive(Debug, Clone, Copy, PartialEq, Eq, Structural)]
pub enum HostRequest {
    /// A media status or control request.
    Media,
    /// A codec status request.
    Codec,
    /// A System EQ status request.
    SystemEqStatus,
    /// A System EQ on or off request.
    SystemEqChange,
}

/// What a request is answered with when its service is missing.
#[derive(Debug, Clone, PartialEq, Eq)]
pub enum MissingServiceAnswer {
    /// An error event with this text.
    Error(String),
    /// The codec is reported as unknown.
    UnknownCodec,
    /// The System EQ is reported with its default (disabled) status.
    DefaultSystemEqStatus,
}

/// The answer to a request whose service is missing: status requests get a
/// neutral answer (an unknown codec, a disabled System EQ); media requests and
/// System EQ changes get an error.
pub fn missing_service_answer(request: HostRequest) -> (r: MissingServiceAnswer)
    ensures
        match request {
            HostRequest::Media => r matches MissingServiceAnswer::Error(m) && m@
                == "MPRIS is not available in this build/session"@,
            HostRequest::Codec => r is UnknownCodec,
            HostRequest::SystemEqStatus => r is DefaultSystemEqStatus,
            HostRequest::SystemEqChange => r matches MissingServiceAnswer::Error(m) && m@
                == "System EQ is not available in this build"@,
        },
{
    match request {
        HostRequest::Media => MissingServiceAnswer::Error(
            string_of(chars_of("MPRIS is not available in this build/session").as_slice()),
        ),
        HostRequest::Codec => MissingServiceAnswer::UnknownCodec,
        HostRequest::SystemEqStatus => MissingServiceAnswer::DefaultSystemEqStatus,
        HostRequest::SystemEqChange => MissingServiceAnswer::Error(
            string_of(chars_of("System EQ is not available in this build").as_slice()),
        ),
    }
}

} // verus!
