//! The transport boundary: structured errors, discovery results and the single
//! `Transport` contract every backend (mock, BlueZ GATT, SPP/RFCOMM) implements.
//! Every outbound write of every backend passes the central write policy first.

use vstd::prelude::*;

use crate::policy::{denial_text, Denial};
use crate::text::{
    append_str, ascii_upper, ascii_upper_chars, ascii_upper_seq, chars_of, is_white_space,
    lemma_trim_ends, lemma_trim_fixed, string_of, trim_chars, trim_spec,
};

verus! {

/// Structured transport errors: adapter-off, out-of-range, permission, timeout,
/// disconnect and policy denial are all distinguishable by callers.
#[derive(Debug, Clone, PartialEq, Eq)]
pub enum TransportError {
    AdapterOff,
    DeviceOutOfRange,
    PermissionDenied,
    Timeout,
    Disconnected,
    NotFound(String),
    /// Rejected by the central write-authorization policy.
    Denied(Denial),
    InvalidArgument(String),
    /// Backend failure that does not map to a more specific variant.
    Bus(String),
}

/// Human-readable text of a transport error.
pub open spec fn transport_error_text(e: TransportError) -> Seq<char> {
    match e {
        TransportError::AdapterOff => "Bluetooth adapter is off or missing"@,
        TransportError::DeviceOutOfRange => "device out of range"@,
        TransportError::PermissionDenied => "permission denied"@,
        TransportError::Timeout => "operation timed out"@,
        TransportError::Disconnected => "device disconnected"@,
        TransportError::NotFound(what) => "not found: "@ + what@,
        TransportError::Denied(d) => "write denied: "@ + denial_text(d),
        TransportError::InvalidArgument(msg) => "invalid argument: "@ + msg@,
        TransportError::Bus(msg) => "transport error: "@ + msg@,
    }
}

impl TransportError {
    /// The error's human-readable text.
    pub fn message(&self) -> (r: String)
        ensures
            r@ == transport_error_text(*self),
    {
        let mut out: Vec<char> = Vec::new();
        match self {
            TransportError::AdapterOff => append_str(&mut out, "Bluetooth adapter is off or missing"),
            TransportError::DeviceOutOfRange => append_str(&mut out, "device out of range"),
            TransportError::PermissionDenied => append_str(&mut out, "permission denied"),
            TransportError::Timeout => append_str(&mut out, "operation timed out"),
            TransportError::Disconnected => append_str(&mut out, "device disconnected"),
            TransportError::NotFound(what) => {
                append_str(&mut out, "not found: ");
                append_str(&mut out, what.as_str());
            },
            TransportError::Denied(d) => {
                append_str(&mut out, "write denied: ");
                let t = d.message();
                append_str(&mut out, t.as_str());
            },
            TransportError::InvalidArgument(msg) => {
                append_str(&mut out, "invalid argument: ");
                append_str(&mut out, msg.as_str());
            },
            TransportError::Bus(msg) => {
                append_str(&mut out, "transport error: ");
                append_str(&mut out, msg.as_str());
            },
        }
        assert(out@ =~= transport_error_text(*self));
        string_of(out.as_slice())
    }
}

/// A candidate device surfaced by discovery. `model_known` is false when the model
/// is not proven from advertisement/name evidence; such devices stay read-only.
#[derive(Debug, Clone, PartialEq, Eq)]
pub struct DiscoveredDevice {
    pub address: String,
    pub name: String,
    pub rssi: Option<i16>,
    pub model_known: bool,
}

/// Blocking, per-connection device transport.
pub trait Transport {
    /// Discover candidate QCY devices. Unknown models stay marked unknown.
    fn scan(&mut self) -> Result<Vec<DiscoveredDevice>, TransportError>;

    /// Devices already connected at the host level. None by default.
    fn connected_devices(&mut self) -> (r: Result<Vec<DiscoveredDevice>, TransportError>)
        default_ensures
            r matches Ok(list) && list@.len() == 0,
    {
        Ok(Vec::new())
    }

    /// Connect to the device with the given address and resolve what it needs.
    fn connect(&mut self, address: &str) -> Result<(), TransportError>;

    fn disconnect(&mut self) -> Result<(), TransportError>;

    /// Read an allowlisted characteristic.
    fn read(&mut self, char_uuid: &str) -> Result<Vec<u8>, TransportError>;

    /// Framed write to the command characteristic. Policy-checked.
    fn write(&mut self, bytes: &[u8]) -> Result<(), TransportError>;

    /// Unframed write to an allowlisted characteristic. Policy-checked.
    fn write_direct(&mut self, char_uuid: &str, bytes: &[u8]) -> Result<(), TransportError>;

    /// Subscribe to notifications on a characteristic.
    fn subscribe(&mut self, char_uuid: &str) -> Result<(), TransportError>;

    /// Session-scoped opt-in for experimental opcodes (never persisted).
    fn set_experimental_opt_in(&mut self, on: bool);

    /// Explicit user attestation that the connected device's model is known.
    /// A no-op when not connected; destructive opcodes stay forbidden.
    fn attest_model_known(&mut self);

    /// Live link state. `false` by default.
    fn is_connected(&mut self) -> (r: Result<bool, TransportError>)
        default_ensures
            r == Ok::<bool, TransportError>(false),
    {
        Ok(false)
    }

    /// The identity actually holding the session, when the backend knows it.
    /// Unknown (`None`) by default.
    fn session_address(&mut self) -> (r: Option<String>)
        default_ensures
            r is None,
    {
        None
    }
}

/// `-` replaced by `:` in a text.
pub open spec fn dash_to_colon(s: Seq<char>) -> Seq<char> {
    Seq::new(s.len(), |i: int| if s[i] == '-' { ':' } else { s[i] })
}

/// Normal form of a Bluetooth address: trimmed, `-` replaced by `:`, ASCII uppercase.
pub open spec fn normalized_address(s: Seq<char>) -> Seq<char> {
    ascii_upper_seq(dash_to_colon(trim_spec(s)))
}

proof fn lemma_upper_colon_char(c: char)
    ensures
        is_white_space(ascii_upper(if c == '-' { ':' } else { c })) == is_white_space(c),
        ascii_upper(if c == '-' { ':' } else { c }) != '-',
        ascii_upper(ascii_upper(if c == '-' { ':' } else { c })) == ascii_upper(if c == '-' { ':' } else { c }),
{
    let d = if c == '-' { ':' } else { c };
    if 'a' <= d && d <= 'z' {
        let u = ((d as u32) - 32) as char;
        assert(0x41 <= u as u32 <= 0x5A);
    }
}

/// Normalizing an address twice gives what normalizing it once gives: a
/// normalized address is its own normal form.
pub proof fn lemma_normalize_idempotent(s: Seq<char>)
    ensures
        normalized_address(normalized_address(s)) == normalized_address(s),
{
    let t = trim_spec(s);
    let u = normalized_address(s);
    lemma_trim_ends(s);
    assert forall|i: int| 0 <= i < u.len() implies #[trigger] u[i] == ascii_upper(
        if t[i] == '-' { ':' } else { t[i] },
    ) && is_white_space(u[i]) == is_white_space(t[i]) && u[i] != '-' && ascii_upper(u[i]) == u[i] by {
        lemma_upper_colon_char(t[i]);
    }
    if u.len() > 0 {
        assert(u.last() == u[u.len() - 1]);
        assert(t.last() == t[t.len() - 1]);
    }
    lemma_trim_fixed(u);
    assert(dash_to_colon(u) =~= u);
    assert(ascii_upper_seq(u) =~= u);
}

/// Normalize a Bluetooth address for comparison and persistence: surrounding
/// whitespace removed, `-` separators turned into `:`, ASCII uppercase.
pub fn normalize_address(address: &str) -> (r: String)
    ensures
        r@ == normalized_address(address@),
{
    let cs = chars_of(address);
    let trimmed = trim_chars(cs.as_slice());
    let mut replaced: Vec<char> = Vec::new();
    let mut i: usize = 0;
    while i < trimmed.len()
        invariant
            i <= trimmed@.len(),
            replaced@ == dash_to_colon(trimmed@.subrange(0, i as int)),
        decreases trimmed@.len() - i,
    {
        let c = trimmed[i];
        replaced.push(if c == '-' { ':' } else { c });
        i = i + 1;
        assert(replaced@ =~= dash_to_colon(trimmed@.subrange(0, i as int)));
    }
    assert(trimmed@.subrange(0, trimmed@.len() as int) =~= trimmed@);
    let upper = ascii_upper_chars(replaced.as_slice());
    string_of(upper.as_slice())
}

} // verus!
