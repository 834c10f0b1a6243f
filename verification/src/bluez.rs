//! BlueZ GATT transport backend.
//!
//! Talks to the system BlueZ stack through its managed-object tree. All bus access
//! is isolated behind the [`BlueZBus`] trait, so object-path mapping, discovery
//! filtering, characteristic resolution, the dual-mode LE fallback and the policy
//! checks are exercised against a fake bus. Discovery is bounded by a number of
//! polls; the bus implementation decides how long one poll pause lasts.

use vstd::prelude::*;

use crate::policy::{direct_allowed, frame_verdict, Denial, WritePolicy, CHAR_COMMAND_WRITE, SERVICE_MAIN};
use crate::text::{
    append_chars, append_str, ascii_lower_chars, lemma_lex_lt_trans, lemma_lex_trichotomy, lex_lt,
    lex_lt_exec, ascii_lower_seq, ascii_upper_chars,
    ascii_upper_seq, chars_eq, chars_of, contains_chars, has_prefix, has_substring, has_suffix,
    starts_with_chars, string_of, trim_chars, trim_spec,
};
use crate::transport::{DiscoveredDevice, Transport, TransportError};

verus! {

/// The structured error a BlueZ error message names, by the fragments it
/// contains; `None` where no fragment matches (a generic bus error).
pub open spec fn spec_bus_error_kind(m: Seq<char>) -> Option<TransportError> {
    if has_substring(m, "NotPermitted"@) || has_substring(m, "NotAuthorized"@) {
        Some(TransportError::PermissionDenied)
    } else if has_substring(m, "NoReply"@) || has_substring(m, "TimedOut"@) || has_substring(m, "InProgress"@) {
        Some(TransportError::Timeout)
    } else if has_substring(m, "NoSuchAdapter"@) {
        Some(TransportError::AdapterOff)
    } else if has_substring(m, "page-timeout"@) || has_substring(m, "connect-failed"@)
        || has_substring(m, "le-connection-abort"@) {
        Some(TransportError::DeviceOutOfRange)
    } else if has_substring(m, "NotReady"@) || has_substring(m, "NotConnected"@) {
        Some(TransportError::Disconnected)
    } else {
        None
    }
}

fn mentions(s: &[char], fragment: &str) -> (r: bool)
    ensures
        r == has_substring(s@, fragment@),
{
    contains_chars(s, chars_of(fragment).as_slice())
}

/// Maps a BlueZ error message to a structured transport error; an
/// unrecognised message becomes a bus error carrying it.
pub fn bus_error(message: &str) -> (r: TransportError)
    ensures
        match spec_bus_error_kind(message@) {
            Some(e) => r == e,
            None => r matches TransportError::Bus(t) && t@ == message@,
        },
{
    let m = chars_of(message);
    let s = m.as_slice();
    if mentions(s, "NotPermitted") || mentions(s, "NotAuthorized") {
        TransportError::PermissionDenied
    } else if mentions(s, "NoReply") || mentions(s, "TimedOut") || mentions(s, "InProgress") {
        TransportError::Timeout
    } else if mentions(s, "NoSuchAdapter") {
        TransportError::AdapterOff
    } else if mentions(s, "page-timeout") || mentions(s, "connect-failed") || mentions(
        s,
        "le-connection-abort",
    ) {
        TransportError::DeviceOutOfRange
    } else if mentions(s, "NotReady") || mentions(s, "NotConnected") {
        TransportError::Disconnected
    } else {
        TransportError::Bus(string_of(s))
    }
}

/// A `Connect` answer saying the link is already up (e.g. for BR/EDR audio):
/// the caller proceeds to characteristic resolution.
pub fn is_already_connected(message: &str) -> (r: bool)
    ensures
        r == has_substring(message@, "AlreadyConnected"@),
{
    mentions(chars_of(message).as_slice(), "AlreadyConnected")
}

/// `:` and `-` replaced by `_`.
pub open spec fn separators_to_underscore(s: Seq<char>) -> Seq<char> {
    Seq::new(s.len(), |i: int| if s[i] == ':' || s[i] == '-' { '_' } else { s[i] })
}

/// BlueZ object-path fragment of a MAC: trimmed, ASCII uppercase, `:`/`-` to `_`.
pub open spec fn spec_normalize_mac(mac: Seq<char>) -> Seq<char> {
    separators_to_underscore(ascii_upper_seq(trim_spec(mac)))
}

/// BlueZ object path of a device on an adapter.
pub open spec fn spec_device_path(adapter: Seq<char>, mac: Seq<char>) -> Seq<char> {
    "/org/bluez/"@ + adapter + "/dev_"@ + spec_normalize_mac(mac)
}

/// Normalize a MAC address to the BlueZ object-path fragment (`AA:BB..` -> `AA_BB..`).
pub fn normalize_mac(mac: &str) -> (r: String)
    ensures
        r@ == spec_normalize_mac(mac@),
{
    let v = normalize_mac_chars(mac);
    string_of(v.as_slice())
}

fn normalize_mac_chars(mac: &str) -> (r: Vec<char>)
    ensures
        r@ == spec_normalize_mac(mac@),
{
    let upper = ascii_upper_chars(trim_chars(chars_of(mac).as_slice()).as_slice());
    let mut out: Vec<char> = Vec::new();
    let mut i: usize = 0;
    while i < upper.len()
        invariant
            i <= upper@.len(),
            out@ == separators_to_underscore(upper@.subrange(0, i as int)),
        decreases upper@.len() - i,
    {
        let c = upper[i];
        out.push(if c == ':' || c == '-' { '_' } else { c });
        i = i + 1;
        assert(out@ =~= separators_to_underscore(upper@.subrange(0, i as int)));
    }
    assert(upper@.subrange(0, upper@.len() as int) =~= upper@);
    out
}

/// BlueZ object path for a device on an adapter, e.g. `/org/bluez/hci0/dev_AA_BB_..`.
pub fn device_path(adapter: &str, mac: &str) -> (r: String)
    ensures
        r@ == spec_device_path(adapter@, mac@),
{
    let mut out: Vec<char> = Vec::new();
    append_str(&mut out, "/org/bluez/");
    append_str(&mut out, adapter);
    append_str(&mut out, "/dev_");
    let m = normalize_mac_chars(mac);
    append_chars(&mut out, m.as_slice());
    string_of(out.as_slice())
}

/// A property value read from a BlueZ managed object.
#[derive(Debug, Clone, PartialEq)]
pub enum PropValue {
    Str(String),
    I16(i16),
    Bool(bool),
    Bytes(Vec<u8>),
    /// String arrays, e.g. the device `UUIDs` property.
    StrArray(Vec<String>),
}

/// A BlueZ object: its path plus per-interface property lists.
#[derive(Debug, Clone, Default)]
pub struct BlueZObject {
    pub path: String,
    pub interfaces: Vec<(String, Vec<(String, PropValue)>)>,
}

/// Minimal bus surface the BlueZ backend needs.
pub trait BlueZBus {
    fn managed_objects(&self) -> Result<Vec<BlueZObject>, TransportError>;

    fn start_discovery(&self, adapter: &str) -> Result<(), TransportError>;

    /// Stop discovery. Implementations must tolerate "not discovering" errors.
    fn stop_discovery(&self, adapter: &str) -> Result<(), TransportError>;

    fn device_connect(&self, device_path: &str) -> Result<(), TransportError>;

    fn device_disconnect(&self, device_path: &str) -> Result<(), TransportError>;

    fn read_value(&self, char_path: &str) -> Result<Vec<u8>, TransportError>;

    fn write_value(&self, char_path: &str, bytes: &[u8]) -> Result<(), TransportError>;

    fn start_notify(&self, char_path: &str) -> Result<(), TransportError>;

    fn stop_notify(&self, char_path: &str) -> Result<(), TransportError>;

    /// Wait one discovery poll interval while discovery results arrive.
    fn discovery_pause(&self);
}

pub const DEVICE_IFACE: &'static str = "org.bluez.Device1";
pub const SERVICE_IFACE: &'static str = "org.bluez.GattService1";
pub const CHAR_IFACE: &'static str = "org.bluez.GattCharacteristic1";

/// Discovery polls `scan` takes before returning (6 s at 400 ms per poll).
pub const SCAN_POLLS: u32 = 15;
/// Polls `scan` keeps watching after the first candidate appears (about 1.5 s).
pub const SCAN_GRACE_POLLS: u32 = 4;
/// Discovery polls the dual-mode connect fallback takes (10 s at 400 ms per poll).
pub const LE_FALLBACK_POLLS: u32 = 25;

/// The properties of an interface of an object (first matching entry).
pub open spec fn spec_iface_props(obj: BlueZObject, iface: Seq<char>) -> Option<Seq<(String, PropValue)>>
    decreases obj.interfaces@.len(),
{
    spec_find_iface(obj.interfaces@, iface)
}

pub open spec fn spec_find_iface(
    ifaces: Seq<(String, Vec<(String, PropValue)>)>,
    iface: Seq<char>,
) -> Option<Seq<(String, PropValue)>>
    decreases ifaces.len(),
{
    if ifaces.len() == 0 {
        None
    } else if ifaces[0].0@ == iface {
        Some(ifaces[0].1@)
    } else {
        spec_find_iface(ifaces.drop_first(), iface)
    }
}

pub open spec fn spec_find_prop(props: Seq<(String, PropValue)>, key: Seq<char>) -> Option<PropValue>
    decreases props.len(),
{
    if props.len() == 0 {
        None
    } else if props[0].0@ == key {
        Some(props[0].1)
    } else {
        spec_find_prop(props.drop_first(), key)
    }
}

/// A property of an interface of an object.
pub open spec fn spec_prop(obj: BlueZObject, iface: Seq<char>, key: Seq<char>) -> Option<PropValue> {
    match spec_iface_props(obj, iface) {
        Some(props) => spec_find_prop(props, key),
        None => None,
    }
}

/// A string property of an interface of an object.
pub open spec fn spec_prop_str(obj: BlueZObject, iface: Seq<char>, key: Seq<char>) -> Option<Seq<char>> {
    match spec_prop(obj, iface, key) {
        Some(PropValue::Str(s)) => Some(s@),
        _ => None,
    }
}

/// The device's display name: `Alias`, falling back to `Name`.
pub open spec fn spec_device_name(obj: BlueZObject) -> Option<Seq<char>> {
    match spec_prop_str(obj, DEVICE_IFACE@, "Alias"@) {
        Some(a) => Some(a),
        None => spec_prop_str(obj, DEVICE_IFACE@, "Name"@),
    }
}

/// Names treated as candidate QCY devices.
pub open spec fn spec_is_qcy_name(name: Seq<char>) -> bool {
    has_prefix(name, "QCY"@) || has_prefix(name, "MeloBuds"@)
}

/// Names that prove the HT08 model; anything else stays unknown (read-only).
pub open spec fn spec_is_known_model(name: Seq<char>) -> bool {
    has_substring(name, "MeloBuds Pro"@) || has_substring(name, "HT08"@)
}

/// The device's RSSI, when it reports one.
pub open spec fn spec_rssi(obj: BlueZObject) -> Option<i16> {
    match spec_prop(obj, DEVICE_IFACE@, "RSSI"@) {
        Some(PropValue::I16(v)) => Some(v),
        _ => None,
    }
}

/// A device object with a QCY name and an address is a scan candidate.
pub open spec fn spec_is_candidate(obj: BlueZObject) -> bool {
    &&& spec_iface_props(obj, DEVICE_IFACE@) is Some
    &&& spec_device_name(obj) matches Some(name) && spec_is_qcy_name(name)
    &&& spec_prop_str(obj, DEVICE_IFACE@, "Address"@) is Some
}

fn find_props<'a>(obj: &'a BlueZObject, iface: &str) -> (r: Option<&'a Vec<(String, PropValue)>>)
    ensures
        match r {
            Some(p) => spec_iface_props(*obj, iface@) == Some(p@),
            None => spec_iface_props(*obj, iface@) is None,
        },
{
    let want = chars_of(iface);
    let mut i: usize = 0;
    assert(obj.interfaces@.skip(0) =~= obj.interfaces@);
    while i < obj.interfaces.len()
        invariant
            i <= obj.interfaces@.len(),
            want@ == iface@,
            spec_find_iface(obj.interfaces@, iface@) == spec_find_iface(
                obj.interfaces@.skip(i as int),
                iface@,
            ),
        decreases obj.interfaces@.len() - i,
    {
        let ghost rest = obj.interfaces@.skip(i as int);
        assert(rest[0] == obj.interfaces@[i as int]);
        assert(rest.drop_first() =~= obj.interfaces@.skip(i + 1));
        let name = chars_of(obj.interfaces[i].0.as_str());
        if chars_eq(name.as_slice(), want.as_slice()) {
            return Some(&obj.interfaces[i].1);
        }
        i = i + 1;
    }
    None
}

fn find_prop<'a>(props: &'a Vec<(String, PropValue)>, key: &str) -> (r: Option<&'a PropValue>)
    ensures
        match r {
            Some(v) => spec_find_prop(props@, key@) == Some(*v),
            None => spec_find_prop(props@, key@) is None,
        },
{
    let want = chars_of(key);
    let mut i: usize = 0;
    assert(props@.skip(0) =~= props@);
    while i < props.len()
        invariant
            i <= props@.len(),
            want@ == key@,
            spec_find_prop(props@, key@) == spec_find_prop(props@.skip(i as int), key@),
        decreases props@.len() - i,
    {
        let ghost rest = props@.skip(i as int);
        assert(rest[0] == props@[i as int]);
        assert(rest.drop_first() =~= props@.skip(i + 1));
        let name = chars_of(props[i].0.as_str());
        if chars_eq(name.as_slice(), want.as_slice()) {
            return Some(&props[i].1);
        }
        i = i + 1;
    }
    None
}

fn prop<'a>(obj: &'a BlueZObject, iface: &str, key: &str) -> (r: Option<&'a PropValue>)
    ensures
        match r {
            Some(v) => spec_prop(*obj, iface@, key@) == Some(*v),
            None => spec_prop(*obj, iface@, key@) is None,
        },
{
    match find_props(obj, iface) {
        Some(props) => find_prop(props, key),
        None => None,
    }
}

fn prop_str<'a>(obj: &'a BlueZObject, iface: &str, key: &str) -> (r: Option<&'a str>)
    ensures
        match r {
            Some(s) => spec_prop_str(*obj, iface@, key@) == Some(s@),
            None => spec_prop_str(*obj, iface@, key@) is None,
        },
{
    match prop(obj, iface, key) {
        Some(PropValue::Str(s)) => Some(s.as_str()),
        _ => None,
    }
}

fn device_name_of<'a>(obj: &'a BlueZObject) -> (r: Option<&'a str>)
    ensures
        match r {
            Some(s) => spec_device_name(*obj) == Some(s@),
            None => spec_device_name(*obj) is None,
        },
{
    match prop_str(obj, DEVICE_IFACE, "Alias") {
        Some(a) => Some(a),
        None => prop_str(obj, DEVICE_IFACE, "Name"),
    }
}

fn is_qcy_name(name: &str) -> (r: bool)
    ensures
        r == spec_is_qcy_name(name@),
{
    let n = chars_of(name);
    starts_with_chars(n.as_slice(), chars_of("QCY").as_slice()) || starts_with_chars(
        n.as_slice(),
        chars_of("MeloBuds").as_slice(),
    )
}

fn is_known_model(name: &str) -> (r: bool)
    ensures
        r == spec_is_known_model(name@),
{
    let n = chars_of(name);
    contains_chars(n.as_slice(), chars_of("MeloBuds Pro").as_slice()) || contains_chars(
        n.as_slice(),
        chars_of("HT08").as_slice(),
    )
}

fn rssi_of(obj: &BlueZObject) -> (r: Option<i16>)
    ensures
        r == spec_rssi(*obj),
{
    match prop(obj, DEVICE_IFACE, "RSSI") {
        Some(PropValue::I16(v)) => Some(*v),
        _ => None,
    }
}

/// A device object as a scan candidate: QCY-ish name, address and RSSI, with
/// `model_known` exactly when the name proves the HT08 model.
fn candidate_device(obj: &BlueZObject) -> (r: Option<DiscoveredDevice>)
    ensures
        r is Some <==> spec_is_candidate(*obj),
        r matches Some(d) ==> {
            &&& spec_prop_str(*obj, DEVICE_IFACE@, "Address"@) == Some(d.address@)
            &&& spec_device_name(*obj) == Some(d.name@)
            &&& d.rssi == spec_rssi(*obj)
            &&& d.model_known == spec_is_known_model(d.name@)
        },
{
    if find_props(obj, DEVICE_IFACE).is_none() {
        return None;
    }
    let name = match device_name_of(obj) {
        Some(n) => n,
        None => return None,
    };
    if !is_qcy_name(name) {
        return None;
    }
    let address = match prop_str(obj, DEVICE_IFACE, "Address") {
        Some(a) => a,
        None => return None,
    };
    Some(
        DiscoveredDevice {
            address: string_of(chars_of(address).as_slice()),
            name: string_of(chars_of(name).as_slice()),
            rssi: rssi_of(obj),
            model_known: is_known_model(name),
        },
    )
}

/// Some UUID of the list is the vendor main service (case-insensitive).
pub open spec fn lists_main_service(uuids: Seq<String>) -> bool {
    exists|i: int|
        0 <= i < uuids.len() && ascii_lower_seq(#[trigger] uuids[i]@) == ascii_lower_seq(SERVICE_MAIN@)
}

/// True when the device lists the vendor main service in its `UUIDs` property.
pub open spec fn spec_advertises_main_service(obj: BlueZObject) -> bool {
    match spec_prop(obj, DEVICE_IFACE@, "UUIDs"@) {
        Some(PropValue::StrArray(uuids)) => lists_main_service(uuids@),
        _ => false,
    }
}

fn eq_ignore_ascii_case(a: &str, b: &str) -> (r: bool)
    ensures
        r == (ascii_lower_seq(a@) == ascii_lower_seq(b@)),
{
    let la = ascii_lower_chars(chars_of(a).as_slice());
    let lb = ascii_lower_chars(chars_of(b).as_slice());
    chars_eq(la.as_slice(), lb.as_slice())
}

fn advertises_main_service(obj: &BlueZObject) -> (r: bool)
    ensures
        r == spec_advertises_main_service(*obj),
{
    let p = prop(obj, DEVICE_IFACE, "UUIDs");
    match p {
        Some(PropValue::StrArray(uuids)) => {
            assert(spec_prop(*obj, DEVICE_IFACE@, "UUIDs"@) == Some(PropValue::StrArray(*uuids)));
            let mut i: usize = 0;
            while i < uuids.len()
                invariant
                    i <= uuids@.len(),
                    spec_prop(*obj, DEVICE_IFACE@, "UUIDs"@) == Some(PropValue::StrArray(*uuids)),
                    forall|k: int|
                        0 <= k < i ==> ascii_lower_seq(#[trigger] uuids@[k]@) != ascii_lower_seq(
                            SERVICE_MAIN@,
                        ),
                decreases uuids@.len() - i,
            {
                if eq_ignore_ascii_case(uuids[i].as_str(), SERVICE_MAIN) {
                    assert(ascii_lower_seq(uuids@[i as int]@) == ascii_lower_seq(SERVICE_MAIN@));
                    assert(lists_main_service(uuids@));
                    return true;
                }
                i = i + 1;
            }
            false
        },
        _ => false,
    }
}

/// A device list strictly ordered by address.
pub open spec fn sorted_by_address(list: Seq<DiscoveredDevice>) -> bool {
    forall|i: int, j: int| 0 <= i < j < list.len() ==> lex_lt(list[i].address@, list[j].address@)
}

/// Insert or replace `dev` in an address-sorted list, keeping it sorted.
fn upsert_sorted(list: &mut Vec<DiscoveredDevice>, dev: DiscoveredDevice)
    requires
        sorted_by_address(old(list)@),
    ensures
        sorted_by_address(final(list)@),
        exists|k: int| 0 <= k < final(list)@.len() && final(list)@[k] == dev,
        forall|k: int|
            0 <= k < final(list)@.len() ==> final(list)@[k] == dev || old(list)@.contains(
                #[trigger] final(list)@[k],
            ),
        forall|k: int|
            0 <= k < old(list)@.len() && old(list)@[k].address@ != dev.address@ ==> final(list)@.contains(#[trigger] old(list)@[k]),
{
    let key = chars_of(dev.address.as_str());
    let mut i: usize = 0;
    while i < list.len()
        invariant
            i <= list@.len(),
            list@ == old(list)@,
            key@ == dev.address@,
            forall|k: int| 0 <= k < i ==> lex_lt(#[trigger] list@[k].address@, key@),
        ensures
            i <= list@.len(),
            list@ == old(list)@,
            forall|k: int| 0 <= k < i ==> lex_lt(#[trigger] list@[k].address@, key@),
            i < list@.len() ==> !lex_lt(list@[i as int].address@, key@),
        decreases list@.len() - i,
    {
        let cur = chars_of(list[i].address.as_str());
        if !lex_lt_exec(cur.as_slice(), key.as_slice()) {
            break;
        }
        i = i + 1;
    }
    let ghost o = old(list)@;
    if i < list.len() && chars_eq(chars_of(list[i].address.as_str()).as_slice(), key.as_slice()) {
        let ghost d = dev;
        list.set(i, dev);
        proof {
            assert forall|a: int, b: int| 0 <= a < b < list@.len() implies lex_lt(
                list@[a].address@,
                list@[b].address@,
            ) by {
                assert(o[i as int].address@ == d.address@);
                if a == i {
                    assert(lex_lt(o[a].address@, o[b].address@));
                } else if b == i {
                    assert(lex_lt(o[a].address@, o[b].address@));
                }
            }
            assert(list@[i as int] == d);
            assert forall|k: int| 0 <= k < list@.len() implies list@[k] == d || o.contains(
                #[trigger] list@[k],
            ) by {
                if k != i {
                    assert(list@[k] == o[k]);
                }
            }
            assert forall|k: int| 0 <= k < o.len() && o[k].address@ != d.address@ implies list@.contains(
                #[trigger] o[k],
            ) by {
                assert(k != i);
                assert(list@[k] == o[k]);
            }
        }
    } else {
        let ghost d = dev;
        proof {
            if i < o.len() {
                lemma_lex_trichotomy(o[i as int].address@, key@);
            }
        }
        list.insert(i, dev);
        proof {
            assert(list@ == o.insert(i as int, d));
            assert forall|k: int| 0 <= k < i implies list@[k] == o[k] by {}
            assert forall|k: int| i < k < list@.len() implies list@[k] == o[k - 1] by {}
            assert forall|a: int, b: int| 0 <= a < b < list@.len() implies lex_lt(
                list@[a].address@,
                list@[b].address@,
            ) by {
                if b < i {
                } else if a < i && b == i {
                } else if a < i && b > i {
                    assert(list@[b] == o[b - 1]);
                    assert(lex_lt(o[a].address@, o[b - 1].address@));
                } else if a == i && b > i {
                    assert(list@[b] == o[b - 1]);
                    if b - 1 > i {
                        assert(lex_lt(o[i as int].address@, o[b - 1].address@));
                        lemma_lex_lt_trans(d.address@, o[i as int].address@, o[b - 1].address@);
                    }
                } else {
                    assert(list@[a] == o[a - 1]);
                    assert(list@[b] == o[b - 1]);
                }
            }
            assert(list@[i as int] == d);
            assert forall|k: int| 0 <= k < list@.len() implies list@[k] == d || o.contains(
                #[trigger] list@[k],
            ) by {
                if k < i {
                    assert(list@[k] == o[k]);
                } else if k > i {
                    assert(list@[k] == o[k - 1]);
                }
            }
            assert forall|k: int| 0 <= k < o.len() && o[k].address@ != d.address@ implies list@.contains(
                #[trigger] o[k],
            ) by {
                if k < i {
                    assert(list@[k] == o[k]);
                } else {
                    assert(list@[k + 1] == o[k]);
                }
            }
        }
    }
}

/// Blocking GATT transport over a BlueZ bus.
pub struct BlueZTransport<B: BlueZBus> {
    bus: B,
    policy: WritePolicy,
    experimental_opt_in: bool,
    adapter: String,
    device_path: Option<String>,
    /// Resolved characteristics: (lowercase UUID, object path); later entries win.
    chars: Vec<(String, String)>,
    /// Model evidence for the connected device, from its advertised name or an
    /// explicit attestation. Unknown models stay read-only.
    connected_model_known: bool,
    scan_polls: u32,
    grace_polls: u32,
    le_fallback_polls: u32,
    /// The characteristic I/O handed to the bus, in order.
    io: Ghost<Seq<BusIo>>,
    /// The object tree the bus reported when the model evidence of the current
    /// connection was taken (`None` when the bus could not be read).
    evidence: Ghost<Option<Seq<BlueZObject>>>,
    /// The device paths handed to the bus by the last connect, each with
    /// whether connecting it succeeded.
    dials: Ghost<Seq<(Seq<char>, bool)>>,
    /// The outcome of the last connect's attempt at the requested address.
    primary: Ghost<Result<(), TransportError>>,
    /// Whether the last connect started a BLE identity search.
    le_started: Ghost<bool>,
    /// The object tree the search took the selected device's name from.
    le_name_answer: Ghost<Option<Seq<BlueZObject>>>,
    /// The polls of the last BLE identity search, in order.
    le_polls: Ghost<Seq<LePoll>>,
}

/// One poll of a BLE identity search: the object tree the bus answered with
/// (`None` when it could not be read), the addresses already tried when the
/// poll began, the addresses tried in it, in order, and whether the last of
/// them connected.
pub struct LePoll {
    pub answer: Option<Seq<BlueZObject>>,
    pub tried: Seq<Seq<char>>,
    pub tries: Seq<Seq<char>>,
    pub connected: bool,
}

/// The candidates a poll offers.
pub open spec fn poll_candidates(p: LePoll, name: Option<Seq<char>>) -> Seq<(Seq<char>, Option<i16>)> {
    match p.answer {
        Some(objs) => le_candidates_of(objs, p.tried, name),
        None => Seq::empty(),
    }
}

/// The addresses a list of candidates is tried in when none connects: the
/// strongest signal first (the first of equals), each address not tried
/// before and only once.
pub open spec fn strongest_order(c: Seq<(Seq<char>, Option<i16>)>, tried: Seq<Seq<char>>) -> Seq<Seq<char>>
    decreases c.len(),
{
    if c.len() == 0 {
        Seq::empty()
    } else {
        let b = best_index(c);
        proof {
            lemma_best_index(c);
        }
        if tried.contains(c[b].0) {
            strongest_order(c.remove(b), tried)
        } else {
            seq![c[b].0] + strongest_order(c.remove(b), tried.push(c[b].0))
        }
    }
}

/// A poll tried its candidates in strongest-first order until one connected,
/// or all of them when none did.
pub open spec fn poll_ok(p: LePoll, name: Option<Seq<char>>) -> bool {
    let full = strongest_order(poll_candidates(p, name), p.tried);
    if p.connected {
        0 < p.tries.len() <= full.len() && p.tries == full.take(p.tries.len() as int)
    } else {
        p.tries == full
    }
}

/// The addresses tried before and during the given polls.
pub open spec fn tried_after(polls: Seq<LePoll>, selected: Seq<char>) -> Seq<Seq<char>>
    decreases polls.len(),
{
    if polls.len() == 0 {
        seq![selected]
    } else {
        tried_after(polls.drop_last(), selected) + polls.last().tries
    }
}

/// Each poll starts from what the earlier ones tried, follows the
/// strongest-first order, and only the last one may have connected.
pub open spec fn polls_ok(polls: Seq<LePoll>, selected: Seq<char>, name: Option<Seq<char>>) -> bool
    decreases polls.len(),
{
    if polls.len() == 0 {
        true
    } else {
        let prev = polls.drop_last();
        &&& polls_ok(prev, selected, name)
        &&& polls.last().tried == tried_after(prev, selected)
        &&& poll_ok(polls.last(), name)
        &&& (prev.len() > 0 ==> !prev.last().connected)
    }
}

/// A BLE identity search for `selected` (whose display name is `name`) with
/// `budget` extra polls: no poll when discovery could not start; otherwise
/// polls until one connects or the budget is spent.
pub open spec fn le_search(
    polls: Seq<LePoll>,
    selected: Seq<char>,
    name: Option<Seq<char>>,
    started: bool,
    budget: u32,
    connected: bool,
) -> bool {
    &&& polls_ok(polls, selected, name)
    &&& !started ==> polls.len() == 0
    &&& polls.len() <= budget + 1
    &&& connected == (polls.len() > 0 && polls.last().connected)
    &&& started && !connected ==> polls.len() == budget + 1
}

/// The strongest-first order never repeats an address and never takes one
/// that was tried before.
pub proof fn lemma_strongest_order_fresh(c: Seq<(Seq<char>, Option<i16>)>, tried: Seq<Seq<char>>)
    ensures
        forall|i: int| 0 <= i < strongest_order(c, tried).len() ==> !tried.contains(#[trigger] strongest_order(c, tried)[i]),
        strongest_order(c, tried).no_duplicates(),
    decreases c.len(),
{
    if c.len() > 0 {
        lemma_best_index(c);
        let b = best_index(c);
        let a = c[b].0;
        if tried.contains(a) {
            lemma_strongest_order_fresh(c.remove(b), tried);
        } else {
            lemma_strongest_order_fresh(c.remove(b), tried.push(a));
            let rest = strongest_order(c.remove(b), tried.push(a));
            let r = seq![a] + rest;
            assert(strongest_order(c, tried) == r);
            assert forall|i: int| 0 <= i < r.len() implies !tried.contains(#[trigger] r[i]) by {
                if i > 0 {
                    assert(r[i] == rest[i - 1]);
                    assert(!tried.push(a).contains(rest[i - 1]));
                    if tried.contains(r[i]) {
                        let k = choose|k: int| 0 <= k < tried.len() && tried[k] == r[i];
                        assert(tried.push(a)[k] == r[i]);
                    }
                }
            }
            assert forall|i: int, j: int| 0 <= i < r.len() && 0 <= j < r.len() && i != j implies r[i] != r[j] by {
                if i > 0 && j > 0 {
                    assert(r[i] == rest[i - 1] && r[j] == rest[j - 1]);
                } else if i == 0 {
                    assert(r[j] == rest[j - 1]);
                    assert(tried.push(a)[tried.len() as int] == a);
                    assert(!tried.push(a).contains(rest[j - 1]));
                } else {
                    assert(r[i] == rest[i - 1]);
                    assert(tried.push(a)[tried.len() as int] == a);
                    assert(!tried.push(a).contains(rest[i - 1]));
                }
            }
        }
    }
}

/// Over a whole BLE identity search, no address is tried twice and the
/// requested address is never tried again: the selected address followed by
/// every address the polls tried has no repetition.
pub proof fn lemma_search_tries_each_address_once(polls: Seq<LePoll>, selected: Seq<char>, name: Option<Seq<char>>)
    requires
        polls_ok(polls, selected, name),
    ensures
        tried_after(polls, selected).no_duplicates(),
    decreases polls.len(),
{
    if polls.len() > 0 {
        let prev = polls.drop_last();
        let p = polls.last();
        lemma_search_tries_each_address_once(prev, selected, name);
        let full = strongest_order(poll_candidates(p, name), p.tried);
        lemma_strongest_order_fresh(poll_candidates(p, name), p.tried);
        let t = tried_after(prev, selected);
        let u = p.tries;
        assert(p.tried == t);
        assert(poll_ok(p, name));
        assert(u.len() <= full.len());
        assert(forall|i: int| 0 <= i < u.len() ==> u[i] == full[i]);
        let all = t + u;
        assert forall|i: int, j: int| 0 <= i < all.len() && 0 <= j < all.len() && i != j implies all[i] != all[j] by {
            if i >= t.len() && j >= t.len() {
                assert(all[i] == full[i - t.len()] && all[j] == full[j - t.len()]);
            } else if i < t.len() && j >= t.len() {
                assert(all[j] == full[j - t.len()]);
                assert(!t.contains(full[j - t.len()]));
                assert(t[i] == all[i]);
            } else if i >= t.len() && j < t.len() {
                assert(all[i] == full[i - t.len()]);
                assert(!t.contains(full[i - t.len()]));
                assert(t[j] == all[j]);
            }
        }
    } else {
        assert(seq![selected].no_duplicates());
    }
}

/// The device paths a poll handed to the bus, each with whether it connected.
pub open spec fn poll_dials(p: LePoll, adapter: Seq<char>) -> Seq<(Seq<char>, bool)> {
    Seq::new(
        p.tries.len(),
        |i: int| (spec_device_path(adapter, p.tries[i]), p.connected && i == p.tries.len() - 1),
    )
}

/// The device paths a search handed to the bus, poll by poll.
pub open spec fn le_dials(polls: Seq<LePoll>, adapter: Seq<char>) -> Seq<(Seq<char>, bool)>
    decreases polls.len(),
{
    if polls.len() == 0 {
        Seq::empty()
    } else {
        le_dials(polls.drop_last(), adapter) + poll_dials(polls.last(), adapter)
    }
}

/// The name a device path has in an object tree, when the tree could be read.
pub open spec fn name_in_answer(answer: Option<Seq<BlueZObject>>, path: Seq<char>) -> Option<Seq<char>> {
    match answer {
        Some(objs) => spec_name_at(objs, path),
        None => None,
    }
}

/// One characteristic operation handed to the bus: a read, a write of bytes or
/// a notification start, each on a characteristic object path.
pub enum BusIo {
    Read(Seq<char>),
    Write(Seq<char>, Seq<u8>),
    Notify(Seq<char>),
}

/// The object path resolved for a characteristic UUID (last entry wins).
pub open spec fn spec_char_lookup(chars: Seq<(Seq<char>, Seq<char>)>, uuid: Seq<char>) -> Option<Seq<char>>
    decreases chars.len(),
{
    if chars.len() == 0 {
        None
    } else if chars.last().0 == uuid {
        Some(chars.last().1)
    } else {
        spec_char_lookup(chars.drop_last(), uuid)
    }
}

impl<B: BlueZBus> BlueZTransport<B> {
    pub closed spec fn spec_connected(&self) -> bool {
        self.device_path is Some
    }

    pub closed spec fn spec_device_path(&self) -> Option<Seq<char>> {
        match self.device_path {
            Some(p) => Some(p@),
            None => None,
        }
    }

    pub closed spec fn spec_model_known(&self) -> bool {
        self.connected_model_known
    }

    pub closed spec fn spec_opt_in(&self) -> bool {
        self.experimental_opt_in
    }

    pub closed spec fn spec_policy(&self) -> WritePolicy {
        self.policy
    }

    pub closed spec fn spec_adapter(&self) -> Seq<char> {
        self.adapter@
    }

    /// Resolved characteristics as (lowercase UUID, path).
    pub closed spec fn spec_chars(&self) -> Seq<(Seq<char>, Seq<char>)> {
        self.chars@.map_values(|e: (String, String)| (e.0@, e.1@))
    }

    /// Discovery bounds: scan polls, grace polls, LE-fallback polls.
    pub closed spec fn spec_polls(&self) -> (u32, u32, u32) {
        (self.scan_polls, self.grace_polls, self.le_fallback_polls)
    }

    /// The characteristic I/O handed to the bus so far.
    pub closed spec fn spec_io(&self) -> Seq<BusIo> {
        self.io@
    }

    /// The device paths the last connect handed to the bus, with their outcomes.
    pub closed spec fn spec_dials(&self) -> Seq<(Seq<char>, bool)> {
        self.dials@
    }

    /// The outcome of the last connect's attempt at the requested address.
    pub closed spec fn spec_primary(&self) -> Result<(), TransportError> {
        self.primary@
    }

    /// Whether the last connect started a BLE identity search.
    pub closed spec fn spec_le_started(&self) -> bool {
        self.le_started@
    }

    /// The object tree the last search took the selected device's name from.
    pub closed spec fn spec_le_name_answer(&self) -> Option<Seq<BlueZObject>> {
        self.le_name_answer@
    }

    /// The polls of the last BLE identity search.
    pub closed spec fn spec_le_polls(&self) -> Seq<LePoll> {
        self.le_polls@
    }

    /// The records of the last connect are as in `other`.
    pub open spec fn same_search(&self, other: &Self) -> bool {
        &&& self.spec_primary() == other.spec_primary()
        &&& self.spec_le_started() == other.spec_le_started()
        &&& self.spec_le_name_answer() == other.spec_le_name_answer()
        &&& self.spec_le_polls() == other.spec_le_polls()
    }

    /// The object tree behind the model evidence of the current connection.
    pub closed spec fn spec_evidence(&self) -> Option<Seq<BlueZObject>> {
        self.evidence@
    }

    /// Everything but the I/O record is as in `other`.
    pub open spec fn same_session(&self, other: &Self) -> bool {
        &&& self.spec_connected() == other.spec_connected()
        &&& self.spec_device_path() == other.spec_device_path()
        &&& self.spec_model_known() == other.spec_model_known()
        &&& self.spec_opt_in() == other.spec_opt_in()
        &&& self.spec_policy() == other.spec_policy()
        &&& self.spec_adapter() == other.spec_adapter()
        &&& self.spec_chars() == other.spec_chars()
        &&& self.spec_polls() == other.spec_polls()
        &&& (other.wf() ==> self.wf())
    }

    /// No model evidence and no resolved characteristics without a connection.
    pub closed spec fn wf(&self) -> bool {
        self.device_path is None ==> !self.connected_model_known && self.chars@.len() == 0
    }

    /// A disconnected transport on adapter `hci0` with the default discovery bounds.
    pub fn new(bus: B, policy: WritePolicy) -> (r: Self)
        ensures
            r.wf(),
            !r.spec_connected(),
            r.spec_policy() == policy,
            !r.spec_opt_in(),
            r.spec_adapter() == "hci0"@,
            r.spec_polls() == (SCAN_POLLS, SCAN_GRACE_POLLS, LE_FALLBACK_POLLS),
            r.spec_io().len() == 0,
    {
        Self {
            bus,
            policy,
            experimental_opt_in: false,
            adapter: string_of(chars_of("hci0").as_slice()),
            device_path: None,
            chars: Vec::new(),
            connected_model_known: false,
            scan_polls: SCAN_POLLS,
            grace_polls: SCAN_GRACE_POLLS,
            le_fallback_polls: LE_FALLBACK_POLLS,
            io: Ghost(Seq::empty()),
            evidence: Ghost(None),
            dials: Ghost(Seq::empty()),
            primary: Ghost(Ok(())),
            le_started: Ghost(false),
            le_name_answer: Ghost(None),
            le_polls: Ghost(Seq::empty()),
        }
    }

    /// Use another adapter.
    pub fn with_adapter(self, adapter: &str) -> (r: Self)
        ensures
            self.wf() ==> r.wf(),
            r.spec_adapter() == adapter@,
            r.spec_connected() == self.spec_connected(),
            r.spec_policy() == self.spec_policy(),
            r.spec_polls() == self.spec_polls(),
    {
        let mut s = self;
        s.adapter = string_of(chars_of(adapter).as_slice());
        s
    }

    /// Override the discovery bounds (scan polls, grace polls after the first
    /// candidate, LE-fallback polls).
    pub fn with_discovery_polls(self, scan: u32, grace: u32, le_fallback: u32) -> (r: Self)
        ensures
            self.wf() ==> r.wf(),
            r.spec_polls() == (scan, grace, le_fallback),
            r.spec_adapter() == self.spec_adapter(),
            r.spec_connected() == self.spec_connected(),
            r.spec_policy() == self.spec_policy(),
    {
        let mut s = self;
        s.scan_polls = scan;
        s.grace_polls = grace;
        s.le_fallback_polls = le_fallback;
        s
    }

    fn clear_connection(&mut self)
        ensures
            final(self).same_search(old(self)),
            final(self).spec_dials() == old(self).spec_dials(),
            !final(self).spec_connected(),
            !final(self).spec_model_known(),
            final(self).spec_chars() == Seq::<(Seq<char>, Seq<char>)>::empty(),
            final(self).wf(),
            final(self).spec_opt_in() == old(self).spec_opt_in(),
            final(self).spec_policy() == old(self).spec_policy(),
            final(self).spec_adapter() == old(self).spec_adapter(),
            final(self).spec_polls() == old(self).spec_polls(),
    {
        self.device_path = None;
        self.chars = Vec::new();
        self.connected_model_known = false;
        assert(self.spec_chars() =~= Seq::<(Seq<char>, Seq<char>)>::empty());
    }

    /// Resolve the characteristics of the main service of the connected device:
    /// the last child object of the device with the main service UUID, then every
    /// characteristic below it.
    fn resolve_chars(&mut self) -> (r: Result<(), TransportError>)
        requires
            old(self).spec_connected(),
        ensures
            final(self).same_search(old(self)),
            final(self).spec_dials() == old(self).spec_dials(),
            final(self).spec_connected(),
            final(self).spec_device_path() == old(self).spec_device_path(),
            final(self).spec_model_known() == old(self).spec_model_known(),
            final(self).spec_evidence() == old(self).spec_evidence(),
            final(self).spec_opt_in() == old(self).spec_opt_in(),
            final(self).spec_policy() == old(self).spec_policy(),
            final(self).spec_adapter() == old(self).spec_adapter(),
            final(self).spec_polls() == old(self).spec_polls(),
            r is Err ==> final(self).spec_chars() == old(self).spec_chars(),
            r is Ok ==> exists|objects: Seq<BlueZObject>|
                #[trigger] spec_service_chars(objects, old(self).spec_device_path().unwrap()) == Some(
                    final(self).spec_chars(),
                ),
    {
        let device = match &self.device_path {
            Some(p) => string_of(chars_of(p.as_str()).as_slice()),
            None => return Err(TransportError::Disconnected),
        };
        assert(Some(device@) == old(self).spec_device_path());
        let objects = self.bus.managed_objects()?;
        let chars = service_chars(&objects, device.as_str())?;
        self.chars = chars;
        assert(spec_service_chars(objects@, old(self).spec_device_path().unwrap()) == Some(self.spec_chars()));
        Ok(())
    }

    /// Model evidence for a device path: its Alias/Name must prove the model.
    /// Absent evidence (or an unreachable bus) never upgrades to known.
    fn device_model_known(&self, path: &str) -> (r: (bool, Ghost<Option<Seq<BlueZObject>>>))
        ensures
            r.0 == evidence_proves_model(r.1@, path@),
    {
        let objects = match self.bus.managed_objects() {
            Ok(objects) => objects,
            Err(_) => return (false, Ghost(None)),
        };
        (model_known_at(&objects, path), Ghost(Some(objects@)))
    }

    /// The resolved path of a characteristic (case-insensitive UUID).
    fn char_path(&self, char_uuid: &str) -> (r: Result<String, TransportError>)
        ensures
            match spec_char_lookup(self.spec_chars(), ascii_lower_seq(char_uuid@)) {
                Some(p) => r matches Ok(s) && s@ == p,
                None => r matches Err(TransportError::NotFound(u)) && u@ == char_uuid@,
            },
    {
        let key = ascii_lower_chars(chars_of(char_uuid).as_slice());
        let ghost all = self.spec_chars();
        let mut i: usize = self.chars.len();
        assert(all.take(i as int) =~= all);
        while i > 0
            invariant
                i <= self.chars@.len(),
                all == self.spec_chars(),
                all.len() == self.chars@.len(),
                key@ == ascii_lower_seq(char_uuid@),
                spec_char_lookup(all, key@) == spec_char_lookup(all.take(i as int), key@),
            decreases i,
        {
            let ghost pre = all.take(i as int);
            assert(pre.last() == all[i - 1]);
            assert(pre.drop_last() =~= all.take(i - 1));
            if chars_eq(chars_of(self.chars[i - 1].0.as_str()).as_slice(), key.as_slice()) {
                return Ok(string_of(chars_of(self.chars[i - 1].1.as_str()).as_slice()));
            }
            i = i - 1;
        }
        Err(TransportError::NotFound(string_of(chars_of(char_uuid).as_slice())))
    }

    /// Connect one device object and resolve its vendor characteristics. Leaves
    /// the transport fully disconnected on any failure.
    fn try_connect_path(&mut self, path: &str) -> (r: Result<(), TransportError>)
        ensures
            final(self).same_search(old(self)),
            final(self).spec_dials() == old(self).spec_dials().push((path@, r is Ok)),
            r is Ok ==> final(self).spec_connected() && final(self).spec_device_path() == Some(
                path@,
            ) && final(self).spec_model_known() == evidence_proves_model(final(self).spec_evidence(), path@),
            r is Err ==> !final(self).spec_connected() && !final(self).spec_model_known()
                && final(self).spec_chars().len() == 0,
            old(self).wf() ==> final(self).wf(),
            final(self).spec_opt_in() == old(self).spec_opt_in(),
            final(self).spec_policy() == old(self).spec_policy(),
            final(self).spec_adapter() == old(self).spec_adapter(),
            final(self).spec_polls() == old(self).spec_polls(),
    {
        match self.bus.device_connect(path) {
            Ok(()) => {},
            Err(e) => {
                self.clear_connection();
                self.dials = Ghost(self.dials@.push((path@, false)));
                return Err(e);
            },
        }
        self.device_path = Some(string_of(chars_of(path).as_slice()));
        let (known, evidence) = self.device_model_known(path);
        self.connected_model_known = known;
        self.evidence = evidence;
        match self.resolve_chars() {
            Ok(()) => {
                self.dials = Ghost(self.dials@.push((path@, true)));
                Ok(())
            },
            Err(e) => {
                self.clear_connection();
                self.dials = Ghost(self.dials@.push((path@, false)));
                Err(e)
            },
        }
    }

    /// The display name of the object at `path`, if the bus knows it, and the
    /// object tree it was read from.
    fn name_at_path(&self, path: &str) -> (r: (Option<String>, Ghost<Option<Seq<BlueZObject>>>))
        ensures
            opt_name(r.0) == name_in_answer(r.1@, path@),
    {
        let objects = match self.bus.managed_objects() {
            Ok(o) => o,
            Err(_) => return (None, Ghost(None)),
        };
        (name_at(&objects, path), Ghost(Some(objects@)))
    }

    /// Bounded discovery for a BLE identity carrying the vendor GATT service:
    /// devices with the same (non-empty) display name as the requested one, or
    /// advertising the main service. Strongest RSSI first, each address tried once.
    fn find_le_identity(&mut self, selected_address: &str, selected_name: &Option<String>) -> (r:
        bool)
        requires
            !old(self).spec_connected(),
            old(self).wf(),
        ensures
            r == final(self).spec_connected(),
            !r ==> !final(self).spec_model_known(),
            r ==> final(self).spec_model_known() == evidence_proves_model(
                final(self).spec_evidence(),
                final(self).spec_device_path().unwrap(),
            ),
            final(self).wf(),
            final(self).spec_opt_in() == old(self).spec_opt_in(),
            final(self).spec_policy() == old(self).spec_policy(),
            final(self).spec_adapter() == old(self).spec_adapter(),
            final(self).spec_polls() == old(self).spec_polls(),
            final(self).spec_primary() == old(self).spec_primary(),
            final(self).spec_le_name_answer() == old(self).spec_le_name_answer(),
            le_search(
                final(self).spec_le_polls(),
                selected_address@,
                opt_name(*selected_name),
                final(self).spec_le_started(),
                old(self).spec_polls().2,
                r,
            ),
            final(self).spec_dials() == old(self).spec_dials() + le_dials(final(self).spec_le_polls(), old(self).spec_adapter()),
            r ==> final(self).spec_device_path() == Some(final(self).spec_dials().last().0),
    {
        let ghost name = opt_name(*selected_name);
        let ghost start_dials = self.dials@;
        self.le_polls = Ghost(Seq::empty());
        self.le_started = Ghost(false);
        let adapter = string_of(chars_of(self.adapter.as_str()).as_slice());
        if self.bus.start_discovery(adapter.as_str()).is_err() {
            assert(self.dials@ =~= start_dials + le_dials(self.le_polls@, old(self).spec_adapter()));
            return false;
        }
        self.le_started = Ghost(true);
        let mut tried: Vec<Vec<char>> = Vec::new();
        tried.push(chars_of(selected_address));
        assert(tried@.map_values(|t: Vec<char>| t@) =~= seq![selected_address@]);
        assert(self.dials@ =~= start_dials + le_dials(self.le_polls@, old(self).spec_adapter()));
        let mut polls: u32 = 0;
        let mut connected = false;
        loop
            invariant_except_break
                !connected,
                self.le_polls@.len() == polls as int,
                self.le_polls@.len() > 0 ==> !self.le_polls@.last().connected,
                tried@.map_values(|t: Vec<char>| t@) == tried_after(self.le_polls@, selected_address@),
            invariant
                connected == self.spec_connected(),
                !connected ==> !self.spec_model_known(),
                connected ==> self.spec_model_known() == evidence_proves_model(
                    self.spec_evidence(),
                    self.spec_device_path().unwrap(),
                ),
                self.wf(),
                self.spec_opt_in() == old(self).spec_opt_in(),
                self.spec_policy() == old(self).spec_policy(),
                self.spec_adapter() == old(self).spec_adapter(),
                self.spec_polls() == old(self).spec_polls(),
                self.spec_primary() == old(self).spec_primary(),
                self.spec_le_name_answer() == old(self).spec_le_name_answer(),
                self.le_started@,
                name == opt_name(*selected_name),
                adapter@ == self.spec_adapter(),
                polls <= self.le_fallback_polls,
                polls_ok(self.le_polls@, selected_address@, name),
                self.dials@ == start_dials + le_dials(self.le_polls@, old(self).spec_adapter()),
                connected ==> self.spec_device_path() == Some(self.dials@.last().0),
            ensures
                le_search(self.le_polls@, selected_address@, name, true, self.le_fallback_polls, connected),
            decreases self.le_fallback_polls - polls,
        {
            let ghost tried0 = tried@.map_values(|t: Vec<char>| t@);
            let ghost polls_at = self.le_polls@;
            let ghost mut answer: Option<Seq<BlueZObject>> = None;
            let mut candidates: Vec<(Vec<char>, Option<i16>)> = match self.bus.managed_objects() {
                Ok(objects) => {
                    proof {
                        answer = Some(objects@);
                    }
                    le_candidates(&objects, &tried, selected_name)
                },
                Err(_) => Vec::new(),
            };
            let ghost cur0 = LePoll { answer, tried: tried0, tries: Seq::empty(), connected: false };
            let ghost full = strongest_order(poll_candidates(cur0, name), tried0);
            let ghost mut tries: Seq<Seq<char>> = Seq::empty();
            assert(cand_view(candidates@) == poll_candidates(cur0, name));
            assert(poll_dials(cur0, old(self).spec_adapter()) =~= Seq::<(Seq<char>, bool)>::empty());
            while candidates.len() > 0 && !connected
                invariant
                    connected == self.spec_connected(),
                    !connected ==> !self.spec_model_known(),
                    connected ==> self.spec_model_known() == evidence_proves_model(
                        self.spec_evidence(),
                        self.spec_device_path().unwrap(),
                    ),
                    self.wf(),
                    self.spec_opt_in() == old(self).spec_opt_in(),
                    self.spec_policy() == old(self).spec_policy(),
                    self.spec_adapter() == old(self).spec_adapter(),
                    self.spec_polls() == old(self).spec_polls(),
                    self.spec_primary() == old(self).spec_primary(),
                    self.spec_le_name_answer() == old(self).spec_le_name_answer(),
                    self.le_started@,
                    adapter@ == self.spec_adapter(),
                    polls <= self.le_fallback_polls,
                    self.le_polls@ == polls_at,
                    polls_at.len() == polls as int,
                    polls_at.len() > 0 ==> !polls_at.last().connected,
                    polls_ok(polls_at, selected_address@, name),
                    tried0 == tried_after(polls_at, selected_address@),
                    name == opt_name(*selected_name),
                    cand_view(candidates@).len() == candidates@.len(),
                    tried@.map_values(|t: Vec<char>| t@) == tried0 + tries,
                    !connected ==> tries + strongest_order(cand_view(candidates@), tried0 + tries) == full,
                    connected ==> 0 < tries.len() <= full.len() && tries == full.take(tries.len() as int),
                    self.dials@ == start_dials + le_dials(self.le_polls@, old(self).spec_adapter())
                        + poll_dials(LePoll { answer, tried: tried0, tries, connected }, old(self).spec_adapter()),
                    connected ==> self.spec_device_path() == Some(self.dials@.last().0),
                decreases candidates@.len(),
            {
                let best = strongest_first(&candidates);
                let ghost cv = cand_view(candidates@);
                let ghost tv = tried@.map_values(|t: Vec<char>| t@);
                proof {
                    lemma_best_index(cv);
                }
                let (address, _) = candidates.remove(best);
                proof {
                    assert(cand_view(candidates@) =~= cv.remove(best as int));
                    assert(cv[best as int].0 == address@);
                }
                if !contains_address(&tried, &address) {
                    let path = device_path(adapter.as_str(), string_of(address.as_slice()).as_str());
                    let ghost dials0 = self.dials@;
                    let ghost before = LePoll { answer, tried: tried0, tries, connected: false };
                    tried.push(address);
                    let ok = self.try_connect_path(path.as_str()).is_ok();
                    proof {
                        let a = cv[best as int].0;
                        let after = LePoll { answer, tried: tried0, tries: tries.push(a), connected: ok };
                        assert(poll_dials(after, old(self).spec_adapter()) =~= poll_dials(before, old(self).spec_adapter()).push(
                            (spec_device_path(old(self).spec_adapter(), a), ok),
                        ));
                        assert(self.dials@ =~= start_dials + le_dials(self.le_polls@, old(self).spec_adapter())
                            + poll_dials(after, old(self).spec_adapter()));
                        assert(tried@.map_values(|t: Vec<char>| t@) =~= tv.push(a));
                        assert(strongest_order(cv, tv) == seq![a] + strongest_order(cv.remove(best as int), tv.push(a)));
                        assert(tv.push(a) =~= tried0 + tries.push(a));
                        assert(tries + (seq![a] + strongest_order(cv.remove(best as int), tv.push(a))) =~= tries.push(a) + strongest_order(cv.remove(best as int), tv.push(a)));
                        if ok {
                            assert((tries.push(a) + strongest_order(cv.remove(best as int), tv.push(a))).take(tries.len() + 1int) =~= tries.push(a));
                        } else {
                            assert(tries + (seq![a] + strongest_order(cv.remove(best as int), tv.push(a))) =~= tries.push(a) + strongest_order(cv.remove(best as int), tv.push(a)));
                        }
                        tries = tries.push(a);
                    }
                    if ok {
                        connected = true;
                    }
                } else {
                    proof {
                        assert(strongest_order(cv, tv) == strongest_order(cv.remove(best as int), tv));
                    }
                }
            }
            let ghost cur = LePoll { answer, tried: tried0, tries, connected };
            let ghost np = self.le_polls@.push(cur);
            proof {
                if !connected {
                    assert(strongest_order(cand_view(candidates@), tried0 + tries) =~= Seq::<Seq<char>>::empty());
                    assert(tries + Seq::<Seq<char>>::empty() =~= tries);
                }
                assert(poll_candidates(cur, name) == poll_candidates(cur0, name));
                assert(poll_ok(cur, name));
                assert(np.drop_last() =~= self.le_polls@);
                assert(np.last() == cur);
                assert(tried_after(np, selected_address@) == tried_after(self.le_polls@, selected_address@) + tries);
                assert(le_dials(np, old(self).spec_adapter()) == le_dials(self.le_polls@, old(self).spec_adapter()) + poll_dials(cur, old(self).spec_adapter()));
                assert(self.dials@ =~= start_dials + le_dials(np, old(self).spec_adapter()));
                assert(polls_ok(np, selected_address@, name));
            }
            self.le_polls = Ghost(np);
            if connected || polls >= self.le_fallback_polls {
                break;
            }
            self.bus.discovery_pause();
            polls = polls + 1;
        }
        let _ = self.bus.stop_discovery(adapter.as_str());
        connected
    }
}

/// An object below the device path `dp` (which ends in `/`) that is the vendor
/// main GATT service.
pub open spec fn is_main_service_of(obj: BlueZObject, dp: Seq<char>) -> bool {
    &&& has_prefix(obj.path@, dp)
    &&& spec_prop_str(obj, SERVICE_IFACE@, "UUID"@) matches Some(u) && ascii_lower_seq(u)
        == ascii_lower_seq(SERVICE_MAIN@)
}

/// The path of the last main-service object below `dp`.
pub open spec fn main_service(objs: Seq<BlueZObject>, dp: Seq<char>) -> Option<Seq<char>>
    decreases objs.len(),
{
    if objs.len() == 0 {
        None
    } else if is_main_service_of(objs.last(), dp) {
        Some(objs.last().path@)
    } else {
        main_service(objs.drop_last(), dp)
    }
}

/// The characteristics below `prefix`, in object order, as (lowercase UUID, path).
pub open spec fn chars_under(objs: Seq<BlueZObject>, prefix: Seq<char>) -> Seq<(Seq<char>, Seq<char>)>
    decreases objs.len(),
{
    if objs.len() == 0 {
        Seq::empty()
    } else {
        let prev = chars_under(objs.drop_last(), prefix);
        let o = objs.last();
        if has_prefix(o.path@, prefix) && spec_prop_str(o, CHAR_IFACE@, "UUID"@) is Some {
            prev.push((ascii_lower_seq(spec_prop_str(o, CHAR_IFACE@, "UUID"@).unwrap()), o.path@))
        } else {
            prev
        }
    }
}

/// The characteristics of a device's main service in an object tree; `None`
/// when the device has no main service.
pub open spec fn spec_service_chars(objs: Seq<BlueZObject>, device: Seq<char>) -> Option<Seq<(Seq<char>, Seq<char>)>> {
    match main_service(objs, device.push('/')) {
        None => None,
        Some(sp) => Some(chars_under(objs, sp.push('/'))),
    }
}

/// The characteristics of the device's main service in an object tree; a
/// missing main service is `NotFound`.
fn service_chars(objects: &Vec<BlueZObject>, device: &str) -> (r: Result<Vec<(String, String)>, TransportError>)
    ensures
        match spec_service_chars(objects@, device@) {
            None => r matches Err(TransportError::NotFound(m)) && m@ == "main GATT service"@,
            Some(cs) => r matches Ok(v) && v@.map_values(|e: (String, String)| (e.0@, e.1@)) == cs,
        },
{
    let mut dev = chars_of(device);
    dev.push('/');
    let mut service_path: Option<Vec<char>> = None;
    let mut i: usize = 0;
    assert(objects@.take(0) =~= Seq::<BlueZObject>::empty());
    while i < objects.len()
        invariant
            i <= objects@.len(),
            dev@ == device@.push('/'),
            match service_path {
                Some(sp) => main_service(objects@.take(i as int), dev@) == Some(sp@),
                None => main_service(objects@.take(i as int), dev@) is None,
            },
        decreases objects@.len() - i,
    {
        assert(objects@.take(i + 1).drop_last() =~= objects@.take(i as int));
        assert(objects@.take(i + 1).last() == objects@[i as int]);
        let path = chars_of(objects[i].path.as_str());
        if starts_with_chars(path.as_slice(), dev.as_slice()) {
            match prop_str(&objects[i], SERVICE_IFACE, "UUID") {
                Some(uuid) => {
                    if eq_ignore_ascii_case(uuid, SERVICE_MAIN) {
                        service_path = Some(path);
                    }
                },
                None => {},
            }
        }
        i = i + 1;
    }
    assert(objects@.take(objects@.len() as int) =~= objects@);
    let mut prefix = match service_path {
        Some(sp) => sp,
        None => {
            return Err(
                TransportError::NotFound(string_of(chars_of("main GATT service").as_slice())),
            );
        },
    };
    prefix.push('/');
    let mut chars: Vec<(String, String)> = Vec::new();
    let mut j: usize = 0;
    while j < objects.len()
        invariant
            j <= objects@.len(),
            chars@.map_values(|e: (String, String)| (e.0@, e.1@)) == chars_under(objects@.take(j as int), prefix@),
        decreases objects@.len() - j,
    {
        assert(objects@.take(j + 1).drop_last() =~= objects@.take(j as int));
        assert(objects@.take(j + 1).last() == objects@[j as int]);
        let ghost prev = chars@.map_values(|e: (String, String)| (e.0@, e.1@));
        let path = chars_of(objects[j].path.as_str());
        if starts_with_chars(path.as_slice(), prefix.as_slice()) {
            match prop_str(&objects[j], CHAR_IFACE, "UUID") {
                Some(uuid) => {
                    let lower = ascii_lower_chars(chars_of(uuid).as_slice());
                    let entry = (string_of(lower.as_slice()), string_of(path.as_slice()));
                    chars.push(entry);
                    assert(chars@.map_values(|e: (String, String)| (e.0@, e.1@)) =~= prev.push((lower@, path@)));
                },
                None => {},
            }
        }
        j = j + 1;
    }
    assert(objects@.take(objects@.len() as int) =~= objects@);
    Ok(chars)
}

/// The display name of the first object at `path`.
pub open spec fn spec_name_at(objs: Seq<BlueZObject>, path: Seq<char>) -> Option<Seq<char>>
    decreases objs.len(),
{
    if objs.len() == 0 {
        None
    } else if objs[0].path@ == path {
        spec_device_name(objs[0])
    } else {
        spec_name_at(objs.drop_first(), path)
    }
}

/// The display name of the first object at `path` in an object tree.
fn name_at(objects: &Vec<BlueZObject>, path: &str) -> (r: Option<String>)
    ensures
        opt_name(r) == spec_name_at(objects@, path@),
{
    let want = chars_of(path);
    let mut i: usize = 0;
    assert(objects@.skip(0) =~= objects@);
    while i < objects.len()
        invariant
            i <= objects@.len(),
            want@ == path@,
            spec_name_at(objects@, path@) == spec_name_at(objects@.skip(i as int), path@),
        decreases objects@.len() - i,
    {
        let ghost rest = objects@.skip(i as int);
        assert(rest[0] == objects@[i as int]);
        assert(rest.drop_first() =~= objects@.skip(i + 1));
        if chars_eq(chars_of(objects[i].path.as_str()).as_slice(), want.as_slice()) {
            return match device_name_of(&objects[i]) {
                Some(n) => Some(string_of(chars_of(n).as_slice())),
                None => None,
            };
        }
        i = i + 1;
    }
    None
}

/// Whether the first object at `path` has a name that proves the model; no
/// object or no name is no evidence.
fn model_known_at(objects: &Vec<BlueZObject>, path: &str) -> (r: bool)
    ensures
        r == (spec_name_at(objects@, path@) matches Some(n) && spec_is_known_model(n)),
{
    match name_at(objects, path) {
        Some(n) => is_known_model(n.as_str()),
        None => false,
    }
}

/// Whether an object tree proves the model of the device at `path`: the first
/// object there has a name of a known model. No tree is no evidence.
pub open spec fn evidence_proves_model(objects: Option<Seq<BlueZObject>>, path: Seq<char>) -> bool {
    match objects {
        Some(objs) => spec_name_at(objs, path) matches Some(n) && spec_is_known_model(n),
        None => false,
    }
}

/// The view of an optional name.
pub open spec fn opt_name(o: Option<String>) -> Option<Seq<char>> {
    match o {
        Some(n) => Some(n@),
        None => None,
    }
}

/// The device's display name equals the (non-empty) name the user selected,
/// ignoring ASCII case.
pub open spec fn le_name_matches(obj: BlueZObject, selected_name: Option<Seq<char>>) -> bool {
    match (selected_name, spec_device_name(obj)) {
        (Some(o), Some(n)) => o.len() > 0 && ascii_lower_seq(n) == ascii_lower_seq(o),
        _ => false,
    }
}

/// A device object worth trying as the BLE identity of the selected earbuds:
/// an address not tried yet, and the same name or the vendor main service.
pub open spec fn is_le_candidate(obj: BlueZObject, tried: Seq<Seq<char>>, selected_name: Option<Seq<char>>) -> bool {
    &&& spec_iface_props(obj, DEVICE_IFACE@) is Some
    &&& spec_prop_str(obj, DEVICE_IFACE@, "Address"@) matches Some(a) && !tried.contains(a)
    &&& le_name_matches(obj, selected_name) || spec_advertises_main_service(obj)
}

/// The BLE identity candidates among device objects, in object order, each
/// with its address and RSSI.
pub open spec fn le_candidates_of(
    objs: Seq<BlueZObject>,
    tried: Seq<Seq<char>>,
    selected_name: Option<Seq<char>>,
) -> Seq<(Seq<char>, Option<i16>)>
    decreases objs.len(),
{
    if objs.len() == 0 {
        Seq::empty()
    } else {
        let prev = le_candidates_of(objs.drop_last(), tried, selected_name);
        if is_le_candidate(objs.last(), tried, selected_name) {
            prev.push((spec_prop_str(objs.last(), DEVICE_IFACE@, "Address"@).unwrap(), spec_rssi(objs.last())))
        } else {
            prev
        }
    }
}

fn le_candidate(obj: &BlueZObject, tried: &Vec<Vec<char>>, selected_name: &Option<String>) -> (r: Option<(Vec<char>, Option<i16>)>)
    ensures
        ({
            let tv = tried@.map_values(|t: Vec<char>| t@);
            let ov = opt_name(*selected_name);
            &&& r is Some <==> is_le_candidate(*obj, tv, ov)
            &&& r matches Some(c) ==> Some(c.0@) == spec_prop_str(*obj, DEVICE_IFACE@, "Address"@) && c.1 == spec_rssi(*obj)
        }),
{
    if find_props(obj, DEVICE_IFACE).is_none() {
        return None;
    }
    let address = match prop_str(obj, DEVICE_IFACE, "Address") {
        Some(a) => chars_of(a),
        None => return None,
    };
    if contains_address(tried, &address) {
        return None;
    }
    let name_matches = match (selected_name, device_name_of(obj)) {
        (Some(orig), Some(name)) => orig.unicode_len() != 0 && eq_ignore_ascii_case(name, orig.as_str()),
        _ => false,
    };
    if !name_matches && !advertises_main_service(obj) {
        return None;
    }
    Some((address, rssi_of(obj)))
}

/// The BLE identity candidates among the device objects, in object order.
fn le_candidates(objects: &Vec<BlueZObject>, tried: &Vec<Vec<char>>, selected_name: &Option<String>) -> (r: Vec<(Vec<char>, Option<i16>)>)
    ensures
        r@.map_values(|c: (Vec<char>, Option<i16>)| (c.0@, c.1)) == le_candidates_of(
            objects@,
            tried@.map_values(|t: Vec<char>| t@),
            opt_name(*selected_name),
        ),
{
    let ghost tv = tried@.map_values(|t: Vec<char>| t@);
    let ghost ov = opt_name(*selected_name);
    let mut out: Vec<(Vec<char>, Option<i16>)> = Vec::new();
    let mut i: usize = 0;
    assert(objects@.take(0) =~= Seq::<BlueZObject>::empty());
    while i < objects.len()
        invariant
            i <= objects@.len(),
            tv == tried@.map_values(|t: Vec<char>| t@),
            ov == opt_name(*selected_name),
            out@.map_values(|c: (Vec<char>, Option<i16>)| (c.0@, c.1)) == le_candidates_of(objects@.take(i as int), tv, ov),
        decreases objects@.len() - i,
    {
        let ghost prev = out@.map_values(|c: (Vec<char>, Option<i16>)| (c.0@, c.1));
        assert(objects@.take(i + 1).drop_last() =~= objects@.take(i as int));
        assert(objects@.take(i + 1).last() == objects@[i as int]);
        match le_candidate(&objects[i], tried, selected_name) {
            Some(c) => {
                out.push(c);
                assert(out@.map_values(|c: (Vec<char>, Option<i16>)| (c.0@, c.1)) =~= prev.push((c.0@, c.1)));
            },
            None => {},
        }
        i = i + 1;
    }
    assert(objects@.take(objects@.len() as int) =~= objects@);
    out
}

/// Signal rank for ordering: reported RSSI values above "no RSSI".
pub open spec fn rssi_rank(r: Option<i16>) -> int {
    match r {
        Some(v) => v as int + 32769,
        None => 0,
    }
}

/// The view of a candidate list: (address, RSSI) pairs.
pub open spec fn cand_view(c: Seq<(Vec<char>, Option<i16>)>) -> Seq<(Seq<char>, Option<i16>)> {
    c.map_values(|x: (Vec<char>, Option<i16>)| (x.0@, x.1))
}

/// The index of the first candidate with the strongest signal (a stable
/// strongest-first order takes candidates in exactly this sequence).
pub open spec fn best_index(c: Seq<(Seq<char>, Option<i16>)>) -> int
    decreases c.len(),
{
    if c.len() <= 1 {
        0
    } else {
        let b = best_index(c.drop_last());
        if rssi_rank(c.last().1) > rssi_rank(c[b].1) {
            c.len() - 1
        } else {
            b
        }
    }
}

/// The strongest candidate lies within a non-empty list and no candidate is stronger.
pub proof fn lemma_best_index(c: Seq<(Seq<char>, Option<i16>)>)
    requires
        c.len() > 0,
    ensures
        0 <= best_index(c) < c.len(),
        forall|k: int| 0 <= k < c.len() ==> rssi_rank(#[trigger] c[k].1) <= rssi_rank(c[best_index(c)].1),
    decreases c.len(),
{
    if c.len() > 1 {
        lemma_best_index(c.drop_last());
        let b = best_index(c.drop_last());
        assert forall|k: int| 0 <= k < c.len() implies rssi_rank(#[trigger] c[k].1) <= rssi_rank(c[best_index(c)].1) by {
            if k < c.len() - 1 {
                assert(c.drop_last()[k] == c[k]);
            }
        }
    }
}

fn strongest_first(candidates: &Vec<(Vec<char>, Option<i16>)>) -> (r: usize)
    requires
        candidates@.len() > 0,
    ensures
        r as int == best_index(cand_view(candidates@)),
        r < candidates@.len(),
{
    let ghost v = cand_view(candidates@);
    let mut best: usize = 0;
    let mut i: usize = 1;
    assert(v.take(1).len() == 1);
    while i < candidates.len()
        invariant
            v == cand_view(candidates@),
            best < i <= candidates@.len(),
            best as int == best_index(v.take(i as int)),
        decreases candidates@.len() - i,
    {
        proof {
            assert(v.take(i + 1).drop_last() =~= v.take(i as int));
            assert(v.take(i + 1).last() == v[i as int]);
            assert(v.take(i + 1)[best as int] == v[best as int]);
        }
        if stronger(candidates[i].1, candidates[best].1) {
            best = i;
        }
        i = i + 1;
    }
    assert(v.take(candidates@.len() as int) =~= v);
    best
}


fn stronger(a: Option<i16>, b: Option<i16>) -> (r: bool)
    ensures
        r == (rssi_rank(a) > rssi_rank(b)),
{
    match (a, b) {
        (Some(x), Some(y)) => x > y,
        (Some(_), None) => true,
        _ => false,
    }
}

fn contains_address(tried: &Vec<Vec<char>>, address: &Vec<char>) -> (r: bool)
    ensures
        r == tried@.map_values(|t: Vec<char>| t@).contains(address@),
{
    let mut i: usize = 0;
    while i < tried.len()
        invariant
            i <= tried@.len(),
            forall|k: int| 0 <= k < i ==> (#[trigger] tried@[k])@ != address@,
        decreases tried@.len() - i,
    {
        if chars_eq(tried[i].as_slice(), address.as_slice()) {
            assert(tried@.map_values(|t: Vec<char>| t@)[i as int] == address@);
            return true;
        }
        i = i + 1;
    }
    proof {
        let m = tried@.map_values(|t: Vec<char>| t@);
        if m.contains(address@) {
            let k = choose|k: int| 0 <= k < m.len() && m[k] == address@;
            assert(tried@[k]@ == address@);
        }
    }
    false
}


/// Text appended to a `NotFound` connect error when no LE identity could be found.
pub const LE_IDENTITY_HINT: &'static str = "; if these earbuds are paired for audio only, their                  BLE identity may be asleep — open the charging case or disconnect the                  audio, then scan and connect again";

/// A discovered device as `scan` reports it: a QCY name, and `model_known`
/// exactly when that name proves the HT08 model.
pub open spec fn scan_entry_ok(d: DiscoveredDevice) -> bool {
    spec_is_qcy_name(d.name@) && d.model_known == spec_is_known_model(d.name@)
}

/// `d` is what `scan` makes of the object `obj`.
pub open spec fn candidate_of(d: DiscoveredDevice, obj: BlueZObject) -> bool {
    &&& spec_is_candidate(obj)
    &&& spec_prop_str(obj, DEVICE_IFACE@, "Address"@) == Some(d.address@)
    &&& spec_device_name(obj) == Some(d.name@)
    &&& d.rssi == spec_rssi(obj)
    &&& d.model_known == spec_is_known_model(d.name@)
}

/// Merge the scan candidates of one snapshot of the object tree into an
/// address-sorted result list (a later sighting of an address replaces the
/// earlier one).
pub fn merge_candidates(best: &mut Vec<DiscoveredDevice>, objects: &Vec<BlueZObject>)
    requires
        sorted_by_address(old(best)@),
    ensures
        sorted_by_address(final(best)@),
        forall|k: int|
            0 <= k < final(best)@.len() ==> old(best)@.contains(#[trigger] final(best)@[k])
                || exists|j: int| 0 <= j < objects@.len() && candidate_of(final(best)@[k], objects@[j]),
        forall|j: int|
            0 <= j < objects@.len() && spec_is_candidate(#[trigger] objects@[j]) ==> exists|k: int|
                0 <= k < final(best)@.len() && spec_prop_str(objects@[j], DEVICE_IFACE@, "Address"@)
                    == Some(final(best)@[k].address@),
{
    let ghost start = best@;
    let mut i: usize = 0;
    while i < objects.len()
        invariant
            i <= objects@.len(),
            sorted_by_address(best@),
            forall|k: int|
                0 <= k < best@.len() ==> start.contains(#[trigger] best@[k]) || exists|j: int|
                    0 <= j < i && candidate_of(best@[k], objects@[j]),
            forall|j: int|
                0 <= j < i && spec_is_candidate(#[trigger] objects@[j]) ==> exists|k: int|
                    0 <= k < best@.len() && spec_prop_str(objects@[j], DEVICE_IFACE@, "Address"@)
                        == Some(best@[k].address@),
        decreases objects@.len() - i,
    {
        match candidate_device(&objects[i]) {
            Some(dev) => {
                let ghost before = best@;
                let ghost d = dev;
                upsert_sorted(best, dev);
                proof {
                    assert(candidate_of(d, objects@[i as int]));
                    assert forall|k: int| 0 <= k < best@.len() implies start.contains(
                        #[trigger] best@[k],
                    ) || exists|j: int| 0 <= j < i + 1 && candidate_of(best@[k], objects@[j]) by {
                        if best@[k] == d {
                            assert(candidate_of(best@[k], objects@[i as int]));
                        } else {
                            assert(before.contains(best@[k]));
                            let m = choose|m: int| 0 <= m < before.len() && before[m] == best@[k];
                            assert(start.contains(before[m]) || exists|j: int|
                                0 <= j < i && candidate_of(before[m], objects@[j]));
                        }
                    }
                    assert forall|j: int| 0 <= j < i + 1 && spec_is_candidate(
                        #[trigger] objects@[j],
                    ) implies exists|k: int|
                        0 <= k < best@.len() && spec_prop_str(objects@[j], DEVICE_IFACE@, "Address"@)
                            == Some(best@[k].address@) by {
                        if j == i {
                            let k = choose|k: int| 0 <= k < best@.len() && best@[k] == d;
                            assert(spec_prop_str(objects@[j], DEVICE_IFACE@, "Address"@) == Some(
                                best@[k].address@,
                            ));
                        } else {
                            let k0 = choose|k: int|
                                0 <= k < before.len() && spec_prop_str(
                                    objects@[j],
                                    DEVICE_IFACE@,
                                    "Address"@,
                                ) == Some(before[k].address@);
                            if before[k0].address@ == d.address@ {
                                let k = choose|k: int| 0 <= k < best@.len() && best@[k] == d;
                                assert(spec_prop_str(objects@[j], DEVICE_IFACE@, "Address"@)
                                    == Some(best@[k].address@));
                            } else {
                                assert(best@.contains(before[k0]));
                                let k = choose|k: int| 0 <= k < best@.len() && best@[k] == before[k0];
                                assert(spec_prop_str(objects@[j], DEVICE_IFACE@, "Address"@)
                                    == Some(best@[k].address@));
                            }
                        }
                    }
                }
            },
            None => {
                proof {
                    assert forall|j: int| 0 <= j < i + 1 && spec_is_candidate(
                        #[trigger] objects@[j],
                    ) implies exists|k: int|
                        0 <= k < best@.len() && spec_prop_str(objects@[j], DEVICE_IFACE@, "Address"@)
                            == Some(best@[k].address@) by {
                        assert(j != i);
                    }
                    assert forall|k: int| 0 <= k < best@.len() implies start.contains(
                        #[trigger] best@[k],
                    ) || exists|j: int| 0 <= j < i + 1 && candidate_of(best@[k], objects@[j]) by {
                        if !start.contains(best@[k]) {
                            let j0 = choose|j: int| 0 <= j < i && candidate_of(best@[k], objects@[j]);
                            assert(0 <= j0 < i + 1 && candidate_of(best@[k], objects@[j0]));
                        }
                    }
                }
            },
        }
        i = i + 1;
    }
}

impl<B: BlueZBus> Transport for BlueZTransport<B> {
    /// Bounded discovery: the object tree is watched for at most the scan polls,
    /// and for the grace polls once a first candidate appeared. The result is
    /// strictly ordered by address and lists QCY-named devices only, each marked
    /// model-known exactly when its name proves the HT08 model.
    fn scan(&mut self) -> (r: Result<Vec<DiscoveredDevice>, TransportError>)
        ensures
            *final(self) == *old(self),
            r matches Ok(list) ==> sorted_by_address(list@) && forall|k: int|
                0 <= k < list@.len() ==> scan_entry_ok(#[trigger] list@[k]),
    {
        self.bus.start_discovery(self.adapter.as_str())?;
        let mut best: Vec<DiscoveredDevice> = Vec::new();
        let mut polls: u32 = 0;
        let mut seen_at: Option<u32> = None;
        loop
            invariant
                sorted_by_address(best@),
                forall|k: int| 0 <= k < best@.len() ==> scan_entry_ok(#[trigger] best@[k]),
                polls <= self.scan_polls,
                seen_at matches Some(p) ==> p <= polls,
            decreases self.scan_polls - polls,
        {
            let objects = self.bus.managed_objects()?;
            let ghost before = best@;
            merge_candidates(&mut best, &objects);
            proof {
                assert forall|k: int| 0 <= k < best@.len() implies scan_entry_ok(
                    #[trigger] best@[k],
                ) by {
                    if !before.contains(best@[k]) {
                        let j = choose|j: int|
                            0 <= j < objects@.len() && candidate_of(best@[k], objects@[j]);
                        assert(candidate_of(best@[k], objects@[j]));
                    }
                }
            }
            if best.len() > 0 && seen_at.is_none() {
                seen_at = Some(polls);
            }
            let grace_done = match seen_at {
                Some(p) => polls - p >= self.grace_polls,
                None => false,
            };
            if grace_done || polls >= self.scan_polls {
                break;
            }
            self.bus.discovery_pause();
            polls = polls + 1;
        }
        self.bus.stop_discovery(self.adapter.as_str())?;
        Ok(best)
    }

    /// Connects the device object of the address; when that fails, searches for
    /// the BLE identity of a dual-mode device. A `NotFound` failure carries a hint
    /// on how to wake the BLE side. On failure nothing stays connected.
    fn connect(&mut self, address: &str) -> (r: Result<(), TransportError>)
        ensures
            old(self).wf() ==> final(self).wf(),
            r is Ok <==> final(self).spec_connected(),
            r is Err ==> !final(self).spec_model_known(),
            r is Ok ==> final(self).spec_model_known() == evidence_proves_model(
                final(self).spec_evidence(),
                final(self).spec_device_path().unwrap(),
            ),
            r matches Err(TransportError::NotFound(m)) ==> has_suffix(m@, LE_IDENTITY_HINT@),
            ({
                let dials = final(self).spec_dials();
                let primary = spec_device_path(old(self).spec_adapter(), address@);
                &&& dials.len() > 0
                &&& dials[0] == (primary, final(self).spec_primary() is Ok)
                &&& final(self).spec_primary() is Ok ==> r is Ok && dials.len() == 1
                    && !final(self).spec_le_started() && final(self).spec_le_polls().len() == 0
                &&& final(self).spec_primary() is Err ==> dials.drop_first() == le_dials(
                    final(self).spec_le_polls(),
                    old(self).spec_adapter(),
                ) && le_search(
                    final(self).spec_le_polls(),
                    address@,
                    name_in_answer(final(self).spec_le_name_answer(), primary),
                    final(self).spec_le_started(),
                    old(self).spec_polls().2,
                    r is Ok,
                )
                &&& r is Ok ==> final(self).spec_device_path() == Some(dials.last().0)
            }),
            r matches Err(e) ==> match final(self).spec_primary() {
                Err(TransportError::NotFound(w)) => e matches TransportError::NotFound(m) && m@ == w@
                    + " for "@ + address@ + LE_IDENTITY_HINT@,
                Err(p) => e == p,
                Ok(()) => false,
            },
            final(self).spec_opt_in() == old(self).spec_opt_in(),
            final(self).spec_policy() == old(self).spec_policy(),
            final(self).spec_adapter() == old(self).spec_adapter(),
            final(self).spec_polls() == old(self).spec_polls(),
    {
        self.dials = Ghost(Seq::empty());
        self.le_started = Ghost(false);
        self.le_polls = Ghost(Seq::empty());
        let adapter = string_of(chars_of(self.adapter.as_str()).as_slice());
        let path = device_path(adapter.as_str(), address);
        let primary = self.try_connect_path(path.as_str());
        self.primary = Ghost(primary);
        assert(self.dials@ =~= seq![(path@, primary is Ok)]);
        match primary {
            Ok(()) => {
                return Ok(());
            },
            Err(_) => {},
        }
        let (selected_name, answer) = self.name_at_path(path.as_str());
        self.le_name_answer = answer;
        let ghost d1 = self.dials@;
        if self.find_le_identity(address, &selected_name) {
            assert(self.dials@.drop_first() =~= le_dials(self.le_polls@, old(self).spec_adapter()));
            return Ok(());
        }
        assert(self.dials@.drop_first() =~= le_dials(self.le_polls@, old(self).spec_adapter()));
        match primary {
            Err(TransportError::NotFound(what)) => {
                let mut msg: Vec<char> = Vec::new();
                append_str(&mut msg, what.as_str());
                append_str(&mut msg, " for ");
                append_str(&mut msg, address);
                let ghost head = msg@;
                append_str(&mut msg, LE_IDENTITY_HINT);
                proof {
                    assert(msg@.subrange(
                        msg@.len() - LE_IDENTITY_HINT@.len(),
                        msg@.len() as int,
                    ) =~= LE_IDENTITY_HINT@);
                }
                Err(TransportError::NotFound(string_of(msg.as_slice())))
            },
            Err(e) => Err(e),
            Ok(()) => Ok(()),
        }
    }

    /// Forgets the connection (characteristics and model evidence first), then
    /// asks the bus to disconnect the device.
    fn disconnect(&mut self) -> (r: Result<(), TransportError>)
        ensures
            final(self).wf(),
            !final(self).spec_connected(),
            !final(self).spec_model_known(),
            !old(self).spec_connected() ==> r is Ok,
            final(self).spec_opt_in() == old(self).spec_opt_in(),
            final(self).spec_policy() == old(self).spec_policy(),
            final(self).spec_adapter() == old(self).spec_adapter(),
            final(self).spec_polls() == old(self).spec_polls(),
    {
        match self.device_path.take() {
            Some(path) => {
                self.clear_connection();
                self.bus.device_disconnect(path.as_str())
            },
            None => {
                self.clear_connection();
                Ok(())
            },
        }
    }

    /// Reads the resolved characteristic of the UUID (case-insensitive);
    /// an unresolved UUID is `NotFound`.
    fn read(&mut self, char_uuid: &str) -> (r: Result<Vec<u8>, TransportError>)
        ensures
            final(self).same_session(old(self)),
            !old(self).spec_connected() ==> r == Err::<Vec<u8>, TransportError>(TransportError::Disconnected)
                && final(self).spec_io() == old(self).spec_io(),
            old(self).spec_connected() ==> match spec_char_lookup(old(self).spec_chars(), ascii_lower_seq(char_uuid@)) {
                None => (r matches Err(TransportError::NotFound(u)) && u@ == char_uuid@)
                    && final(self).spec_io() == old(self).spec_io(),
                Some(p) => final(self).spec_io() == old(self).spec_io().push(BusIo::Read(p)),
            },
    {
        if self.device_path.is_none() {
            return Err(TransportError::Disconnected);
        }
        let path = self.char_path(char_uuid)?;
        self.io = Ghost(self.io@.push(BusIo::Read(path@)));
        self.bus.read_value(path.as_str())
    }

    /// Refused on a closed session; then refused as read-only unless the
    /// connected model is proven or attested, then judged by the central policy;
    /// only an authorized frame goes to the command characteristic.
    fn write(&mut self, bytes: &[u8]) -> (r: Result<(), TransportError>)
        ensures
            final(self).same_session(old(self)),
            !old(self).spec_connected() ==> r == Err::<(), TransportError>(TransportError::Disconnected),
            old(self).spec_connected() && !old(self).spec_model_known() ==> r == Err::<(), TransportError>(
                TransportError::Denied(Denial::ReadOnlyDevice),
            ),
            old(self).spec_connected() && old(self).spec_model_known() ==> (frame_verdict(
                old(self).spec_policy(),
                bytes@,
                old(self).spec_opt_in(),
            ) matches Err(d) ==> r == Err::<(), TransportError>(TransportError::Denied(d))),
            old(self).spec_connected() && old(self).spec_model_known() && frame_verdict(
                old(self).spec_policy(),
                bytes@,
                old(self).spec_opt_in(),
            ) is Ok ==> match spec_char_lookup(old(self).spec_chars(), ascii_lower_seq(CHAR_COMMAND_WRITE@)) {
                None => r matches Err(TransportError::NotFound(u)) && u@ == CHAR_COMMAND_WRITE@,
                Some(p) => final(self).spec_io() == old(self).spec_io().push(BusIo::Write(p, bytes@)),
            },
            !(old(self).spec_connected() && old(self).spec_model_known() && frame_verdict(
                old(self).spec_policy(),
                bytes@,
                old(self).spec_opt_in(),
            ) is Ok && spec_char_lookup(old(self).spec_chars(), ascii_lower_seq(CHAR_COMMAND_WRITE@)) is Some)
                ==> final(self).spec_io() == old(self).spec_io() && r is Err,
    {
        if self.device_path.is_none() {
            return Err(TransportError::Disconnected);
        }
        if !self.connected_model_known {
            return Err(TransportError::Denied(Denial::ReadOnlyDevice));
        }
        match self.policy.authorize_frame(bytes, self.experimental_opt_in) {
            Ok(()) => {},
            Err(d) => return Err(TransportError::Denied(d)),
        }
        let path = self.char_path(CHAR_COMMAND_WRITE)?;
        self.io = Ghost(self.io@.push(BusIo::Write(path@, bytes@)));
        self.bus.write_value(path.as_str(), bytes)
    }

    /// Refused on a closed session; then refused as read-only unless the model
    /// is proven or attested, then judged by the direct-write allowlist.
    fn write_direct(&mut self, char_uuid: &str, bytes: &[u8]) -> (r: Result<(), TransportError>)
        ensures
            final(self).same_session(old(self)),
            !old(self).spec_connected() ==> r == Err::<(), TransportError>(TransportError::Disconnected),
            old(self).spec_connected() && (!old(self).spec_model_known() || old(self).spec_policy().read_only) ==> r == Err::<
                (),
                TransportError,
            >(TransportError::Denied(Denial::ReadOnlyDevice)),
            old(self).spec_connected() && old(self).spec_model_known() && !old(self).spec_policy().read_only && !direct_allowed(
                old(self).spec_policy(),
                char_uuid@,
            ) ==> (r matches Err(TransportError::Denied(Denial::CharacteristicNotAuthorized(u)))
                && u@ == char_uuid@),
            old(self).spec_connected() && old(self).spec_model_known() && !old(self).spec_policy().read_only
                && direct_allowed(old(self).spec_policy(), char_uuid@) ==> match spec_char_lookup(old(self).spec_chars(), ascii_lower_seq(char_uuid@)) {
                None => r matches Err(TransportError::NotFound(u)) && u@ == char_uuid@,
                Some(p) => final(self).spec_io() == old(self).spec_io().push(BusIo::Write(p, bytes@)),
            },
            !(old(self).spec_connected() && old(self).spec_model_known() && !old(self).spec_policy().read_only
                && direct_allowed(old(self).spec_policy(), char_uuid@) && spec_char_lookup(old(self).spec_chars(), ascii_lower_seq(char_uuid@)) is Some)
                ==> final(self).spec_io() == old(self).spec_io() && r is Err,
            r is Ok ==> old(self).spec_model_known() && direct_allowed(
                old(self).spec_policy(),
                char_uuid@,
            ),
    {
        if self.device_path.is_none() {
            return Err(TransportError::Disconnected);
        }
        if !self.connected_model_known {
            return Err(TransportError::Denied(Denial::ReadOnlyDevice));
        }
        match self.policy.authorize_direct(char_uuid, bytes, self.experimental_opt_in) {
            Ok(()) => {},
            Err(d) => return Err(TransportError::Denied(d)),
        }
        let path = self.char_path(char_uuid)?;
        self.io = Ghost(self.io@.push(BusIo::Write(path@, bytes@)));
        self.bus.write_value(path.as_str(), bytes)
    }

    /// Starts notifications on the resolved characteristic of the UUID; a
    /// closed session is `Disconnected`.
    fn subscribe(&mut self, char_uuid: &str) -> (r: Result<(), TransportError>)
        ensures
            final(self).same_session(old(self)),
            !old(self).spec_connected() ==> r == Err::<(), TransportError>(TransportError::Disconnected)
                && final(self).spec_io() == old(self).spec_io(),
            old(self).spec_connected() ==> match spec_char_lookup(old(self).spec_chars(), ascii_lower_seq(char_uuid@)) {
                None => (r matches Err(TransportError::NotFound(u)) && u@ == char_uuid@)
                    && final(self).spec_io() == old(self).spec_io(),
                Some(p) => final(self).spec_io() == old(self).spec_io().push(BusIo::Notify(p)),
            },
    {
        if self.device_path.is_none() {
            return Err(TransportError::Disconnected);
        }
        let path = self.char_path(char_uuid)?;
        self.io = Ghost(self.io@.push(BusIo::Notify(path@)));
        self.bus.start_notify(path.as_str())
    }

    fn set_experimental_opt_in(&mut self, on: bool)
        ensures
            old(self).wf() ==> final(self).wf(),
            final(self).spec_opt_in() == on,
            final(self).spec_connected() == old(self).spec_connected(),
            final(self).spec_model_known() == old(self).spec_model_known(),
            final(self).spec_chars() == old(self).spec_chars(),
            final(self).spec_policy() == old(self).spec_policy(),
    {
        self.experimental_opt_in = on;
    }

    /// Lifts read-only for the current connection; a no-op without one.
    fn attest_model_known(&mut self)
        ensures
            old(self).wf() ==> final(self).wf(),
            final(self).spec_model_known() == (old(self).spec_model_known() || old(self).spec_connected()),
            final(self).spec_connected() == old(self).spec_connected(),
            final(self).spec_chars() == old(self).spec_chars(),
            final(self).spec_opt_in() == old(self).spec_opt_in(),
            final(self).spec_policy() == old(self).spec_policy(),
    {
        if self.device_path.is_some() {
            self.connected_model_known = true;
        }
    }
}

} // verus!
