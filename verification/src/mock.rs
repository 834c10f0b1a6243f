//! Deterministic, hardware-free HT08 transport used by tests and development.

use vstd::prelude::*;

use crate::packet::{decode_packet, BlockModel};
use crate::policy::{frame_verdict, Denial, WritePolicy};
use crate::text::{ascii_lower_chars, ascii_lower_seq, chars_eq, chars_of, ends_with_chars, has_suffix, string_of};
use crate::transport::{DiscoveredDevice, Transport, TransportError};

verus! {

/// Suffix shared by the battery characteristic UUIDs (`....0008-...`).
pub open spec fn battery_suffix() -> Seq<char> {
    "0008-0000-1000-8000-00805f9b34fb"@
}

/// Suffix shared by the version characteristic UUIDs (`....0007-...`).
pub open spec fn version_suffix() -> Seq<char> {
    "0007-0000-1000-8000-00805f9b34fb"@
}

/// The value last written to a direct characteristic, if any.
pub open spec fn direct_lookup(entries: Seq<(Seq<char>, Seq<u8>)>, key: Seq<char>) -> Option<
    Seq<u8>,
>
    decreases entries.len(),
{
    if entries.len() == 0 {
        None
    } else if entries.last().0 == key {
        Some(entries.last().1)
    } else {
        direct_lookup(entries.drop_last(), key)
    }
}

/// The default battery bytes of the mock (82 / 80 / 94 percent).
pub open spec fn mock_battery() -> Seq<u8> {
    seq![0x52u8, 0x50u8, 0x5Eu8]
}

/// The default firmware bytes of the mock (1.4.2).
pub open spec fn mock_firmware() -> Seq<u8> {
    seq![1u8, 4u8, 2u8, 1u8, 4u8, 2u8]
}

/// Mock HT08 device.
#[derive(Debug)]
pub struct MockTransport {
    policy: WritePolicy,
    experimental_opt_in: bool,
    connected: bool,
    battery: Vec<u8>,
    firmware: Vec<u8>,
    direct: Vec<(String, Vec<u8>)>,
    /// Every framed write that passed the policy, in order.
    pub tx_log: Vec<Vec<u8>>,
}

impl MockTransport {
    /// The policy the mock enforces.
    pub closed spec fn spec_policy(&self) -> WritePolicy {
        self.policy
    }

    /// Whether experimental writes are opted in for this session.
    pub closed spec fn spec_opt_in(&self) -> bool {
        self.experimental_opt_in
    }

    /// The battery bytes the mock answers.
    pub closed spec fn spec_battery(&self) -> Seq<u8> {
        self.battery@
    }

    /// The firmware bytes the mock answers.
    pub closed spec fn spec_firmware(&self) -> Seq<u8> {
        self.firmware@
    }

    /// Whether the mock is connected.
    pub closed spec fn spec_connected(&self) -> bool {
        self.connected
    }

    /// Direct writes so far, as (lowercase UUID, bytes), oldest first.
    pub closed spec fn spec_direct(&self) -> Seq<(Seq<char>, Seq<u8>)> {
        self.direct@.map_values(|e: (String, Vec<u8>)| (e.0@, e.1@))
    }

    /// The frames written so far.
    pub closed spec fn spec_log(&self) -> Seq<Seq<u8>> {
        self.tx_log@.map_values(|f: Vec<u8>| f@)
    }

    /// What the mock answers for a characteristic read.
    pub closed spec fn spec_read(&self, uuid: Seq<char>) -> Result<Seq<u8>, ()> {
        let lower = ascii_lower_seq(uuid);
        if has_suffix(lower, battery_suffix()) {
            Ok(self.spec_battery())
        } else if has_suffix(lower, version_suffix()) {
            Ok(self.spec_firmware())
        } else {
            match direct_lookup(self.spec_direct(), lower) {
                Some(v) => Ok(v),
                None => Err(()),
            }
        }
    }

    /// A disconnected mock with the default battery and firmware readings.
    pub fn new(policy: WritePolicy) -> (r: Self)
        ensures
            r.spec_policy() == policy,
            !r.spec_opt_in(),
            !r.spec_connected(),
            r.spec_direct() == Seq::<(Seq<char>, Seq<u8>)>::empty(),
            r.spec_log() == Seq::<Seq<u8>>::empty(),
            r.spec_battery() == mock_battery(),
            r.spec_firmware() == mock_firmware(),
    {
        let mut battery: Vec<u8> = Vec::new();
        battery.push(0x52);
        battery.push(0x50);
        battery.push(0x5E);
        let mut firmware: Vec<u8> = Vec::new();
        firmware.push(1);
        firmware.push(4);
        firmware.push(2);
        firmware.push(1);
        firmware.push(4);
        firmware.push(2);
        let r = Self {
            policy,
            experimental_opt_in: false,
            connected: false,
            battery,
            firmware,
            direct: Vec::new(),
            tx_log: Vec::new(),
        };
        assert(r.spec_direct() =~= Seq::<(Seq<char>, Seq<u8>)>::empty());
        assert(r.spec_log() =~= Seq::<Seq<u8>>::empty());
        assert(r.battery@ =~= mock_battery());
        assert(r.firmware@ =~= mock_firmware());
        r
    }

    /// Session opt-in for experimental writes.
    pub fn set_experimental_opt_in(&mut self, on: bool)
        ensures
            final(self).spec_opt_in() == on,
            final(self).spec_connected() == old(self).spec_connected(),
            final(self).spec_policy() == old(self).spec_policy(),
            final(self).spec_log() == old(self).spec_log(),
            final(self).spec_direct() == old(self).spec_direct(),
    {
        self.experimental_opt_in = on;
    }

    /// Whether the mock is connected.
    pub fn is_connected(&self) -> (r: bool)
        ensures
            r == self.spec_connected(),
    {
        self.connected
    }

    fn copy_bytes(v: &Vec<u8>) -> (r: Vec<u8>)
        ensures
            r@ == v@,
    {
        let mut out: Vec<u8> = Vec::new();
        let mut i: usize = 0;
        while i < v.len()
            invariant
                i <= v@.len(),
                out@ == v@.subrange(0, i as int),
            decreases v@.len() - i,
        {
            out.push(v[i]);
            i = i + 1;
            assert(out@ =~= v@.subrange(0, i as int));
        }
        assert(out@ =~= v@);
        out
    }

    fn find_direct(&self, key: &Vec<char>) -> (r: Option<Vec<u8>>)
        ensures
            r matches Some(v) ==> direct_lookup(self.spec_direct(), key@) == Some(v@),
            r is None ==> direct_lookup(self.spec_direct(), key@) is None,
    {
        let mut i: usize = self.direct.len();
        let ghost all = self.spec_direct();
        assert(all.take(i as int) =~= all);
        while i > 0
            invariant
                i <= self.direct@.len(),
                all == self.spec_direct(),
                all.len() == self.direct@.len(),
                direct_lookup(all, key@) == direct_lookup(all.take(i as int), key@),
            decreases i,
        {
            let ghost pre = all.take(i as int);
            assert(pre.last() == all[i - 1]);
            assert(pre.drop_last() =~= all.take(i - 1));
            let entry_key = chars_of(self.direct[i - 1].0.as_str());
            if chars_eq(entry_key.as_slice(), key.as_slice()) {
                return Some(Self::copy_bytes(&self.direct[i - 1].1));
            }
            i = i - 1;
        }
        None
    }
}

impl Transport for MockTransport {
    /// One known HT08 candidate.
    fn scan(&mut self) -> (r: Result<Vec<DiscoveredDevice>, TransportError>)
        ensures
            r matches Ok(list) && list@.len() == 1 && list@[0].model_known && list@[0].address@
                == "F8:5C:7D:12:08:08"@ && list@[0].name@ == "QCY MeloBuds Pro"@
                && list@[0].rssi == Some(-48i16),
            *final(self) == *old(self),
    {
        let mut list: Vec<DiscoveredDevice> = Vec::new();
        list.push(
            DiscoveredDevice {
                address: string_of(chars_of("F8:5C:7D:12:08:08").as_slice()),
                name: string_of(chars_of("QCY MeloBuds Pro").as_slice()),
                rssi: Some(-48),
                model_known: true,
            },
        );
        Ok(list)
    }

    fn connect(&mut self, _address: &str) -> (r: Result<(), TransportError>)
        ensures
            r is Ok,
            final(self).spec_connected(),
            final(self).spec_opt_in() == old(self).spec_opt_in(),
            final(self).spec_policy() == old(self).spec_policy(),
            final(self).spec_log() == old(self).spec_log(),
            final(self).spec_direct() == old(self).spec_direct(),
            final(self).spec_battery() == old(self).spec_battery(),
            final(self).spec_firmware() == old(self).spec_firmware(),
    {
        self.connected = true;
        Ok(())
    }

    fn disconnect(&mut self) -> (r: Result<(), TransportError>)
        ensures
            r is Ok,
            !final(self).spec_connected(),
            final(self).spec_opt_in() == old(self).spec_opt_in(),
            final(self).spec_policy() == old(self).spec_policy(),
            final(self).spec_log() == old(self).spec_log(),
            final(self).spec_direct() == old(self).spec_direct(),
    {
        self.connected = false;
        Ok(())
    }

    /// Battery and version characteristics answer the mock readings; a
    /// characteristic written directly answers its last written value.
    fn read(&mut self, char_uuid: &str) -> (r: Result<Vec<u8>, TransportError>)
        ensures
            *final(self) == *old(self),
            !old(self).spec_connected() ==> r == Err::<Vec<u8>, TransportError>(
                TransportError::Disconnected,
            ),
            old(self).spec_connected() ==> match old(self).spec_read(char_uuid@) {
                Ok(v) => r matches Ok(bytes) && bytes@ == v,
                Err(_) => r matches Err(TransportError::NotFound(u)) && u@ == char_uuid@,
            },
    {
        if !self.connected {
            return Err(TransportError::Disconnected);
        }
        let uuid = ascii_lower_chars(chars_of(char_uuid).as_slice());
        let battery_suffix = chars_of("0008-0000-1000-8000-00805f9b34fb");
        let version_suffix = chars_of("0007-0000-1000-8000-00805f9b34fb");
        if ends_with_chars(uuid.as_slice(), battery_suffix.as_slice()) {
            Ok(Self::copy_bytes(&self.battery))
        } else if ends_with_chars(uuid.as_slice(), version_suffix.as_slice()) {
            Ok(Self::copy_bytes(&self.firmware))
        } else {
            match self.find_direct(&uuid) {
                Some(v) => Ok(v),
                None => Err(TransportError::NotFound(string_of(chars_of(char_uuid).as_slice()))),
            }
        }
    }

    /// Connected and authorized frames are logged; everything else is refused
    /// and nothing is logged.
    fn write(&mut self, bytes: &[u8]) -> (r: Result<(), TransportError>)
        ensures
            !old(self).spec_connected() ==> r == Err::<(), TransportError>(
                TransportError::Disconnected,
            ),
            old(self).spec_connected() ==> match frame_verdict(
                old(self).spec_policy(),
                bytes@,
                old(self).spec_opt_in(),
            ) {
                Ok(()) => r is Ok,
                Err(d) => r == Err::<(), TransportError>(TransportError::Denied(d)),
            },
            r is Ok ==> final(self).spec_log() == old(self).spec_log().push(bytes@),
            r is Err ==> final(self).spec_log() == old(self).spec_log(),
            final(self).spec_connected() == old(self).spec_connected(),
            final(self).spec_opt_in() == old(self).spec_opt_in(),
            final(self).spec_policy() == old(self).spec_policy(),
            final(self).spec_direct() == old(self).spec_direct(),
    {
        if !self.connected {
            return Err(TransportError::Disconnected);
        }
        match self.policy.authorize_frame(bytes, self.experimental_opt_in) {
            Ok(()) => {},
            Err(d) => return Err(TransportError::Denied(d)),
        }
        let frame = crate::packet::copy_all(bytes);
        let ghost old_log = self.spec_log();
        self.tx_log.push(frame);
        assert(self.spec_log() =~= old_log.push(bytes@));
        Ok(())
    }

    /// Connected and authorized direct writes are stored under the lowercase
    /// UUID, so a later read of that characteristic answers them.
    fn write_direct(&mut self, char_uuid: &str, bytes: &[u8]) -> (r: Result<(), TransportError>)
        ensures
            !old(self).spec_connected() ==> r == Err::<(), TransportError>(
                TransportError::Disconnected,
            ),
            r is Ok ==> final(self).spec_direct() == old(self).spec_direct().push(
                (ascii_lower_seq(char_uuid@), bytes@),
            ),
            r is Err ==> final(self).spec_direct() == old(self).spec_direct(),
            old(self).spec_connected() && old(self).spec_policy().read_only ==> r
                == Err::<(), TransportError>(TransportError::Denied(Denial::ReadOnlyDevice)),
            old(self).spec_connected() && !old(self).spec_policy().read_only
                && crate::policy::direct_allowed(old(self).spec_policy(), char_uuid@) ==> r is Ok,
            old(self).spec_connected() && !old(self).spec_policy().read_only
                && !crate::policy::direct_allowed(old(self).spec_policy(), char_uuid@) ==> r is Err,
            final(self).spec_connected() == old(self).spec_connected(),
            final(self).spec_opt_in() == old(self).spec_opt_in(),
            final(self).spec_policy() == old(self).spec_policy(),
            final(self).spec_log() == old(self).spec_log(),
            final(self).spec_battery() == old(self).spec_battery(),
            final(self).spec_firmware() == old(self).spec_firmware(),
            r is Ok && !has_suffix(ascii_lower_seq(char_uuid@), battery_suffix()) && !has_suffix(
                ascii_lower_seq(char_uuid@),
                version_suffix(),
            ) ==> final(self).spec_read(char_uuid@) == Ok::<Seq<u8>, ()>(bytes@),
    {
        if !self.connected {
            return Err(TransportError::Disconnected);
        }
        match self.policy.authorize_direct(char_uuid, bytes, self.experimental_opt_in) {
            Ok(()) => {},
            Err(d) => return Err(TransportError::Denied(d)),
        }
        let key = string_of(ascii_lower_chars(chars_of(char_uuid).as_slice()).as_slice());
        let value = crate::packet::copy_all(bytes);
        let ghost old_direct = self.spec_direct();
        self.direct.push((key, value));
        assert(self.spec_direct() =~= old_direct.push((ascii_lower_seq(char_uuid@), bytes@)));
        assert(self.spec_direct().last() == (ascii_lower_seq(char_uuid@), bytes@));
        Ok(())
    }

    fn subscribe(&mut self, _char_uuid: &str) -> (r: Result<(), TransportError>)
        ensures
            *final(self) == *old(self),
            r is Ok <==> old(self).spec_connected(),
            r is Err ==> r == Err::<(), TransportError>(TransportError::Disconnected),
    {
        if !self.connected {
            return Err(TransportError::Disconnected);
        }
        Ok(())
    }

    fn set_experimental_opt_in(&mut self, on: bool)
        ensures
            final(self).spec_opt_in() == on,
            final(self).spec_connected() == old(self).spec_connected(),
            final(self).spec_policy() == old(self).spec_policy(),
            final(self).spec_log() == old(self).spec_log(),
            final(self).spec_direct() == old(self).spec_direct(),
    {
        self.experimental_opt_in = on;
    }

    /// The mock's policy already decides writability; attestation changes nothing.
    fn attest_model_known(&mut self)
        ensures
            *final(self) == *old(self),
    {
    }

    fn is_connected(&mut self) -> (r: Result<bool, TransportError>)
        ensures
            *final(self) == *old(self),
            r == Ok::<bool, TransportError>(old(self).spec_connected()),
    {
        Ok(self.connected)
    }
}

} // verus!
