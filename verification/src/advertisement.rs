//! QCY manufacturer-data parser (company ID `0x521C`).
//!
//! Layout: vendor ID in bytes 0-1 (big-endian), battery left/right/case in bytes
//! 5/6/7, the control MAC scrambled as `[12]:[11]:[13]:[16]:[15]:[14]` and the
//! second MAC as `[19]:[18]:[20]:[23]:[22]:[21]`.

use vstd::prelude::*;

use crate::protocol::{cell_of, BatteryCell, BatteryState, QCY_COMPANY_ID};
use crate::text::{hex_byte, hex_digit_exec, string_of};

verus! {

/// What an advertisement carries.
#[derive(Debug, Clone, PartialEq, Eq)]
pub struct Advertisement {
    pub vendor_id: u16,
    pub battery: BatteryState,
    pub control_mac: String,
    pub other_mac: String,
}

/// `XX:XX:XX:XX:XX:XX` text of six bytes, uppercase hex.
pub open spec fn mac_text(b: Seq<u8>) -> Seq<char> {
    hex_byte(b[0]) + seq![':'] + hex_byte(b[1]) + seq![':'] + hex_byte(b[2]) + seq![':']
        + hex_byte(b[3]) + seq![':'] + hex_byte(b[4]) + seq![':'] + hex_byte(b[5])
}

/// The scrambled control-MAC bytes, in display order.
pub open spec fn control_mac_bytes(d: Seq<u8>) -> Seq<u8> {
    seq![d[12], d[11], d[13], d[16], d[15], d[14]]
}

/// The scrambled second-MAC bytes, in display order.
pub open spec fn other_mac_bytes(d: Seq<u8>) -> Seq<u8> {
    seq![d[19], d[18], d[20], d[23], d[22], d[21]]
}

/// Six zero bytes.
pub open spec fn zero_mac() -> Seq<u8> {
    seq![0u8, 0u8, 0u8, 0u8, 0u8, 0u8]
}

/// Control MAC text: present from 17 bytes on, all-zero otherwise.
pub open spec fn spec_control_mac(d: Seq<u8>) -> Seq<char> {
    if d.len() >= 17 {
        mac_text(control_mac_bytes(d))
    } else {
        mac_text(zero_mac())
    }
}

/// Second MAC text: present from 24 bytes on; an absent or all-zero second
/// address falls back to the control MAC.
pub open spec fn spec_other_mac(d: Seq<u8>) -> Seq<char> {
    if d.len() >= 24 && other_mac_bytes(d) != zero_mac() {
        mac_text(other_mac_bytes(d))
    } else {
        spec_control_mac(d)
    }
}

fn push_hex(out: &mut Vec<char>, b: u8)
    ensures
        final(out)@ == old(out)@ + hex_byte(b),
{
    out.push(hex_digit_exec(b / 16));
    out.push(hex_digit_exec(b % 16));
    assert(final(out)@ =~= old(out)@ + hex_byte(b));
}

/// Formats six bytes as `XX:XX:XX:XX:XX:XX`.
fn fmt_mac(b0: u8, b1: u8, b2: u8, b3: u8, b4: u8, b5: u8) -> (s: String)
    ensures
        s@ == mac_text(seq![b0, b1, b2, b3, b4, b5]),
{
    let mut out: Vec<char> = Vec::new();
    push_hex(&mut out, b0);
    out.push(':');
    push_hex(&mut out, b1);
    out.push(':');
    push_hex(&mut out, b2);
    out.push(':');
    push_hex(&mut out, b3);
    out.push(':');
    push_hex(&mut out, b4);
    out.push(':');
    push_hex(&mut out, b5);
    let ghost b = seq![b0, b1, b2, b3, b4, b5];
    assert(out@ =~= mac_text(b));
    string_of(out.as_slice())
}

/// Parses QCY manufacturer data. `None` for another company ID or fewer than 8
/// bytes; otherwise the vendor ID, the three battery cells and both MAC texts.
pub fn parse_manufacturer_data(company_id: u16, data: &[u8]) -> (r: Option<Advertisement>)
    ensures
        r is Some <==> (company_id == QCY_COMPANY_ID && data@.len() >= 8),
        r matches Some(adv) ==> {
            &&& adv.vendor_id == data@[0] * 256 + data@[1]
            &&& adv.battery == (BatteryState {
                left: cell_of(data@[5]),
                right: cell_of(data@[6]),
                case: cell_of(data@[7]),
            })
            &&& adv.control_mac@ == spec_control_mac(data@)
            &&& adv.other_mac@ == spec_other_mac(data@)
        },
{
    if company_id != QCY_COMPANY_ID || data.len() < 8 {
        return None;
    }
    let vendor_id: u16 = (data[0] as u16) * 256 + (data[1] as u16);
    let battery = BatteryState {
        left: BatteryCell::decode(data[5]),
        right: BatteryCell::decode(data[6]),
        case: BatteryCell::decode(data[7]),
    };
    let control_mac = if data.len() >= 17 {
        fmt_mac(data[12], data[11], data[13], data[16], data[15], data[14])
    } else {
        fmt_mac(0, 0, 0, 0, 0, 0)
    };
    assert(control_mac@ == spec_control_mac(data@)) by {
        if data@.len() >= 17 {
            assert(seq![data@[12], data@[11], data@[13], data@[16], data@[15], data@[14]]
                =~= control_mac_bytes(data@));
        } else {
            assert(seq![0u8, 0u8, 0u8, 0u8, 0u8, 0u8] =~= zero_mac());
        }
    }
    let other_mac = if data.len() >= 24 && (data[19] != 0 || data[18] != 0 || data[20] != 0
        || data[23] != 0 || data[22] != 0 || data[21] != 0) {
        let m = fmt_mac(data[19], data[18], data[20], data[23], data[22], data[21]);
        assert(seq![data@[19], data@[18], data@[20], data@[23], data@[22], data@[21]]
            =~= other_mac_bytes(data@));
        assert(other_mac_bytes(data@) != zero_mac()) by {
            if other_mac_bytes(data@) == zero_mac() {
                assert(other_mac_bytes(data@)[0] == zero_mac()[0]);
                assert(other_mac_bytes(data@)[1] == zero_mac()[1]);
                assert(other_mac_bytes(data@)[2] == zero_mac()[2]);
                assert(other_mac_bytes(data@)[3] == zero_mac()[3]);
                assert(other_mac_bytes(data@)[4] == zero_mac()[4]);
                assert(other_mac_bytes(data@)[5] == zero_mac()[5]);
            }
        }
        m
    } else {
        proof {
            if data@.len() >= 24 {
                assert(other_mac_bytes(data@) =~= zero_mac());
            }
        }
        control_mac.clone()
    };
    Some(Advertisement { vendor_id, battery, control_mac, other_mac })
}

} // verus!
