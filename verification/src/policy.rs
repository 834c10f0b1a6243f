//! Central write-authorization policy.
//!
//! An opcode is writable only when the evidence ledger records it as
//! write-supported; write-experimental opcodes additionally need a session opt-in.
//! Destructive opcodes are never authorized. A framed write is decoded first and
//! every one of its command blocks is judged, so a supported first block can never
//! smuggle a destructive, catalog-only or experimental block past the policy.

use std::collections::HashSet;
use vstd::prelude::*;

use crate::packet::{decode_packet, spec_decode, BlockModel};
use crate::protocol::is_destructive_code;
use crate::text::{
    append_str, ascii_lower_chars, ascii_lower_seq, chars_eq, chars_of, hex_byte, hex_digit_exec,
    string_of,
};

verus! {

broadcast use vstd::std_specs::hash::group_hash_axioms;

/// Direct-write characteristic for EQ parameters.
pub const CHAR_EQ_DIRECT: &'static str = "0000000b-0000-1000-8000-00805f9b34fb";
/// Direct-write characteristic for key-function mapping.
pub const CHAR_KEY_FUNCTION_V2: &'static str = "0000000d-0000-1000-8000-00805f9b34fb";
/// Main QCY GATT service UUID.
pub const SERVICE_MAIN: &'static str = "0000a001-0000-1000-8000-00805f9b34fb";
/// Framed command write characteristic UUID.
pub const CHAR_COMMAND_WRITE: &'static str = "00001001-0000-1000-8000-00805f9b34fb";
/// Settings notification characteristic UUID.
pub const CHAR_SETTINGS_NOTIFY: &'static str = "00001002-0000-1000-8000-00805f9b34fb";

/// RequestData: a read-back request, not a state mutation. Authorized even for
/// read-only devices so status can be read.
pub const REQUEST_DATA_OPCODE: u8 = 0xFE;

/// Opcodes recorded as write-supported for HT08.
pub open spec fn ht08_supported() -> Set<u8> {
    set![0x05u8, 0x06u8, 0x09u8, 0x10u8, 0x16u8, 0x17u8, 0x22u8, 0x2Cu8, 0x3Du8]
}

/// Opcodes recorded as write-experimental for HT08 (need a session opt-in).
pub open spec fn ht08_experimental() -> Set<u8> {
    set![0x0Cu8, 0x23u8, 0x2Du8, 0x32u8]
}

/// Why a write was denied.
#[derive(Debug, Clone, PartialEq, Eq)]
pub enum Denial {
    ReadOnlyDevice,
    DestructiveOpcode(u8),
    OpcodeNotAuthorized(u8),
    ExperimentalWithoutOptIn(u8),
    CharacteristicNotAuthorized(String),
    MalformedFrame,
}

/// Human-readable text of a denial.
pub open spec fn denial_text(d: Denial) -> Seq<char> {
    match d {
        Denial::ReadOnlyDevice => "device is read-only"@,
        Denial::DestructiveOpcode(op) => "destructive opcode 0x"@ + hex_byte(op)
            + " is never sent"@,
        Denial::OpcodeNotAuthorized(op) => "opcode 0x"@ + hex_byte(op)
            + " is not authorized for writes"@,
        Denial::ExperimentalWithoutOptIn(op) => "opcode 0x"@ + hex_byte(op)
            + " is experimental and needs a session opt-in"@,
        Denial::CharacteristicNotAuthorized(uuid) => "characteristic "@ + uuid@
            + " is not authorized for direct writes"@,
        Denial::MalformedFrame => "malformed frame"@,
    }
}

fn push_hex_byte(out: &mut Vec<char>, b: u8)
    ensures
        final(out)@ == old(out)@ + hex_byte(b),
{
    out.push(hex_digit_exec(b / 16));
    out.push(hex_digit_exec(b % 16));
    assert(final(out)@ =~= old(out)@ + hex_byte(b));
}

impl Denial {
    /// The denial's human-readable text.
    pub fn message(&self) -> (r: String)
        ensures
            r@ == denial_text(*self),
    {
        let mut out: Vec<char> = Vec::new();
        match self {
            Denial::ReadOnlyDevice => append_str(&mut out, "device is read-only"),
            Denial::DestructiveOpcode(op) => {
                append_str(&mut out, "destructive opcode 0x");
                push_hex_byte(&mut out, *op);
                append_str(&mut out, " is never sent");
            },
            Denial::OpcodeNotAuthorized(op) => {
                append_str(&mut out, "opcode 0x");
                push_hex_byte(&mut out, *op);
                append_str(&mut out, " is not authorized for writes");
            },
            Denial::ExperimentalWithoutOptIn(op) => {
                append_str(&mut out, "opcode 0x");
                push_hex_byte(&mut out, *op);
                append_str(&mut out, " is experimental and needs a session opt-in");
            },
            Denial::CharacteristicNotAuthorized(uuid) => {
                append_str(&mut out, "characteristic ");
                append_str(&mut out, uuid.as_str());
                append_str(&mut out, " is not authorized for direct writes");
            },
            Denial::MalformedFrame => append_str(&mut out, "malformed frame"),
        }
        assert(out@ =~= denial_text(*self));
        string_of(out.as_slice())
    }
}

/// Per-profile write authorization surface.
#[derive(Debug)]
pub struct WritePolicy {
    pub supported_opcodes: HashSet<u8>,
    pub experimental_opcodes: HashSet<u8>,
    /// Characteristics that accept unframed direct writes.
    pub direct_chars: Vec<String>,
    /// Unknown/generic devices are read-only by default.
    pub read_only: bool,
}

/// The verdict on one command block: `None` when it may be sent.
pub open spec fn block_verdict(p: WritePolicy, op: u8, opt_in: bool) -> Option<Denial> {
    if is_destructive_code(op) {
        Some(Denial::DestructiveOpcode(op))
    } else if op == REQUEST_DATA_OPCODE {
        None
    } else if p.read_only {
        Some(Denial::ReadOnlyDevice)
    } else if p.supported_opcodes@.contains(op) {
        None
    } else if p.experimental_opcodes@.contains(op) {
        if opt_in {
            None
        } else {
            Some(Denial::ExperimentalWithoutOptIn(op))
        }
    } else {
        Some(Denial::OpcodeNotAuthorized(op))
    }
}

/// The verdict on a block list: the denial of the first refused block, if any.
pub open spec fn blocks_verdict(p: WritePolicy, blocks: Seq<BlockModel>, opt_in: bool) -> Result<
    (),
    Denial,
>
    decreases blocks.len(),
{
    if blocks.len() == 0 {
        Ok(())
    } else {
        match block_verdict(p, blocks[0].0, opt_in) {
            Some(d) => Err(d),
            None => blocks_verdict(p, blocks.drop_first(), opt_in),
        }
    }
}

/// The verdict on a framed write: malformed frames are refused before any block
/// is judged.
pub open spec fn frame_verdict(p: WritePolicy, bytes: Seq<u8>, opt_in: bool) -> Result<(), Denial> {
    match spec_decode(bytes) {
        Err(_) => Err(Denial::MalformedFrame),
        Ok(blocks) => blocks_verdict(p, blocks, opt_in),
    }
}

/// The direct-write allowlist, by case-insensitive UUID comparison.
pub open spec fn direct_allowed(p: WritePolicy, char_uuid: Seq<char>) -> bool {
    exists|i: int|
        0 <= i < p.direct_chars@.len() && ascii_lower_seq(#[trigger] p.direct_chars@[i]@)
            == ascii_lower_seq(char_uuid)
}

impl WritePolicy {
    /// HT08 trusted write surface, derived from the evidence ledger.
    pub fn ht08() -> (p: Self)
        ensures
            p.supported_opcodes@ == ht08_supported(),
            p.experimental_opcodes@ == ht08_experimental(),
            p.direct_chars@.len() == 2,
            p.direct_chars@[0]@ == CHAR_EQ_DIRECT@,
            p.direct_chars@[1]@ == CHAR_KEY_FUNCTION_V2@,
            !p.read_only,
    {
        let mut supported: HashSet<u8> = HashSet::new();
        supported.insert(0x05);
        supported.insert(0x06);
        supported.insert(0x09);
        supported.insert(0x10);
        supported.insert(0x16);
        supported.insert(0x17);
        supported.insert(0x22);
        supported.insert(0x2C);
        supported.insert(0x3D);
        let mut experimental: HashSet<u8> = HashSet::new();
        experimental.insert(0x0C);
        experimental.insert(0x23);
        experimental.insert(0x2D);
        experimental.insert(0x32);
        assert(supported@ =~= ht08_supported());
        assert(experimental@ =~= ht08_experimental());
        let eq = string_of(chars_of(CHAR_EQ_DIRECT).as_slice());
        let key = string_of(chars_of(CHAR_KEY_FUNCTION_V2).as_slice());
        let mut direct_chars: Vec<String> = Vec::new();
        direct_chars.push(eq);
        direct_chars.push(key);
        WritePolicy {
            supported_opcodes: supported,
            experimental_opcodes: experimental,
            direct_chars,
            read_only: false,
        }
    }

    /// Read-only policy for unknown/generic devices: nothing is allowlisted.
    pub fn read_only() -> (p: Self)
        ensures
            p.supported_opcodes@ == Set::<u8>::empty(),
            p.experimental_opcodes@ == Set::<u8>::empty(),
            p.direct_chars@.len() == 0,
            p.read_only,
    {
        WritePolicy {
            supported_opcodes: HashSet::new(),
            experimental_opcodes: HashSet::new(),
            direct_chars: Vec::new(),
            read_only: true,
        }
    }

    /// True exactly for the destructive opcodes 0x01, 0x02 and 0x03.
    pub fn is_destructive(op: u8) -> (r: bool)
        ensures
            r == is_destructive_code(op),
    {
        op == 0x01 || op == 0x02 || op == 0x03
    }

    fn check_block(&self, op: u8, experimental_opt_in: bool) -> (r: Option<Denial>)
        ensures
            r == block_verdict(*self, op, experimental_opt_in),
    {
        if Self::is_destructive(op) {
            return Some(Denial::DestructiveOpcode(op));
        }
        if op == REQUEST_DATA_OPCODE {
            return None;
        }
        if self.read_only {
            return Some(Denial::ReadOnlyDevice);
        }
        if self.supported_opcodes.contains(&op) {
            return None;
        }
        if self.experimental_opcodes.contains(&op) {
            if experimental_opt_in {
                return None;
            }
            return Some(Denial::ExperimentalWithoutOptIn(op));
        }
        Some(Denial::OpcodeNotAuthorized(op))
    }

    /// Authorize a framed write to the command characteristic: the frame is
    /// decoded first and every command block is judged in order.
    pub fn authorize_frame(&self, bytes: &[u8], experimental_opt_in: bool) -> (r: Result<(), Denial>)
        ensures
            r == frame_verdict(*self, bytes@, experimental_opt_in),
    {
        let packet = match decode_packet(bytes) {
            Ok(p) => p,
            Err(_) => return Err(Denial::MalformedFrame),
        };
        let ghost all = packet@;
        let mut i: usize = 0;
        assert(all.subrange(0, all.len() as int) =~= all);
        while i < packet.blocks.len()
            invariant
                i <= packet.blocks@.len(),
                all == packet@,
                spec_decode(bytes@) == Ok::<Seq<BlockModel>, crate::packet::DecodeError>(all),
                all.len() == packet.blocks@.len(),
                blocks_verdict(*self, all, experimental_opt_in) == blocks_verdict(
                    *self,
                    all.subrange(i as int, all.len() as int),
                    experimental_opt_in,
                ),
            decreases packet.blocks@.len() - i,
        {
            let op = packet.blocks[i].cmd;
            let ghost rest = all.subrange(i as int, all.len() as int);
            assert(rest[0].0 == op);
            assert(rest.drop_first() =~= all.subrange(i + 1, all.len() as int));
            assert(rest.len() > 0);
            match self.check_block(op, experimental_opt_in) {
                Some(d) => {
                    assert(blocks_verdict(*self, rest, experimental_opt_in) == Err::<(), Denial>(d));
                    return Err(d);
                },
                None => {},
            }
            i = i + 1;
        }
        assert(all.subrange(i as int, all.len() as int) =~= Seq::<BlockModel>::empty());
        Ok(())
    }

    /// Authorize an unframed direct write: refused on read-only devices, otherwise
    /// allowed only for an allowlisted characteristic (case-insensitive).
    pub fn authorize_direct(&self, char_uuid: &str, _bytes: &[u8], _experimental_opt_in: bool) -> (r:
        Result<(), Denial>)
        ensures
            self.read_only ==> r == Err::<(), Denial>(Denial::ReadOnlyDevice),
            !self.read_only && direct_allowed(*self, char_uuid@) ==> r is Ok,
            !self.read_only && !direct_allowed(*self, char_uuid@) ==> (r matches Err(
                Denial::CharacteristicNotAuthorized(u),
            ) && u@ == char_uuid@),
    {
        if self.read_only {
            return Err(Denial::ReadOnlyDevice);
        }
        let normalized = ascii_lower_chars(chars_of(char_uuid).as_slice());
        let mut i: usize = 0;
        while i < self.direct_chars.len()
            invariant
                !self.read_only,
                i <= self.direct_chars@.len(),
                normalized@ == ascii_lower_seq(char_uuid@),
                forall|k: int|
                    0 <= k < i ==> ascii_lower_seq(#[trigger] self.direct_chars@[k]@)
                        != ascii_lower_seq(char_uuid@),
            decreases self.direct_chars@.len() - i,
        {
            let candidate = ascii_lower_chars(chars_of(self.direct_chars[i].as_str()).as_slice());
            if chars_eq(candidate.as_slice(), normalized.as_slice()) {
                return Ok(());
            }
            i = i + 1;
        }
        Err(Denial::CharacteristicNotAuthorized(string_of(chars_of(char_uuid).as_slice())))
    }
}

/// A frame passes the policy exactly when every one of its blocks does.
pub proof fn lemma_blocks_verdict_all(p: WritePolicy, blocks: Seq<BlockModel>, opt_in: bool)
    ensures
        (blocks_verdict(p, blocks, opt_in) is Ok) <==> (forall|i: int|
            0 <= i < blocks.len() ==> block_verdict(p, #[trigger] blocks[i].0, opt_in) is None),
    decreases blocks.len(),
{
    if blocks.len() > 0 {
        lemma_blocks_verdict_all(p, blocks.drop_first(), opt_in);
        if blocks_verdict(p, blocks, opt_in) is Ok {
            assert forall|i: int| 0 <= i < blocks.len() implies block_verdict(
                p,
                #[trigger] blocks[i].0,
                opt_in,
            ) is None by {
                if i > 0 {
                    assert(blocks[i] == blocks.drop_first()[i - 1]);
                }
            }
        } else {
            if block_verdict(p, blocks[0].0, opt_in) is None {
                let j = choose|j: int|
                    0 <= j < blocks.drop_first().len() && !(block_verdict(
                        p,
                        #[trigger] blocks.drop_first()[j].0,
                        opt_in,
                    ) is None);
                assert(blocks.drop_first()[j] == blocks[j + 1]);
            }
        }
    }
}

/// Whatever the profile and the opt-in, an authorized frame holds no destructive
/// opcode, and every other block in it is RequestData, a supported opcode, or an
/// experimental opcode under an opt-in; on a read-only profile only RequestData
/// blocks pass.
pub proof fn lemma_authorized_frame_is_safe(p: WritePolicy, bytes: Seq<u8>, opt_in: bool)
    requires
        frame_verdict(p, bytes, opt_in) is Ok,
    ensures
        spec_decode(bytes) is Ok,
        forall|i: int|
            0 <= i < spec_decode(bytes).unwrap().len() ==> {
                let op = #[trigger] spec_decode(bytes).unwrap()[i].0;
                &&& !is_destructive_code(op)
                &&& (op == REQUEST_DATA_OPCODE || (!p.read_only && (p.supported_opcodes@.contains(
                    op,
                ) || (opt_in && p.experimental_opcodes@.contains(op)))))
            },
{
    let blocks = spec_decode(bytes).unwrap();
    lemma_blocks_verdict_all(p, blocks, opt_in);
    assert forall|i: int| 0 <= i < blocks.len() implies {
        let op = #[trigger] blocks[i].0;
        &&& !is_destructive_code(op)
        &&& (op == REQUEST_DATA_OPCODE || (!p.read_only && (p.supported_opcodes@.contains(op) || (
        opt_in && p.experimental_opcodes@.contains(op)))))
    } by {
        assert(block_verdict(p, blocks[i].0, opt_in) is None);
    }
}

/// A frame that carries a destructive opcode is refused by every profile, with
/// or without the opt-in.
pub proof fn lemma_destructive_never_authorized(
    p: WritePolicy,
    bytes: Seq<u8>,
    opt_in: bool,
    i: int,
)
    requires
        spec_decode(bytes) is Ok,
        0 <= i < spec_decode(bytes).unwrap().len(),
        is_destructive_code(spec_decode(bytes).unwrap()[i].0),
    ensures
        frame_verdict(p, bytes, opt_in) is Err,
{
    if frame_verdict(p, bytes, opt_in) is Ok {
        lemma_authorized_frame_is_safe(p, bytes, opt_in);
        assert(!is_destructive_code(spec_decode(bytes).unwrap()[i].0));
    }
}

} // verus!
