//! QCY BLE protocol constants, the opcode catalog and the battery codec.
//!
//! Documented from public reverse-engineering of QCY earphone GATT traffic. An
//! opcode being listed here does not make it writable: writability is decided by
//! the central write policy.

use vstd::prelude::*;

verus! {

/// Start-of-frame marker of every framed packet.
pub const SOF: u8 = 0xFF;

/// Bluetooth company ID used in QCY manufacturer data.
pub const QCY_COMPANY_ID: u16 = 0x521C;

/// Opcode catalog. Destructive opcodes are never issued by unattended automation.
#[derive(Debug, Clone, Copy, PartialEq, Eq, Structural)]
pub enum Cmd {
    ResetDefault,
    ClearPairing,
    FactoryReset,
    MusicControl,
    LightFlash,
    InEarDetection,
    Volume,
    LowLatency,
    NoiseCancelMode,
    SleepMode,
    AncSetting,
    EqParamsV2,
    Ldac,
    KeyFunction,
    WearingDetection,
    SpatialAudio,
    Battery,
    Version,
    EnvAdaptation,
    TonePlay,
    RequestData,
}

/// The wire opcode of each catalog entry.
pub open spec fn cmd_code(c: Cmd) -> u8 {
    match c {
        Cmd::ResetDefault => 0x01,
        Cmd::ClearPairing => 0x02,
        Cmd::FactoryReset => 0x03,
        Cmd::MusicControl => 0x04,
        Cmd::LightFlash => 0x05,
        Cmd::InEarDetection => 0x06,
        Cmd::Volume => 0x08,
        Cmd::LowLatency => 0x09,
        Cmd::NoiseCancelMode => 0x0C,
        Cmd::SleepMode => 0x10,
        Cmd::AncSetting => 0x17,
        Cmd::EqParamsV2 => 0x22,
        Cmd::Ldac => 0x23,
        Cmd::KeyFunction => 0x2B,
        Cmd::WearingDetection => 0x2C,
        Cmd::SpatialAudio => 0x2D,
        Cmd::Battery => 0x2F,
        Cmd::Version => 0x30,
        Cmd::EnvAdaptation => 0x32,
        Cmd::TonePlay => 0x3D,
        Cmd::RequestData => 0xFE,
    }
}

/// The documented destructive opcodes: reset defaults, clear pairing, factory reset.
pub open spec fn is_destructive_code(op: u8) -> bool {
    op == 0x01 || op == 0x02 || op == 0x03
}

impl Cmd {
    /// The wire opcode of this catalog entry.
    pub fn code(self) -> (r: u8)
        ensures
            r == cmd_code(self),
    {
        match self {
            Cmd::ResetDefault => 0x01,
            Cmd::ClearPairing => 0x02,
            Cmd::FactoryReset => 0x03,
            Cmd::MusicControl => 0x04,
            Cmd::LightFlash => 0x05,
            Cmd::InEarDetection => 0x06,
            Cmd::Volume => 0x08,
            Cmd::LowLatency => 0x09,
            Cmd::NoiseCancelMode => 0x0C,
            Cmd::SleepMode => 0x10,
            Cmd::AncSetting => 0x17,
            Cmd::EqParamsV2 => 0x22,
            Cmd::Ldac => 0x23,
            Cmd::KeyFunction => 0x2B,
            Cmd::WearingDetection => 0x2C,
            Cmd::SpatialAudio => 0x2D,
            Cmd::Battery => 0x2F,
            Cmd::Version => 0x30,
            Cmd::EnvAdaptation => 0x32,
            Cmd::TonePlay => 0x3D,
            Cmd::RequestData => 0xFE,
        }
    }

    /// True exactly for reset-defaults, clear-pairing and factory-reset.
    pub fn is_destructive(self) -> (r: bool)
        ensures
            r == (self == Cmd::ResetDefault || self == Cmd::ClearPairing || self
                == Cmd::FactoryReset),
            r == is_destructive_code(cmd_code(self)),
    {
        match self {
            Cmd::ResetDefault | Cmd::ClearPairing | Cmd::FactoryReset => true,
            _ => false,
        }
    }
}

/// Distinct catalog entries have distinct opcodes, so a frame's opcode names at
/// most one catalog entry.
pub proof fn lemma_cmd_codes_distinct(a: Cmd, b: Cmd)
    requires
        cmd_code(a) == cmd_code(b),
    ensures
        a == b,
{
}

/// Evidence status of a capability.
#[derive(Debug, Clone, Copy, PartialEq, Eq, Structural)]
pub enum Capability {
    Supported,
    Unsupported,
    Experimental,
    Unknown,
    RequiresProtocolResearch,
}

/// One battery cell: level in percent and the charging flag.
#[derive(Debug, Clone, PartialEq, Eq, Structural)]
pub struct BatteryCell {
    pub level: u8,
    pub charging: bool,
}

/// Level carried by a battery byte: bits 0-6, capped at 100.
pub open spec fn battery_level_of(b: u8) -> u8 {
    if b % 128 > 100 {
        100
    } else {
        (b % 128) as u8
    }
}

/// Charging flag carried by a battery byte: bit 7.
pub open spec fn battery_charging_of(b: u8) -> bool {
    b >= 128
}

/// Byte that encodes a cell: level capped at 127 in bits 0-6, bit 7 set when charging.
pub open spec fn battery_byte_of(level: u8, charging: bool) -> u8 {
    let l: u8 = if level > 127 {
        127
    } else {
        level
    };
    if charging {
        (l + 128) as u8
    } else {
        l
    }
}

impl BatteryCell {
    /// Decodes a battery byte: bit 7 is the charging flag, bits 0-6 the level
    /// (capped at 100).
    pub fn decode(b: u8) -> (r: Self)
        ensures
            r.level == battery_level_of(b),
            r.charging == battery_charging_of(b),
    {
        let raw = b & 0x7F;
        assert(b & 0x7F == b % 128) by (bit_vector);
        assert((b & 0x80 != 0) == (b >= 128)) by (bit_vector);
        Self { level: if raw > 100 { 100 } else { raw }, charging: b & 0x80 != 0 }
    }

    /// Encodes the cell back into a battery byte (level capped at 127).
    pub fn encode(&self) -> (r: u8)
        ensures
            r == battery_byte_of(self.level, self.charging),
    {
        let level = if self.level > 127 { 127u8 } else { self.level };
        assert(level <= 127 ==> level | 0x80 == level + 128) by (bit_vector);
        if self.charging {
            level | 0x80
        } else {
            level
        }
    }
}

/// Decoding the encoding of a cell gives the cell back, for every level a
/// decoded cell can have (0-100).
pub proof fn lemma_battery_cell_round_trip(level: u8, charging: bool)
    requires
        level <= 100,
    ensures
        battery_level_of(battery_byte_of(level, charging)) == level,
        battery_charging_of(battery_byte_of(level, charging)) == charging,
{
}

/// Encoding the decoding of a byte gives the byte back whenever its level bits
/// are within 0-100.
pub proof fn lemma_battery_byte_round_trip(b: u8)
    requires
        b % 128 <= 100,
    ensures
        battery_byte_of(battery_level_of(b), battery_charging_of(b)) == b,
{
}

/// Left, right and case battery cells.
#[derive(Debug, Clone, PartialEq, Eq, Structural)]
pub struct BatteryState {
    pub left: BatteryCell,
    pub right: BatteryCell,
    pub case: BatteryCell,
}

/// The cell that a battery byte decodes to.
pub open spec fn cell_of(b: u8) -> BatteryCell {
    BatteryCell { level: battery_level_of(b), charging: battery_charging_of(b) }
}

impl BatteryState {
    /// Decodes `[left, right, case]`; `None` when fewer than three bytes are given.
    /// Extra bytes are ignored.
    pub fn decode(bytes: &[u8]) -> (r: Option<Self>)
        ensures
            r is Some <==> bytes@.len() >= 3,
            r matches Some(s) ==> s.left == cell_of(bytes@[0]) && s.right == cell_of(bytes@[1])
                && s.case == cell_of(bytes@[2]),
    {
        if bytes.len() < 3 {
            return None;
        }
        Some(
            Self {
                left: BatteryCell::decode(bytes[0]),
                right: BatteryCell::decode(bytes[1]),
                case: BatteryCell::decode(bytes[2]),
            },
        )
    }
}

} // verus!
