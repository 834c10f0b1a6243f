//! Device profiles and the capability truth model.
//!
//! Every capability answers four independent questions instead of one ambiguous
//! state: is it associated with the hardware, is the protocol behavior evidenced,
//! does this build implement it, and is the operation writable / experimental /
//! read-only / forbidden. The derivation rules and the UI summary are functions of
//! those four truths.

use vstd::prelude::*;

use crate::text::{append_chars, append_str, chars_eq, chars_of, decimal, string_of};

verus! {

/// Hardware/protocol evidence dimension.
#[derive(Debug, Clone, Copy, PartialEq, Eq, Structural)]
pub enum EvidenceTruth {
    Supported,
    Unknown,
    Unsupported,
}

/// Implementation dimension.
#[derive(Debug, Clone, Copy, PartialEq, Eq, Structural)]
pub enum ImplTruth {
    Implemented,
    MockOnly,
    NotImplemented,
}

/// Write-readiness dimension.
#[derive(Debug, Clone, Copy, PartialEq, Eq, Structural)]
pub enum WriteReadiness {
    Writable,
    Experimental,
    ReadOnly,
    Forbidden,
}

/// One capability's four truths plus optional provenance note and opcode reference.
#[derive(Debug, Clone, PartialEq, Eq)]
pub struct CapabilityTruth {
    pub hardware: EvidenceTruth,
    pub protocol: EvidenceTruth,
    pub implementation: ImplTruth,
    pub write: WriteReadiness,
    pub note: Option<String>,
    pub opcode: Option<u8>,
}

/// A device profile: model id plus its capability matrix, as (id, truths) entries.
#[derive(Debug, Clone, PartialEq, Eq)]
pub struct DeviceProfile {
    pub model: String,
    pub capabilities: Vec<(String, CapabilityTruth)>,
}

/// Current capability-vector schema version this crate understands.
pub const VECTOR_VERSION: u32 = 1;

/// The capability recorded under `id` (a later entry for the same id wins).
pub open spec fn capability_lookup(caps: Seq<(String, CapabilityTruth)>, id: Seq<char>) -> Option<
    CapabilityTruth,
>
    decreases caps.len(),
{
    if caps.len() == 0 {
        None
    } else if caps.last().0@ == id {
        Some(caps.last().1)
    } else {
        capability_lookup(caps.drop_last(), id)
    }
}

/// Error text for an unsupported schema version.
pub open spec fn version_error_text(version: u32) -> Seq<char> {
    "capability vector version "@ + decimal(version as nat)
        + " is not supported by this build (expects 1)"@
}

/// Decimal digits of a `u32`.
fn decimal_u32(n: u32) -> (s: Vec<char>)
    ensures
        s@ == decimal(n as nat),
    decreases n,
{
    if n < 10 {
        let mut v: Vec<char> = Vec::new();
        let d: u8 = n as u8;
        v.push((48 + d) as char);
        proof {
            reveal_with_fuel(decimal, 1);
        }
        assert(v@ =~= decimal(n as nat));
        v
    } else {
        let mut v = decimal_u32(n / 10);
        let d: u8 = (n % 10) as u8;
        v.push((48 + d) as char);
        assert(v@ =~= decimal(n as nat));
        v
    }
}

/// Builds a profile from the fields of a capability vector document. Unknown
/// schema versions and empty capability maps are rejected instead of guessed at.
pub fn profile_from_vector(
    version: u32,
    model: String,
    capabilities: Vec<(String, CapabilityTruth)>,
) -> (r: Result<DeviceProfile, String>)
    ensures
        version != VECTOR_VERSION ==> (r matches Err(m) && m@ == version_error_text(version)),
        version == VECTOR_VERSION && capabilities@.len() == 0 ==> (r matches Err(m) && m@
            == "capability vector contains no capabilities"@),
        version == VECTOR_VERSION && capabilities@.len() > 0 ==> (r matches Ok(p) && p.model
            == model && p.capabilities@ == capabilities@),
{
    if version != VECTOR_VERSION {
        let mut out: Vec<char> = Vec::new();
        append_str(&mut out, "capability vector version ");
        let digits = decimal_u32(version);
        append_chars(&mut out, digits.as_slice());
        append_str(&mut out, " is not supported by this build (expects 1)");
        return Err(string_of(out.as_slice()));
    }
    if capabilities.len() == 0 {
        return Err(string_of(chars_of("capability vector contains no capabilities").as_slice()));
    }
    Ok(DeviceProfile { model, capabilities })
}

impl DeviceProfile {
    /// Look up one capability by its stable id (e.g. `ancOff`, `systemEq`).
    pub fn get(&self, id: &str) -> (r: Option<&CapabilityTruth>)
        ensures
            match r {
                Some(c) => capability_lookup(self.capabilities@, id@) == Some(*c),
                None => capability_lookup(self.capabilities@, id@) is None,
            },
    {
        let want = chars_of(id);
        let ghost all = self.capabilities@;
        let mut i: usize = self.capabilities.len();
        assert(all.take(i as int) =~= all);
        while i > 0
            invariant
                i <= all.len(),
                all == self.capabilities@,
                want@ == id@,
                capability_lookup(all, id@) == capability_lookup(all.take(i as int), id@),
            decreases i,
        {
            let ghost pre = all.take(i as int);
            assert(pre.last() == all[i - 1]);
            assert(pre.drop_last() =~= all.take(i - 1));
            let key = chars_of(self.capabilities[i - 1].0.as_str());
            if chars_eq(key.as_slice(), want.as_slice()) {
                return Some(&self.capabilities[i - 1].1);
            }
            i = i - 1;
        }
        None
    }
}

/// Shown unless both hardware and protocol say the feature does not exist.
pub open spec fn spec_is_shown(cap: CapabilityTruth) -> bool {
    !(cap.hardware == EvidenceTruth::Unsupported && cap.protocol == EvidenceTruth::Unsupported)
}

/// Implemented in this build (not mock-only, not pending).
pub open spec fn spec_is_implemented(cap: CapabilityTruth) -> bool {
    cap.implementation == ImplTruth::Implemented
}

/// Show a capability unless both hardware and protocol say it does not exist.
pub fn is_shown(cap: &CapabilityTruth) -> (r: bool)
    ensures
        r == spec_is_shown(*cap),
{
    !(cap.hardware == EvidenceTruth::Unsupported && cap.protocol == EvidenceTruth::Unsupported)
}

/// Implemented in this build (not mock-only, not pending).
pub fn is_implemented(cap: &CapabilityTruth) -> (r: bool)
    ensures
        r == spec_is_implemented(*cap),
{
    cap.implementation == ImplTruth::Implemented
}

/// A supported write the app implements.
pub fn is_writable(cap: &CapabilityTruth) -> (r: bool)
    ensures
        r == (spec_is_implemented(*cap) && cap.write == WriteReadiness::Writable),
{
    is_implemented(cap) && cap.write == WriteReadiness::Writable
}

/// An experimental write the app implements (needs the session opt-in).
pub fn is_experimental_write(cap: &CapabilityTruth) -> (r: bool)
    ensures
        r == (spec_is_implemented(*cap) && cap.write == WriteReadiness::Experimental),
{
    is_implemented(cap) && cap.write == WriteReadiness::Experimental
}

/// The UI may offer interaction: implemented and either writable or experimental.
pub fn can_interact(cap: &CapabilityTruth) -> (r: bool)
    ensures
        r == (spec_is_implemented(*cap) && (cap.write == WriteReadiness::Writable || cap.write
            == WriteReadiness::Experimental)),
{
    is_implemented(cap) && (cap.write == WriteReadiness::Writable || cap.write
        == WriteReadiness::Experimental)
}

/// Interaction is offered exactly for writable or experimental writes: the
/// three predicates agree on every capability.
pub proof fn lemma_can_interact_is_writable_or_experimental(cap: CapabilityTruth)
    ensures
        (spec_is_implemented(cap) && (cap.write == WriteReadiness::Writable || cap.write
            == WriteReadiness::Experimental)) == ((spec_is_implemented(cap) && cap.write
            == WriteReadiness::Writable) || (spec_is_implemented(cap) && cap.write
            == WriteReadiness::Experimental)),
        !(cap.write == WriteReadiness::Writable && cap.write == WriteReadiness::Experimental),
{
}

/// Summary tone for UI chips.
#[derive(Debug, Clone, Copy, PartialEq, Eq, Structural)]
pub enum SummaryTone {
    Supported,
    Experimental,
    Neutral,
    Unknown,
    Research,
    Danger,
}

/// Honest one-line summary for chips/UI, derived from the four truths.
#[derive(Debug, Clone, Copy, PartialEq, Eq)]
pub struct CapabilitySummary {
    pub label: &'static str,
    pub tone: SummaryTone,
}

/// The summary label and tone of a capability. Forbidden writes dominate; then
/// the implementation state; then, for unimplemented features, the evidence.
pub open spec fn summary_of(cap: CapabilityTruth) -> (Seq<char>, SummaryTone) {
    if cap.write == WriteReadiness::Forbidden {
        ("Forbidden"@, SummaryTone::Danger)
    } else if cap.implementation == ImplTruth::Implemented {
        if cap.write == WriteReadiness::Experimental {
            ("Experimental"@, SummaryTone::Experimental)
        } else if cap.write == WriteReadiness::Writable {
            ("Supported"@, SummaryTone::Supported)
        } else {
            ("Read-only"@, SummaryTone::Supported)
        }
    } else if cap.implementation == ImplTruth::MockOnly {
        ("Mock only"@, SummaryTone::Neutral)
    } else if cap.protocol == EvidenceTruth::Supported {
        ("Protocol known \u{00b7} app pending"@, SummaryTone::Neutral)
    } else if cap.hardware == EvidenceTruth::Unsupported && cap.protocol
        == EvidenceTruth::Unsupported {
        ("Unsupported"@, SummaryTone::Neutral)
    } else if cap.hardware == EvidenceTruth::Supported {
        ("Needs protocol research"@, SummaryTone::Research)
    } else {
        ("Unknown"@, SummaryTone::Unknown)
    }
}

/// One-line summary of a capability for UI chips.
pub fn summarize_capability(cap: &CapabilityTruth) -> (r: CapabilitySummary)
    ensures
        (r.label@, r.tone) == summary_of(*cap),
{
    if cap.write == WriteReadiness::Forbidden {
        return CapabilitySummary { label: "Forbidden", tone: SummaryTone::Danger };
    }
    if cap.implementation == ImplTruth::Implemented {
        return match cap.write {
            WriteReadiness::Experimental => CapabilitySummary {
                label: "Experimental",
                tone: SummaryTone::Experimental,
            },
            WriteReadiness::Writable => CapabilitySummary {
                label: "Supported",
                tone: SummaryTone::Supported,
            },
            _ => CapabilitySummary { label: "Read-only", tone: SummaryTone::Supported },
        };
    }
    if cap.implementation == ImplTruth::MockOnly {
        return CapabilitySummary { label: "Mock only", tone: SummaryTone::Neutral };
    }
    if cap.protocol == EvidenceTruth::Supported {
        return CapabilitySummary {
            label: "Protocol known \u{00b7} app pending",
            tone: SummaryTone::Neutral,
        };
    }
    if cap.hardware == EvidenceTruth::Unsupported && cap.protocol == EvidenceTruth::Unsupported {
        return CapabilitySummary { label: "Unsupported", tone: SummaryTone::Neutral };
    }
    if cap.hardware == EvidenceTruth::Supported {
        return CapabilitySummary { label: "Needs protocol research", tone: SummaryTone::Research };
    }
    CapabilitySummary { label: "Unknown", tone: SummaryTone::Unknown }
}

/// A forbidden write is always summarized as danger, and nothing else is.
pub proof fn lemma_forbidden_is_danger(cap: CapabilityTruth)
    ensures
        (summary_of(cap).1 == SummaryTone::Danger) == (cap.write == WriteReadiness::Forbidden),
{
}

} // verus!
