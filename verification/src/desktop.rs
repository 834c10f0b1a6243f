//! Decisions of the desktop front end: which transport badge and status to show,
//! when Auto Game Mode is reconciled, how event messages are routed to the
//! optimistic toggles, and the bounded session log.

use vstd::prelude::*;

use crate::app_core::{BatterySnapshot, DeviceSnapshot, SimpleNoise};
use crate::host::CodecInfo;
use crate::text::{
    append_chars, append_str, chars_of, decimal, has_prefix, i16_chars, i16_text, starts_with_chars,
    string_of,
};

verus! {

/// Maximum number of lines the session log keeps.
pub const LOG_LIMIT: usize = 200;

/// The transport backend the process is actually running. A silent mock
/// fallback behind a "BlueZ" badge would violate capability honesty.
#[derive(Debug, Clone, PartialEq, Eq)]
pub enum TransportBackend {
    BlueZ,
    MockExplicit,
    /// BlueZ was requested but the bus is unreachable; the app runs on the mock
    /// and says so.
    MockFallback { reason: String },
}

impl TransportBackend {
    pub fn is_mock(&self) -> (r: bool)
        ensures
            r == !(self is BlueZ),
    {
        match self {
            TransportBackend::BlueZ => false,
            _ => true,
        }
    }

    /// Badge text: the source of truth for the UI badge.
    pub fn badge(&self) -> (r: &'static str)
        ensures
            r@ == match self {
                TransportBackend::BlueZ => "BlueZ transport"@,
                TransportBackend::MockExplicit => "MOCK transport (development)"@,
                TransportBackend::MockFallback { .. } => "MOCK transport (BlueZ unavailable)"@,
            },
    {
        match self {
            TransportBackend::BlueZ => "BlueZ transport",
            TransportBackend::MockExplicit => "MOCK transport (development)",
            TransportBackend::MockFallback { .. } => "MOCK transport (BlueZ unavailable)",
        }
    }

    /// The status line shown at start-up.
    pub fn status_line(&self) -> (r: String)
        ensures
            r@ == match self {
                TransportBackend::BlueZ =>
                    "BlueZ transport: checking for already-connected earbuds (scan to find others)."@,
                TransportBackend::MockExplicit =>
                    "MOCK transport: deterministic development backend, not real hardware."@,
                TransportBackend::MockFallback { reason } => "Mock transport (BlueZ unavailable: "@
                    + reason@ + "); all device interactions are simulated."@,
            },
    {
        match self {
            TransportBackend::BlueZ => string_of(
                chars_of(
                    "BlueZ transport: checking for already-connected earbuds (scan to find others).",
                ).as_slice(),
            ),
            TransportBackend::MockExplicit => string_of(
                chars_of(
                    "MOCK transport: deterministic development backend, not real hardware.",
                ).as_slice(),
            ),
            TransportBackend::MockFallback { reason } => {
                let mut out: Vec<char> = Vec::new();
                append_str(&mut out, "Mock transport (BlueZ unavailable: ");
                append_str(&mut out, reason.as_str());
                append_str(&mut out, "); all device interactions are simulated.");
                string_of(out.as_slice())
            },
        }
    }

    /// Short backend label.
    pub fn label(&self) -> (r: &'static str)
        ensures
            r@ == if self is BlueZ {
                "bluez"@
            } else {
                "mock"@
            },
    {
        match self {
            TransportBackend::BlueZ => "bluez",
            _ => "mock",
        }
    }
}

/// Auto Game Mode reconcile is edge-triggered: only the disconnected-to-connected
/// transition re-sends the desired game mode, never a keepalive snapshot.
pub fn should_reconcile_game_mode(
    was_connected: bool,
    is_connected: bool,
    auto_game_enabled: bool,
    desired: bool,
) -> (r: bool)
    ensures
        r == (auto_game_enabled && desired && is_connected && !was_connected),
{
    auto_game_enabled && desired && is_connected && !was_connected
}

/// The number of reconcile writes over a sequence of connection snapshots,
/// starting disconnected.
pub open spec fn reconcile_writes(connected: Seq<bool>, enabled: bool, desired: bool) -> nat
    decreases connected.len(),
{
    if connected.len() == 0 {
        0
    } else {
        let prev = if connected.len() >= 2 {
            connected[connected.len() - 2]
        } else {
            false
        };
        reconcile_writes(connected.drop_last(), enabled, desired) + if enabled && desired
            && connected.last() && !prev {
            1nat
        } else {
            0nat
        }
    }
}

/// A session that connects once and then only reports connected snapshots
/// (keepalives) gets exactly one reconcile write.
pub proof fn lemma_one_write_per_connect(n: nat)
    requires
        n >= 1,
    ensures
        reconcile_writes(Seq::new(n, |i: int| true), true, true) == 1,
    decreases n,
{
    let s = Seq::new(n, |i: int| true);
    assert(s.last());
    if n == 1 {
        assert(s.drop_last() =~= Seq::<bool>::empty());
        assert(reconcile_writes(s.drop_last(), true, true) == 0);
    } else {
        assert(s[s.len() - 2]);
        assert(s.drop_last() =~= Seq::new((n - 1) as nat, |i: int| true));
        lemma_one_write_per_connect((n - 1) as nat);
    }
}

/// Status line for a snapshot, or `None` while a resident-session reconnect is
/// in progress (the "reconnecting" line must survive later snapshots).
pub fn snapshot_status_line(reconnecting: bool, connected: bool) -> (r: Option<&'static str>)
    ensures
        reconnecting ==> r is None,
        !reconnecting && connected ==> (r matches Some(s) && s@ == "Connected."@),
        !reconnecting && !connected ==> (r matches Some(s) && s@ == "Disconnected."@),
{
    if reconnecting {
        None
    } else if connected {
        Some("Connected.")
    } else {
        Some("Disconnected.")
    }
}

/// Whether an error message ends the reconnecting state: re-bootstrap progress
/// reports are not terminal, the supervisor is still retrying.
pub fn is_terminal_error(message: &str) -> (r: bool)
    ensures
        r == !has_prefix(message@, "re-bootstrap:"@),
{
    !starts_with_chars(chars_of(message).as_slice(), chars_of("re-bootstrap:").as_slice())
}

/// Optimistic UI toggles that roll back when their write fails.
#[derive(Debug, Clone, Copy, PartialEq, Eq, Structural)]
pub enum ToggleKind {
    GameMode,
    SleepMode,
    InEarDetection,
}

/// The toggle an event message belongs to, by its feature prefix.
pub open spec fn spec_toggle_for(message: Seq<char>) -> Option<ToggleKind> {
    if has_prefix(message, "game mode"@) {
        Some(ToggleKind::GameMode)
    } else if has_prefix(message, "sleep mode"@) {
        Some(ToggleKind::SleepMode)
    } else if has_prefix(message, "in-ear detection"@) {
        Some(ToggleKind::InEarDetection)
    } else {
        None
    }
}

/// Routes a toggle write result ("game mode ...", "sleep mode ...",
/// "in-ear detection ...") to its toggle.
pub fn toggle_for_message(message: &str) -> (r: Option<ToggleKind>)
    ensures
        r == spec_toggle_for(message@),
{
    let m = chars_of(message);
    if starts_with_chars(m.as_slice(), chars_of("game mode").as_slice()) {
        Some(ToggleKind::GameMode)
    } else if starts_with_chars(m.as_slice(), chars_of("sleep mode").as_slice()) {
        Some(ToggleKind::SleepMode)
    } else if starts_with_chars(m.as_slice(), chars_of("in-ear detection").as_slice()) {
        Some(ToggleKind::InEarDetection)
    } else {
        None
    }
}

/// The UI index of a noise mode, in button order; `-1` when unknown (no write
/// this session), so every button stays enabled.
pub open spec fn spec_noise_index(noise: Option<SimpleNoise>) -> int {
    match noise {
        None => -1,
        Some(SimpleNoise::Off) => 0,
        Some(SimpleNoise::Anc) => 1,
        Some(SimpleNoise::Adaptive) => 2,
        Some(SimpleNoise::Commuting) => 3,
        Some(SimpleNoise::Noisy) => 4,
        Some(SimpleNoise::Wind) => 5,
        Some(SimpleNoise::Transparency) => 6,
    }
}

/// The UI index of a noise mode; `-1` when unknown (no write this session).
pub fn noise_index(noise: Option<SimpleNoise>) -> (r: i32)
    ensures
        r == spec_noise_index(noise),
        noise is None <==> r == -1,
        0 <= r + 1 <= 7,
{
    match noise {
        None => -1,
        Some(SimpleNoise::Off) => 0,
        Some(SimpleNoise::Anc) => 1,
        Some(SimpleNoise::Adaptive) => 2,
        Some(SimpleNoise::Commuting) => 3,
        Some(SimpleNoise::Noisy) => 4,
        Some(SimpleNoise::Wind) => 5,
        Some(SimpleNoise::Transparency) => 6,
    }
}

/// Separator between codec facts.
pub open spec fn codec_separator() -> Seq<char> {
    " \u{00b7} "@
}

/// The known codec facts, each as text.
pub open spec fn codec_parts(info: CodecInfo) -> Seq<Seq<char>> {
    let a: Seq<Seq<char>> = match info.codec {
        Some(c) => seq![c@],
        None => Seq::empty(),
    };
    let b: Seq<Seq<char>> = match info.sample_rate_hz {
        Some(r) => a.push(decimal(r as nat) + " Hz"@),
        None => a,
    };
    match info.profile {
        Some(p) => b.push(p@),
        None => b,
    }
}

/// Texts joined with a separator.
pub open spec fn join(parts: Seq<Seq<char>>, sep: Seq<char>) -> Seq<char>
    decreases parts.len(),
{
    if parts.len() == 0 {
        Seq::empty()
    } else if parts.len() == 1 {
        parts[0]
    } else {
        join(parts.drop_last(), sep) + sep + parts.last()
    }
}

fn decimal_u32(n: u32) -> (s: Vec<char>)
    ensures
        s@ == decimal(n as nat),
    decreases n,
{
    if n < 10 {
        let mut v: Vec<char> = Vec::new();
        let d: u8 = n as u8;
        v.push((48 + d) as char);
        assert(v@ =~= decimal(n as nat));
        v
    } else {
        let mut v = decimal_u32(n / 10);
        let d: u8 = (n % 10) as u8;
        v.push((48 + d) as char);
        assert(v@ =~= decimal(n as nat));
        v
    }
}

/// Codec facts for display: `codec · rate Hz · profile` as far as known.
pub fn codec_text(info: &CodecInfo) -> (r: String)
    ensures
        info.codec is None && info.sample_rate_hz is None && info.profile is None ==> r@
            == "unknown (no active A2DP transport exposed by BlueZ)"@,
        !(info.codec is None && info.sample_rate_hz is None && info.profile is None) ==> r@
            == join(codec_parts(*info), codec_separator()),
{
    if info.is_unknown() {
        return string_of(
            chars_of("unknown (no active A2DP transport exposed by BlueZ)").as_slice(),
        );
    }
    let mut parts: Vec<Vec<char>> = Vec::new();
    match &info.codec {
        Some(c) => parts.push(chars_of(c.as_str())),
        None => {},
    }
    match info.sample_rate_hz {
        Some(rate) => {
            let mut t = decimal_u32(rate);
            append_str(&mut t, " Hz");
            parts.push(t);
        },
        None => {},
    }
    match &info.profile {
        Some(p) => parts.push(chars_of(p.as_str())),
        None => {},
    }
    let ghost pv = parts@.map_values(|v: Vec<char>| v@);
    assert(pv =~= codec_parts(*info));
    let mut out: Vec<char> = Vec::new();
    let mut i: usize = 0;
    while i < parts.len()
        invariant
            i <= parts@.len(),
            pv == parts@.map_values(|v: Vec<char>| v@),
            out@ == join(pv.take(i as int), codec_separator()),
        decreases parts@.len() - i,
    {
        assert(pv.take(i + 1).drop_last() =~= pv.take(i as int));
        if i > 0 {
            append_str(&mut out, " \u{00b7} ");
        }
        append_chars(&mut out, parts[i].as_slice());
        i = i + 1;
        assert(out@ =~= join(pv.take(i as int), codec_separator()));
    }
    assert(pv.take(pv.len() as int) =~= pv);
    string_of(out.as_slice())
}

/// Reading a text character by character: the lines completed so far (each
/// without its line ending) and the line in progress.
pub open spec fn line_fold(s: Seq<char>) -> (Seq<Seq<char>>, Seq<char>)
    decreases s.len(),
{
    if s.len() == 0 {
        (Seq::empty(), Seq::empty())
    } else {
        let (done, cur) = line_fold(s.drop_last());
        if s.last() == '\n' {
            (done.push(strip_cr(cur)), Seq::empty())
        } else {
            (done, cur.push(s.last()))
        }
    }
}

/// A line without the carriage return of a `\r\n` ending.
pub open spec fn strip_cr(c: Seq<char>) -> Seq<char> {
    if c.len() > 0 && c.last() == '\r' {
        c.drop_last()
    } else {
        c
    }
}

/// The lines of a text, as `str::lines` gives them: split at `\n` or `\r\n`,
/// the final line ending optional.
pub open spec fn lines_of(s: Seq<char>) -> Seq<Seq<char>> {
    let (done, cur) = line_fold(s);
    if cur.len() == 0 {
        done
    } else {
        done.push(cur)
    }
}

/// The session log after one more line: the old lines, then `<stamp> <line>`,
/// of which the last [`LOG_LIMIT`] are kept, joined by `\n`.
pub open spec fn spec_append_log(current: Seq<char>, stamp: Seq<char>, line: Seq<char>) -> Seq<char> {
    let all = lines_of(current).push(stamp + " "@ + line);
    let kept = if all.len() > LOG_LIMIT {
        all.skip(all.len() - LOG_LIMIT)
    } else {
        all
    };
    join(kept, "\n"@)
}

fn split_lines(s: &[char]) -> (r: Vec<Vec<char>>)
    ensures
        r@.map_values(|v: Vec<char>| v@) == lines_of(s@),
{
    let mut done: Vec<Vec<char>> = Vec::new();
    let mut cur: Vec<char> = Vec::new();
    let mut i: usize = 0;
    assert(s@.take(0) =~= Seq::<char>::empty());
    while i < s.len()
        invariant
            i <= s@.len(),
            done@.map_values(|v: Vec<char>| v@) == line_fold(s@.take(i as int)).0,
            cur@ == line_fold(s@.take(i as int)).1,
        decreases s@.len() - i,
    {
        let ghost prev_done = done@.map_values(|v: Vec<char>| v@);
        assert(s@.take(i + 1).drop_last() =~= s@.take(i as int));
        assert(s@.take(i + 1).last() == s@[i as int]);
        if s[i] == '\n' {
            let n: usize = cur.len();
            if n > 0 && cur[n - 1] == '\r' {
                cur.pop();
            }
            let finished = cur;
            cur = Vec::new();
            done.push(finished);
            assert(done@.map_values(|v: Vec<char>| v@) =~= prev_done.push(finished@));
        } else {
            cur.push(s[i]);
        }
        i = i + 1;
    }
    assert(s@.take(s@.len() as int) =~= s@);
    if cur.len() > 0 {
        let ghost prev_done = done@.map_values(|v: Vec<char>| v@);
        let last = cur;
        done.push(last);
        assert(done@.map_values(|v: Vec<char>| v@) =~= prev_done.push(last@));
    }
    done
}

/// The session log after one more line, stamped by the caller, keeping the
/// last [`LOG_LIMIT`] lines.
pub fn append_log(current: &str, stamp: &str, line: &str) -> (r: String)
    ensures
        r@ == spec_append_log(current@, stamp@, line@),
{
    let cs = chars_of(current);
    let mut lines = split_lines(cs.as_slice());
    let ghost before = lines@.map_values(|v: Vec<char>| v@);
    let mut stamped: Vec<char> = chars_of(stamp);
    append_str(&mut stamped, " ");
    append_str(&mut stamped, line);
    lines.push(stamped);
    let ghost all = lines@.map_values(|v: Vec<char>| v@);
    assert(all =~= before.push(stamp@ + " "@ + line@));
    let start: usize = if lines.len() > LOG_LIMIT {
        lines.len() - LOG_LIMIT
    } else {
        0
    };
    let ghost kept = all.subrange(start as int, all.len() as int);
    assert(kept =~= if all.len() > LOG_LIMIT {
        all.skip(all.len() - LOG_LIMIT)
    } else {
        all
    });
    let mut out: Vec<char> = Vec::new();
    let mut i: usize = start;
    assert(all.subrange(start as int, start as int) =~= Seq::<Seq<char>>::empty());
    while i < lines.len()
        invariant
            start <= i <= lines@.len(),
            all == lines@.map_values(|v: Vec<char>| v@),
            out@ == join(all.subrange(start as int, i as int), "\n"@),
        decreases lines@.len() - i,
    {
        assert(all.subrange(start as int, i + 1).drop_last() =~= all.subrange(start as int, i as int));
        if i > start {
            append_str(&mut out, "\n");
        }
        append_chars(&mut out, lines[i].as_slice());
        i = i + 1;
        assert(out@ =~= join(all.subrange(start as int, i as int), "\n"@));
    }
    string_of(out.as_slice())
}

/// What the device panel shows of a snapshot. Unknown texts are shown as a dash.
pub struct SnapshotView {
    pub connected: bool,
    pub device_name: String,
    pub device_address: String,
    pub model_known: bool,
    pub rssi: String,
    pub firmware: String,
    /// The battery cells, when a battery readout is known.
    pub battery: Option<BatterySnapshot>,
    pub noise_mode: i32,
}

/// The placeholder of an unknown value.
pub open spec fn dash() -> Seq<char> {
    "\u{2014}"@
}

/// A text, or the dash when it is empty.
pub open spec fn or_dash(t: Seq<char>) -> Seq<char> {
    if t.len() == 0 {
        dash()
    } else {
        t
    }
}

fn or_dash_exec(t: &str) -> (r: String)
    ensures
        r@ == or_dash(t@),
{
    let c = chars_of(t);
    if c.len() == 0 {
        string_of(chars_of("\u{2014}").as_slice())
    } else {
        string_of(c.as_slice())
    }
}

/// The panel texts of a snapshot.
pub fn snapshot_view(s: &DeviceSnapshot) -> (r: SnapshotView)
    ensures
        r.connected == s.connected,
        r.device_name@ == or_dash(s.name@),
        r.device_address@ == or_dash(s.address@),
        r.model_known == s.model_known,
        r.rssi@ == match s.rssi {
            Some(v) => i16_text(v) + " dBm"@,
            None => dash(),
        },
        r.firmware@ == match s.firmware {
            Some(f) => f@,
            None => dash(),
        },
        r.battery == s.battery,
        r.noise_mode == spec_noise_index(s.noise),
{
    let rssi = match s.rssi {
        Some(v) => {
            let mut t = i16_chars(v);
            append_str(&mut t, " dBm");
            string_of(t.as_slice())
        },
        None => string_of(chars_of("\u{2014}").as_slice()),
    };
    let firmware = match &s.firmware {
        Some(f) => string_of(chars_of(f.as_str()).as_slice()),
        None => string_of(chars_of("\u{2014}").as_slice()),
    };
    let battery = match &s.battery {
        Some(b) => Some(*b),
        None => None,
    };
    SnapshotView {
        connected: s.connected,
        device_name: or_dash_exec(s.name.as_str()),
        device_address: or_dash_exec(s.address.as_str()),
        model_known: s.model_known,
        rssi,
        firmware,
        battery,
        noise_mode: noise_index(s.noise),
    }
}

} // verus!
