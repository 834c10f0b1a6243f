//! Command-line argument handling and the pure decisions of the `521cctl` tool.
//!
//! Flags are accepted anywhere on the command line (before or after the command
//! word); unknown flags, missing flag values and unexpected extra arguments are
//! hard errors. Write commands (`anc`, `game-mode`) require an explicit mode —
//! there is no silent default. Mock is the default backend; the last backend flag
//! on the line wins.

use vstd::prelude::*;

use crate::app_core::{copy_device, firmware_text, firmware_text_of};
use crate::host::MediaAction;
use crate::text::{
    append_chars, append_str, ascii_lower_chars, ascii_lower_seq, chars_eq, chars_of, decimal,
    decimal_u8, has_prefix, i16_chars, i16_text, starts_with_chars, str_eq, string_of,
};
use crate::transport::{normalize_address, normalized_address, DiscoveredDevice, Transport, TransportError};

verus! {

/// Parsed command-line options.
#[derive(Debug, PartialEq, Eq)]
pub struct Options {
    pub bluez: bool,
    pub spp: bool,
    pub adapter: String,
    pub device: Option<String>,
    /// RFCOMM channel override for `--spp`.
    pub channel: Option<u8>,
    /// Explicit user attestation that the selected device's model is known;
    /// applies to this invocation only.
    pub attest: bool,
    pub help: bool,
}

/// The model of parsed options.
pub struct OptionsModel {
    pub bluez: bool,
    pub spp: bool,
    pub adapter: Seq<char>,
    pub device: Option<Seq<char>>,
    pub channel: Option<u8>,
    pub attest: bool,
    pub help: bool,
}

impl Options {
    pub open spec fn model(&self) -> OptionsModel {
        OptionsModel {
            bluez: self.bluez,
            spp: self.spp,
            adapter: self.adapter@,
            device: match self.device {
                Some(d) => Some(d@),
                None => None,
            },
            channel: self.channel,
            attest: self.attest,
            help: self.help,
        }
    }
}

/// The options before any argument is read: mock backend, adapter `hci0`.
pub open spec fn default_options() -> OptionsModel {
    OptionsModel {
        bluez: false,
        spp: false,
        adapter: "hci0"@,
        device: None,
        channel: None,
        attest: false,
        help: false,
    }
}

/// The value of a decimal digit character.
pub open spec fn digit_value(c: char) -> int {
    c as int - '0' as int
}

/// All characters are ASCII digits.
pub open spec fn all_digits(s: Seq<char>) -> bool {
    forall|i: int| 0 <= i < s.len() ==> '0' <= #[trigger] s[i] && s[i] <= '9'
}

/// The number a digit string spells.
pub open spec fn digits_value(s: Seq<char>) -> int
    decreases s.len(),
{
    if s.len() == 0 {
        0
    } else {
        10 * digits_value(s.drop_last()) + digit_value(s.last())
    }
}

/// What `str::parse::<u8>` accepts: an optional `+`, then one or more ASCII
/// digits whose value is at most 255.
pub open spec fn spec_parse_u8(s: Seq<char>) -> Option<u8> {
    let d = if s.len() > 0 && s[0] == '+' {
        s.drop_first()
    } else {
        s
    };
    if d.len() > 0 && all_digits(d) && digits_value(d) <= 255 {
        Some(digits_value(d) as u8)
    } else {
        None
    }
}

proof fn lemma_digits_value_nonneg(s: Seq<char>)
    requires
        all_digits(s),
    ensures
        digits_value(s) >= 0,
    decreases s.len(),
{
    if s.len() > 0 {
        assert(all_digits(s.drop_last())) by {
            assert forall|i: int| 0 <= i < s.drop_last().len() implies '0' <= #[trigger] s.drop_last()[i]
                && s.drop_last()[i] <= '9' by {
                assert(s.drop_last()[i] == s[i]);
            }
        }
        lemma_digits_value_nonneg(s.drop_last());
        assert('0' <= s[s.len() - 1]);
    }
}

proof fn lemma_digits_value_grows(s: Seq<char>, k: int)
    requires
        all_digits(s),
        0 <= k <= s.len(),
    ensures
        digits_value(s.take(k)) <= digits_value(s),
    decreases s.len() - k,
{
    if k < s.len() {
        lemma_digits_value_grows(s, k + 1);
        assert(s.take(k + 1).drop_last() =~= s.take(k));
        assert(all_digits(s.take(k))) by {
            assert forall|i: int| 0 <= i < s.take(k).len() implies '0' <= #[trigger] s.take(k)[i]
                && s.take(k)[i] <= '9' by {
                assert(s.take(k)[i] == s[i]);
            }
        }
        lemma_digits_value_nonneg(s.take(k));
        assert('0' <= s[k]);
        assert(s.take(k + 1).last() == s[k]);
    } else {
        assert(s.take(k) =~= s);
    }
}

/// Parses a `u8` the way `str::parse::<u8>` does.
pub fn parse_u8(s: &str) -> (r: Option<u8>)
    ensures
        r == spec_parse_u8(s@),
{
    let cs = chars_of(s);
    let start: usize = if cs.len() > 0 && cs[0] == '+' {
        1
    } else {
        0
    };
    let ghost d = if s@.len() > 0 && s@[0] == '+' {
        s@.drop_first()
    } else {
        s@
    };
    assert(d =~= cs@.subrange(start as int, cs@.len() as int));
    if start >= cs.len() {
        return None;
    }
    let mut value: u32 = 0;
    let mut i: usize = start;
    while i < cs.len()
        invariant
            start <= i <= cs@.len(),
            start < cs@.len(),
            cs@ == s@,
            d == (if s@.len() > 0 && s@[0] == '+' {
                s@.drop_first()
            } else {
                s@
            }),
            d == cs@.subrange(start as int, cs@.len() as int),
            all_digits(d.take(i - start)),
            value as int == digits_value(d.take(i - start)),
            value <= 255,
        decreases cs@.len() - i,
    {
        let c = cs[i];
        if !('0' <= c && c <= '9') {
            assert(d[i - start] == c);
            assert(!all_digits(d)) by {
                assert(!('0' <= d[i - start] && d[i - start] <= '9'));
            }
            return None;
        }
        let ghost t = d.take(i - start + 1);
        assert(t.drop_last() =~= d.take(i - start));
        assert(t.last() == c);
        assert(all_digits(t)) by {
            assert forall|j: int| 0 <= j < t.len() implies '0' <= #[trigger] t[j] && t[j] <= '9' by {
                if j < t.len() - 1 {
                    assert(t[j] == d.take(i - start)[j]);
                }
            }
        }
        let digit: u32 = (c as u32) - ('0' as u32);
        value = value * 10 + digit;
        if value > 255 {
            proof {
                if all_digits(d) {
                    lemma_digits_value_grows(d, i - start + 1);
                }
            }
            return None;
        }
        i = i + 1;
    }
    assert(d.take(cs@.len() - start) =~= d);
    Some(value as u8)
}

/// What taking a flag's value yields: a missing value and a value that looks
/// like the next flag are errors.
pub open spec fn spec_flag_value(args: Seq<Seq<char>>, i: int, flag: Seq<char>) -> Result<
    Seq<char>,
    Seq<char>,
> {
    if i >= args.len() {
        Err(flag + " requires a value (see `521cctl help`)"@)
    } else if has_prefix(args[i], "--"@) {
        Err(flag + " requires a value; got another flag (`"@ + args[i] + "`)"@)
    } else {
        Ok(args[i])
    }
}

/// The options and positional arguments after reading `args[i..]` from the
/// given state, or the error message of the first bad argument.
pub open spec fn spec_parse_from(
    args: Seq<Seq<char>>,
    i: int,
    o: OptionsModel,
    rest: Seq<Seq<char>>,
) -> Result<(OptionsModel, Seq<Seq<char>>), Seq<char>>
    decreases args.len() - i, 
{
    if i < 0 || i >= args.len() {
        Ok((o, rest))
    } else {
        let a = args[i];
        if a == "--bluez"@ {
            spec_parse_from(args, i + 1, OptionsModel { bluez: true, ..o }, rest)
        } else if a == "--spp"@ {
            spec_parse_from(args, i + 1, OptionsModel { spp: true, ..o }, rest)
        } else if a == "--mock"@ {
            spec_parse_from(args, i + 1, OptionsModel { bluez: false, spp: false, ..o }, rest)
        } else if a == "--adapter"@ {
            match spec_flag_value(args, i + 1, a) {
                Ok(v) => spec_parse_from(args, i + 2, OptionsModel { adapter: v, ..o }, rest),
                Err(m) => Err(m),
            }
        } else if a == "--device"@ {
            match spec_flag_value(args, i + 1, a) {
                Ok(v) => spec_parse_from(args, i + 2, OptionsModel { device: Some(v), ..o }, rest),
                Err(m) => Err(m),
            }
        } else if a == "--channel"@ {
            match spec_flag_value(args, i + 1, a) {
                Ok(v) => match spec_parse_u8(v) {
                    Some(n) => spec_parse_from(
                        args,
                        i + 2,
                        OptionsModel { channel: Some(n), ..o },
                        rest,
                    ),
                    None => Err("--channel: not a number: `"@ + v + "` (expected 1-30)"@),
                },
                Err(m) => Err(m),
            }
        } else if a == "--attest"@ {
            spec_parse_from(args, i + 1, OptionsModel { attest: true, ..o }, rest)
        } else if a == "help"@ || a == "-h"@ || a == "--help"@ {
            spec_parse_from(args, i + 1, OptionsModel { help: true, ..o }, rest)
        } else if has_prefix(a, "-"@) {
            Err("unknown flag: `"@ + a + "` (see `521cctl help`)"@)
        } else {
            spec_parse_from(args, i + 1, o, rest.push(a))
        }
    }
}

/// The view of an argument list.
pub open spec fn args_view(args: Seq<String>) -> Seq<Seq<char>> {
    args.map_values(|s: String| s@)
}

/// Take the value of a flag that requires one: missing values and values that
/// look like the next flag are hard errors, never silent defaults.
pub fn flag_value(args: &Vec<String>, i: usize, flag: &str) -> (r: Result<String, String>)
    ensures
        match spec_flag_value(args_view(args@), i as int, flag@) {
            Ok(v) => r matches Ok(s) && s@ == v,
            Err(m) => r matches Err(s) && s@ == m,
        },
{
    if i >= args.len() {
        let mut out: Vec<char> = Vec::new();
        append_str(&mut out, flag);
        append_str(&mut out, " requires a value (see `521cctl help`)");
        return Err(string_of(out.as_slice()));
    }
    let value = &args[i];
    assert(args_view(args@)[i as int] == value@);
    if starts_with_chars(chars_of(value.as_str()).as_slice(), chars_of("--").as_slice()) {
        let mut out: Vec<char> = Vec::new();
        append_str(&mut out, flag);
        append_str(&mut out, " requires a value; got another flag (`");
        append_str(&mut out, value.as_str());
        append_str(&mut out, "`)");
        return Err(string_of(out.as_slice()));
    }
    Ok(value.clone())
}

fn positional_copy(rest: &Vec<String>) -> (r: Vec<String>)
    ensures
        r@ == rest@,
{
    let mut out: Vec<String> = Vec::new();
    let mut i: usize = 0;
    while i < rest.len()
        invariant
            i <= rest@.len(),
            out@ == rest@.subrange(0, i as int),
        decreases rest@.len() - i,
    {
        out.push(rest[i].clone());
        i = i + 1;
        assert(out@ =~= rest@.subrange(0, i as int));
    }
    assert(rest@.subrange(0, rest@.len() as int) =~= rest@);
    out
}

/// Parse CLI options. Flags are accepted anywhere on the command line, so a
/// backend flag placed after the command word is honored. Unknown flags,
/// missing flag values and unparseable `--channel` values are hard errors.
/// Everything that is not a flag is returned as a positional argument, in order.
pub fn parse_opts(args: Vec<String>) -> (r: Result<(Options, Vec<String>), String>)
    ensures
        match spec_parse_from(args_view(args@), 0, default_options(), Seq::empty()) {
            Ok((o, rest)) => r matches Ok((opts, pos)) && opts.model() == o && args_view(pos@)
                == rest,
            Err(m) => r matches Err(s) && s@ == m,
        },
{
    let ghost av = args_view(args@);
    let mut opts = Options {
        bluez: false,
        spp: false,
        adapter: string_of(chars_of("hci0").as_slice()),
        device: None,
        channel: None,
        attest: false,
        help: false,
    };
    let mut rest: Vec<String> = Vec::new();
    let mut i: usize = 0;
    assert(opts.model() == default_options());
    assert(args_view(rest@) =~= Seq::<Seq<char>>::empty());
    while i < args.len()
        invariant
            i <= args@.len(),
            av == args_view(args@),
            spec_parse_from(av, 0, default_options(), Seq::empty()) == spec_parse_from(
                av,
                i as int,
                opts.model(),
                args_view(rest@),
            ),
        decreases args@.len() - i,
    {
        let a = &args[i];
        assert(av[i as int] == a@);
        let ac = chars_of(a.as_str());
        if chars_eq(ac.as_slice(), chars_of("--bluez").as_slice()) {
            opts.bluez = true;
            i = i + 1;
        } else if chars_eq(ac.as_slice(), chars_of("--spp").as_slice()) {
            opts.spp = true;
            i = i + 1;
        } else if chars_eq(ac.as_slice(), chars_of("--mock").as_slice()) {
            opts.bluez = false;
            opts.spp = false;
            i = i + 1;
        } else if chars_eq(ac.as_slice(), chars_of("--adapter").as_slice()) {
            opts.adapter = flag_value(&args, i + 1, a.as_str())?;
            i = i + 2;
        } else if chars_eq(ac.as_slice(), chars_of("--device").as_slice()) {
            opts.device = Some(flag_value(&args, i + 1, a.as_str())?);
            i = i + 2;
        } else if chars_eq(ac.as_slice(), chars_of("--channel").as_slice()) {
            let raw = flag_value(&args, i + 1, a.as_str())?;
            match parse_u8(raw.as_str()) {
                Some(n) => {
                    opts.channel = Some(n);
                },
                None => {
                    let mut out: Vec<char> = Vec::new();
                    append_str(&mut out, "--channel: not a number: `");
                    append_str(&mut out, raw.as_str());
                    append_str(&mut out, "` (expected 1-30)");
                    return Err(string_of(out.as_slice()));
                },
            }
            i = i + 2;
        } else if chars_eq(ac.as_slice(), chars_of("--attest").as_slice()) {
            opts.attest = true;
            i = i + 1;
        } else if chars_eq(ac.as_slice(), chars_of("help").as_slice()) || chars_eq(
            ac.as_slice(),
            chars_of("-h").as_slice(),
        ) || chars_eq(ac.as_slice(), chars_of("--help").as_slice()) {
            opts.help = true;
            i = i + 1;
        } else if starts_with_chars(ac.as_slice(), chars_of("-").as_slice()) {
            let mut out: Vec<char> = Vec::new();
            append_str(&mut out, "unknown flag: `");
            append_str(&mut out, a.as_str());
            append_str(&mut out, "` (see `521cctl help`)");
            return Err(string_of(out.as_slice()));
        } else {
            let ghost before = args_view(rest@);
            rest.push(a.clone());
            assert(args_view(rest@) =~= before.push(a@));
            i = i + 1;
        }
    }
    Ok((opts, rest))
}

/// Reject unexpected positional arguments after a command's known ones.
pub fn expect_no_more_args(cmd: &str, extra: &[String]) -> (r: Result<(), String>)
    ensures
        extra@.len() == 0 ==> r is Ok,
        extra@.len() > 0 ==> (r matches Err(m) && m@ == "unexpected argument for `"@ + cmd@
            + "`: `"@ + extra@[0]@ + "` (see `521cctl help`)"@),
{
    if extra.len() > 0 {
        let mut out: Vec<char> = Vec::new();
        append_str(&mut out, "unexpected argument for `");
        append_str(&mut out, cmd);
        append_str(&mut out, "`: `");
        append_str(&mut out, extra[0].as_str());
        append_str(&mut out, "` (see `521cctl help`)");
        return Err(string_of(out.as_slice()));
    }
    Ok(())
}

/// The validated `AncSetting` scene table: canonical mode label and scene
/// payload `[mode, subScene, noiseValue]` of each accepted spelling.
pub open spec fn spec_anc_scene(mode: Seq<char>) -> Option<(Seq<char>, Seq<u8>)> {
    if mode == "off"@ {
        Some(("off"@, seq![0x02u8, 0x00u8, 0x00u8]))
    } else if mode == "on"@ || mode == "anc"@ || mode == "indoor"@ {
        Some(("anc"@, seq![0x01u8, 0x01u8, 0x02u8]))
    } else if mode == "commuting"@ {
        Some(("commuting"@, seq![0x01u8, 0x02u8, 0x02u8]))
    } else if mode == "noisy"@ {
        Some(("noisy"@, seq![0x01u8, 0x03u8, 0x02u8]))
    } else if mode == "wind"@ {
        Some(("wind"@, seq![0x01u8, 0x04u8, 0x02u8]))
    } else if mode == "adaptive"@ {
        Some(("adaptive"@, seq![0x01u8, 0x05u8, 0x02u8]))
    } else if mode == "transparency"@ {
        Some(("transparency"@, seq![0x03u8, 0x02u8, 0x04u8]))
    } else {
        None
    }
}

/// The ANC scene of a CLI mode word (the legacy `on` means indoor ANC).
pub fn anc_scene(mode: &str) -> (r: Option<(&'static str, [u8; 3])>)
    ensures
        match spec_anc_scene(mode@) {
            Some((label, scene)) => r matches Some((l, s)) && l@ == label && s@ == scene,
            None => r is None,
        },
{
    let m = chars_of(mode);
    let is = |w: &str| -> (b: bool)
        ensures
            b == (m@ == w@),
        { chars_eq(m.as_slice(), chars_of(w).as_slice()) };
    if is("off") {
        let s: [u8; 3] = [0x02, 0x00, 0x00];
        assert(s@ =~= seq![0x02u8, 0x00u8, 0x00u8]);
        Some(("off", s))
    } else if is("on") || is("anc") || is("indoor") {
        let s: [u8; 3] = [0x01, 0x01, 0x02];
        assert(s@ =~= seq![0x01u8, 0x01u8, 0x02u8]);
        Some(("anc", s))
    } else if is("commuting") {
        let s: [u8; 3] = [0x01, 0x02, 0x02];
        assert(s@ =~= seq![0x01u8, 0x02u8, 0x02u8]);
        Some(("commuting", s))
    } else if is("noisy") {
        let s: [u8; 3] = [0x01, 0x03, 0x02];
        assert(s@ =~= seq![0x01u8, 0x03u8, 0x02u8]);
        Some(("noisy", s))
    } else if is("wind") {
        let s: [u8; 3] = [0x01, 0x04, 0x02];
        assert(s@ =~= seq![0x01u8, 0x04u8, 0x02u8]);
        Some(("wind", s))
    } else if is("adaptive") {
        let s: [u8; 3] = [0x01, 0x05, 0x02];
        assert(s@ =~= seq![0x01u8, 0x05u8, 0x02u8]);
        Some(("adaptive", s))
    } else if is("transparency") {
        let s: [u8; 3] = [0x03, 0x02, 0x04];
        assert(s@ =~= seq![0x03u8, 0x02u8, 0x04u8]);
        Some(("transparency", s))
    } else {
        None
    }
}

/// One battery cell: `<level>%` (charging bit masked off) or `--` when missing.
pub open spec fn battery_cell_text(bytes: Seq<u8>, i: int) -> Seq<char> {
    if i < bytes.len() {
        decimal((bytes[i] & 0x7f) as nat) + "%"@
    } else {
        "--"@
    }
}

/// `L <left>  R <right>  case <case>`.
pub open spec fn spec_battery_label(bytes: Seq<u8>) -> Seq<char> {
    "L "@ + battery_cell_text(bytes, 0) + "  R "@ + battery_cell_text(bytes, 1) + "  case "@
        + battery_cell_text(bytes, 2)
}

fn push_cell(out: &mut Vec<char>, bytes: &[u8], i: usize)
    ensures
        final(out)@ == old(out)@ + battery_cell_text(bytes@, i as int),
{
    if i < bytes.len() {
        let d = decimal_u8(bytes[i] & 0x7f);
        append_chars(out, d.as_slice());
        append_str(out, "%");
    } else {
        append_str(out, "--");
    }
}

/// The battery readout line of raw battery bytes.
pub fn battery_label(bytes: &[u8]) -> (r: String)
    ensures
        r@ == spec_battery_label(bytes@),
{
    let mut out: Vec<char> = Vec::new();
    append_str(&mut out, "L ");
    push_cell(&mut out, bytes, 0);
    append_str(&mut out, "  R ");
    push_cell(&mut out, bytes, 1);
    append_str(&mut out, "  case ");
    push_cell(&mut out, bytes, 2);
    string_of(out.as_slice())
}

/// The firmware readout of raw version bytes: `a.b.c`, or `--` below three bytes.
pub fn firmware_label(bytes: &[u8]) -> (r: String)
    ensures
        bytes@.len() >= 3 ==> r@ == firmware_text_of(bytes@),
        bytes@.len() < 3 ==> r@ == "--"@,
{
    match firmware_text(bytes) {
        Some(t) => t,
        None => string_of(chars_of("--").as_slice()),
    }
}

/// The device `pick_device` selects: the first whose address matches `wanted`
/// ASCII-case-insensitively or whose name equals it; without `wanted`, the first.
pub open spec fn picks(d: DiscoveredDevice, wanted: Seq<char>) -> bool {
    ascii_lower_seq(d.address@) == ascii_lower_seq(wanted) || d.name@ == wanted
}

/// Select the device to operate on from a discovery list.
pub fn pick_device(list: &[DiscoveredDevice], wanted: Option<&str>) -> (r: Result<
    DiscoveredDevice,
    TransportError,
>)
    ensures
        wanted is None && list@.len() > 0 ==> r == Ok::<DiscoveredDevice, TransportError>(
            list@[0],
        ),
        wanted is None && list@.len() == 0 ==> (r matches Err(TransportError::NotFound(m)) && m@
            == "no QCY device discovered"@),
        wanted matches Some(w) ==> match r {
            Ok(d) => exists|k: int|
                0 <= k < list@.len() && list@[k] == d && picks(d, w@) && forall|j: int|
                    0 <= j < k ==> !picks(#[trigger] list@[j], w@),
            Err(e) => e matches TransportError::NotFound(m) && m@ == w@ && forall|j: int|
                0 <= j < list@.len() ==> !picks(#[trigger] list@[j], w@),
        },
{
    match wanted {
        Some(w) => {
            let wl = ascii_lower_chars(chars_of(w).as_slice());
            let wc = chars_of(w);
            let mut i: usize = 0;
            while i < list.len()
                invariant
                    i <= list@.len(),
                    wanted == Some(w),
                    wl@ == ascii_lower_seq(w@),
                    wc@ == w@,
                    forall|j: int| 0 <= j < i ==> !picks(#[trigger] list@[j], w@),
                decreases list@.len() - i,
            {
                let d = &list[i];
                let al = ascii_lower_chars(chars_of(d.address.as_str()).as_slice());
                if chars_eq(al.as_slice(), wl.as_slice()) || chars_eq(
                    chars_of(d.name.as_str()).as_slice(),
                    wc.as_slice(),
                ) {
                    let found = copy_device(d);
                    assert(picks(list@[i as int], w@));
                    assert(found == list@[i as int]);
                    return Ok(found);
                }
                i = i + 1;
            }
            Err(TransportError::NotFound(string_of(wc.as_slice())))
        },
        None => {
            if list.len() > 0 {
                Ok(copy_device(&list[0]))
            } else {
                Err(
                    TransportError::NotFound(
                        string_of(chars_of("no QCY device discovered").as_slice()),
                    ),
                )
            }
        },
    }
}

/// The target device among the devices a scan found: picked from the list; an
/// empty list (SPP devices do not advertise) takes an explicit address, and the
/// device stays read-only until proven or attested.
pub fn resolve_scanned(list: &[DiscoveredDevice], wanted: Option<&str>) -> (r: Result<
    DiscoveredDevice,
    TransportError,
>)
    ensures
        list@.len() > 0 && wanted is None ==> r == Ok::<DiscoveredDevice, TransportError>(list@[0]),
        wanted matches Some(w) ==> (list@.len() > 0 ==> match r {
            Ok(d) => exists|k: int|
                0 <= k < list@.len() && list@[k] == d && picks(d, w@) && forall|j: int|
                    0 <= j < k ==> !picks(#[trigger] list@[j], w@),
            Err(e) => e matches TransportError::NotFound(m) && m@ == w@ && forall|j: int|
                0 <= j < list@.len() ==> !picks(#[trigger] list@[j], w@),
        }),
        wanted matches Some(w) ==> (list@.len() == 0 ==> (r matches Ok(d) && d.address@ == normalized_address(w@)
            && d.name@ == "paired device (no advertisement)"@ && d.rssi is None && !d.model_known)),
        list@.len() == 0 && wanted is None ==> (r matches Err(TransportError::NotFound(m))
            && m@ == "no QCY device discovered; pass --device <addr>"@),
{
    if list.len() > 0 {
        return pick_device(list, wanted);
    }
    match wanted {
        Some(addr) => Ok(
            DiscoveredDevice {
                address: normalize_address(addr),
                name: string_of(chars_of("paired device (no advertisement)").as_slice()),
                rssi: None,
                model_known: false,
            },
        ),
        None => Err(
            TransportError::NotFound(
                string_of(chars_of("no QCY device discovered; pass --device <addr>").as_slice()),
            ),
        ),
    }
}

/// Resolve the target device: scan, then [`resolve_scanned`] on what was found;
/// a failed scan is passed on.
pub fn resolve_device<T: Transport>(t: &mut T, wanted: Option<&str>) -> (r: Result<
    DiscoveredDevice,
    TransportError,
>)
    ensures
        r matches Ok(d) ==> (wanted matches Some(w) ==> (picks(d, w@) || d.address@
            == normalized_address(w@) && !d.model_known)),
{
    let list = t.scan()?;
    resolve_scanned(list.as_slice(), wanted)
}

/// Connect and apply the per-invocation model attestation, if requested.
pub fn attach<T: Transport>(t: &mut T, opts: &Options, dev: &DiscoveredDevice) -> (r: Result<
    (),
    TransportError,
>) {
    t.connect(dev.address.as_str())?;
    if opts.attest {
        t.attest_model_known();
    }
    Ok(())
}


/// The accepted `anc` mode words, as listed in messages.
pub const ANC_MODES: &'static str = "off | on | anc | indoor | commuting | noisy | wind | adaptive | transparency";

/// What the tool does for a parsed command line.
#[derive(Debug, PartialEq, Eq)]
pub enum CliCommand {
    Help,
    Scan,
    Connect { wanted: Option<String> },
    /// `status` (with firmware) or `battery` (without).
    Status { firmware: bool },
    Anc { label: &'static str, scene: [u8; 3] },
    GameMode(bool),
    Media(String),
    Codec,
    /// The gains stay text; they are parsed as decibel numbers by the caller.
    SystemEq { sub: String, gains: Vec<String> },
}

/// The model of a planned command.
pub enum CliModel {
    Help,
    Scan,
    Connect(Option<Seq<char>>),
    Status(bool),
    Anc(Seq<char>, Seq<u8>),
    GameMode(bool),
    Media(Seq<char>),
    Codec,
    SystemEq(Seq<char>, Seq<Seq<char>>),
}

impl CliCommand {
    pub open spec fn model(&self) -> CliModel {
        match self {
            CliCommand::Help => CliModel::Help,
            CliCommand::Scan => CliModel::Scan,
            CliCommand::Connect { wanted } => CliModel::Connect(
                match wanted {
                    Some(w) => Some(w@),
                    None => None,
                },
            ),
            CliCommand::Status { firmware } => CliModel::Status(*firmware),
            CliCommand::Anc { label, scene } => CliModel::Anc(label@, scene@),
            CliCommand::GameMode(on) => CliModel::GameMode(*on),
            CliCommand::Media(sub) => CliModel::Media(sub@),
            CliCommand::Codec => CliModel::Codec,
            CliCommand::SystemEq { sub, gains } => CliModel::SystemEq(sub@, args_view(gains@)),
        }
    }
}

/// The message rejecting an unexpected extra argument.
pub open spec fn unexpected_text(cmd: Seq<char>, extra: Seq<char>) -> Seq<char> {
    "unexpected argument for `"@ + cmd + "`: `"@ + extra + "` (see `521cctl help`)"@
}

/// Rejects positional arguments from index `from` on.
pub open spec fn no_more(cmd: Seq<char>, rest: Seq<Seq<char>>, from: int, ok: CliModel) -> Result<
    CliModel,
    Seq<char>,
> {
    if rest.len() > from {
        Err(unexpected_text(cmd, rest[from]))
    } else {
        Ok(ok)
    }
}

/// What a parsed command line asks for, or the usage error it is refused with.
pub open spec fn spec_plan(o: OptionsModel, rest: Seq<Seq<char>>) -> Result<CliModel, Seq<char>> {
    let cmd = if rest.len() == 0 {
        "help"@
    } else {
        rest[0]
    };
    if o.help {
        Ok(CliModel::Help)
    } else if cmd == "help"@ {
        Ok(CliModel::Help)
    } else if cmd == "scan"@ {
        no_more(cmd, rest, 1, CliModel::Scan)
    } else if cmd == "connect"@ {
        no_more(
            cmd,
            rest,
            2,
            CliModel::Connect(
                if rest.len() > 1 {
                    Some(rest[1])
                } else {
                    o.device
                },
            ),
        )
    } else if cmd == "status"@ || cmd == "battery"@ {
        no_more(cmd, rest, 1, CliModel::Status(cmd == "status"@))
    } else if cmd == "anc"@ {
        if rest.len() < 2 {
            Err("anc requires an explicit mode: "@ + ANC_MODES@)
        } else if rest.len() > 2 {
            Err(unexpected_text(cmd, rest[2]))
        } else {
            match spec_anc_scene(rest[1]) {
                Some((label, scene)) => Ok(CliModel::Anc(label, scene)),
                None => Err("unknown anc mode: `"@ + rest[1] + "`; expected "@ + ANC_MODES@),
            }
        }
    } else if cmd == "game-mode"@ {
        if rest.len() < 2 {
            Err("game-mode requires an explicit value: on | off"@)
        } else if rest.len() > 2 {
            Err(unexpected_text(cmd, rest[2]))
        } else if rest[1] == "on"@ {
            Ok(CliModel::GameMode(true))
        } else if rest[1] == "off"@ {
            Ok(CliModel::GameMode(false))
        } else {
            Err("unknown game-mode value: `"@ + rest[1] + "`; expected on | off"@)
        }
    } else if cmd == "media"@ {
        if rest.len() < 2 {
            Ok(CliModel::Media("status"@))
        } else {
            no_more(cmd, rest, 2, CliModel::Media(rest[1]))
        }
    } else if cmd == "codec"@ {
        no_more(cmd, rest, 1, CliModel::Codec)
    } else if cmd == "system-eq"@ {
        if rest.len() < 2 {
            Ok(CliModel::SystemEq("status"@, Seq::empty()))
        } else {
            Ok(CliModel::SystemEq(rest[1], rest.subrange(2, rest.len() as int)))
        }
    } else {
        Err("unknown command: `"@ + cmd + "` (see `521cctl help`)"@)
    }
}

fn usage(message: String) -> (r: TransportError)
    ensures
        r matches TransportError::InvalidArgument(m) && m@ == message@,
{
    TransportError::InvalidArgument(message)
}

fn text3(a: &str, b: &str, c: &str) -> (r: String)
    ensures
        r@ == a@ + b@ + c@,
{
    let mut out: Vec<char> = Vec::new();
    append_str(&mut out, a);
    append_str(&mut out, b);
    append_str(&mut out, c);
    string_of(out.as_slice())
}

fn is_word(s: &String, w: &str) -> (r: bool)
    ensures
        r == (s@ == w@),
{
    chars_eq(chars_of(s.as_str()).as_slice(), chars_of(w).as_slice())
}

fn check_no_more(cmd: &String, rest: &Vec<String>, from: usize) -> (r: Result<(), TransportError>)
    ensures
        rest@.len() > from ==> (r matches Err(TransportError::InvalidArgument(m)) && m@
            == unexpected_text(cmd@, rest@[from as int]@)),
        rest@.len() <= from ==> r is Ok,
{
    if rest.len() > from {
        let mut out: Vec<char> = Vec::new();
        append_str(&mut out, "unexpected argument for `");
        append_str(&mut out, cmd.as_str());
        append_str(&mut out, "`: `");
        append_str(&mut out, rest[from].as_str());
        append_str(&mut out, "` (see `521cctl help`)");
        return Err(usage(string_of(out.as_slice())));
    }
    Ok(())
}

/// Parses a command line and decides what to run, before any transport is
/// built: malformed arguments, missing or unknown modes and unknown commands
/// are refused as `InvalidArgument` with an actionable message.
pub fn plan_args(args: Vec<String>) -> (r: Result<(Options, CliCommand), TransportError>)
    ensures
        match spec_parse_from(args_view(args@), 0, default_options(), Seq::empty()) {
            Err(m) => r matches Err(TransportError::InvalidArgument(t)) && t@ == m,
            Ok((o, rest)) => match spec_plan(o, rest) {
                Ok(c) => r matches Ok((opts, cmd)) && opts.model() == o && cmd.model() == c,
                Err(m) => r matches Err(TransportError::InvalidArgument(t)) && t@ == m,
            },
        },
{
    let (opts, rest) = match parse_opts(args) {
        Ok(p) => p,
        Err(m) => return Err(usage(m)),
    };
    let ghost rv = args_view(rest@);
    if opts.help {
        return Ok((opts, CliCommand::Help));
    }
    if rest.len() == 0 {
        proof {
            reveal_strlit("help");
        }
        return Ok((opts, CliCommand::Help));
    }
    let cmd = rest[0].clone();
    assert(rv[0] == cmd@);
    if is_word(&cmd, "help") {
        return Ok((opts, CliCommand::Help));
    }
    if is_word(&cmd, "scan") {
        check_no_more(&cmd, &rest, 1)?;
        return Ok((opts, CliCommand::Scan));
    }
    if is_word(&cmd, "connect") {
        check_no_more(&cmd, &rest, 2)?;
        let wanted = if rest.len() > 1 {
            assert(rv[1] == rest@[1]@);
            Some(rest[1].clone())
        } else {
            match &opts.device {
                Some(d) => Some(d.clone()),
                None => None,
            }
        };
        return Ok((opts, CliCommand::Connect { wanted }));
    }
    if is_word(&cmd, "status") || is_word(&cmd, "battery") {
        check_no_more(&cmd, &rest, 1)?;
        let firmware = is_word(&cmd, "status");
        return Ok((opts, CliCommand::Status { firmware }));
    }
    if is_word(&cmd, "anc") {
        if rest.len() < 2 {
            let mut out: Vec<char> = Vec::new();
            append_str(&mut out, "anc requires an explicit mode: ");
            append_str(&mut out, ANC_MODES);
            return Err(usage(string_of(out.as_slice())));
        }
        check_no_more(&cmd, &rest, 2)?;
        assert(rv[1] == rest@[1]@);
        return match anc_scene(rest[1].as_str()) {
            Some((label, scene)) => Ok((opts, CliCommand::Anc { label, scene })),
            None => {
                let mut out: Vec<char> = Vec::new();
                append_str(&mut out, "unknown anc mode: `");
                append_str(&mut out, rest[1].as_str());
                append_str(&mut out, "`; expected ");
                append_str(&mut out, ANC_MODES);
                Err(usage(string_of(out.as_slice())))
            },
        };
    }
    if is_word(&cmd, "game-mode") {
        if rest.len() < 2 {
            return Err(
                usage(string_of(chars_of("game-mode requires an explicit value: on | off").as_slice())),
            );
        }
        check_no_more(&cmd, &rest, 2)?;
        assert(rv[1] == rest@[1]@);
        if is_word(&rest[1], "on") {
            return Ok((opts, CliCommand::GameMode(true)));
        }
        if is_word(&rest[1], "off") {
            return Ok((opts, CliCommand::GameMode(false)));
        }
        return Err(
            usage(text3("unknown game-mode value: `", rest[1].as_str(), "`; expected on | off")),
        );
    }
    if is_word(&cmd, "media") {
        if rest.len() < 2 {
            let sub = string_of(chars_of("status").as_slice());
            return Ok((opts, CliCommand::Media(sub)));
        }
        check_no_more(&cmd, &rest, 2)?;
        assert(rv[1] == rest@[1]@);
        let sub = rest[1].clone();
        return Ok((opts, CliCommand::Media(sub)));
    }
    if is_word(&cmd, "codec") {
        check_no_more(&cmd, &rest, 1)?;
        return Ok((opts, CliCommand::Codec));
    }
    if is_word(&cmd, "system-eq") {
        if rest.len() < 2 {
            let sub = string_of(chars_of("status").as_slice());
            let gains: Vec<String> = Vec::new();
            assert(args_view(gains@) =~= Seq::<Seq<char>>::empty());
            return Ok((opts, CliCommand::SystemEq { sub, gains }));
        }
        assert(rv[1] == rest@[1]@);
        let sub = rest[1].clone();
        let mut gains: Vec<String> = Vec::new();
        let mut i: usize = 2;
        while i < rest.len()
            invariant
                2 <= i,
                rv == args_view(rest@),
                i <= rest@.len() || rest@.len() < 2,
                rest@.len() >= 2 ==> args_view(gains@) == rv.subrange(2, i as int),
                rest@.len() < 2 ==> gains@.len() == 0,
            decreases rest@.len() - i,
        {
            let ghost before = args_view(gains@);
            gains.push(rest[i].clone());
            assert(args_view(gains@) =~= before.push(rv[i as int]));
            i = i + 1;
            assert(rv.subrange(2, i as int) =~= rv.subrange(2, i - 1).push(rv[i - 1]));
        }
        proof {
            if rest@.len() > 2 {
            } else {
                assert(args_view(gains@) =~= Seq::<Seq<char>>::empty());
            }
        }
        return Ok((opts, CliCommand::SystemEq { sub, gains }));
    }
    Err(usage(text3("unknown command: `", cmd.as_str(), "` (see `521cctl help`)")))
}



/// The RFCOMM channels a `--channel` override may name.
pub open spec fn channel_in_range(ch: u8) -> bool {
    1 <= ch <= 30
}

/// An RFCOMM channel override, refused outside 1..=30.
pub fn checked_channel(ch: u8) -> (r: Result<u8, TransportError>)
    ensures
        channel_in_range(ch) ==> r == Ok::<u8, TransportError>(ch),
        !channel_in_range(ch) ==> (r matches Err(TransportError::InvalidArgument(m)) && m@
            == "RFCOMM channel out of range: "@ + decimal(ch as nat)),
{
    if 1 <= ch && ch <= 30 {
        Ok(ch)
    } else {
        let mut out: Vec<char> = Vec::new();
        append_str(&mut out, "RFCOMM channel out of range: ");
        let d = decimal_u8(ch);
        append_chars(&mut out, d.as_slice());
        Err(TransportError::InvalidArgument(string_of(out.as_slice())))
    }
}

/// A `media` subcommand: the status readout or a player action.
#[derive(Debug, Clone, Copy, PartialEq, Eq, Structural)]
pub enum MediaSub {
    Status,
    Action(MediaAction),
}

/// The `media` subcommand a word names.
pub open spec fn spec_media_sub(w: Seq<char>) -> Option<MediaSub> {
    if w == "status"@ {
        Some(MediaSub::Status)
    } else if w == "play"@ {
        Some(MediaSub::Action(MediaAction::Play))
    } else if w == "pause"@ {
        Some(MediaSub::Action(MediaAction::Pause))
    } else if w == "next"@ {
        Some(MediaSub::Action(MediaAction::Next))
    } else if w == "prev"@ || w == "previous"@ {
        Some(MediaSub::Action(MediaAction::Previous))
    } else {
        None
    }
}

/// Parses a `media` subcommand; an unknown word is an invalid argument.
pub fn media_subcommand(sub: &str) -> (r: Result<MediaSub, TransportError>)
    ensures
        match spec_media_sub(sub@) {
            Some(m) => r == Ok::<MediaSub, TransportError>(m),
            None => r matches Err(TransportError::InvalidArgument(t)) && t@ == "unknown media subcommand: "@ + sub@,
        },
{
    if str_eq(sub, "status") {
        Ok(MediaSub::Status)
    } else if str_eq(sub, "play") {
        Ok(MediaSub::Action(MediaAction::Play))
    } else if str_eq(sub, "pause") {
        Ok(MediaSub::Action(MediaAction::Pause))
    } else if str_eq(sub, "next") {
        Ok(MediaSub::Action(MediaAction::Next))
    } else if str_eq(sub, "prev") || str_eq(sub, "previous") {
        Ok(MediaSub::Action(MediaAction::Previous))
    } else {
        let mut out: Vec<char> = Vec::new();
        append_str(&mut out, "unknown media subcommand: ");
        append_str(&mut out, sub);
        Err(TransportError::InvalidArgument(string_of(out.as_slice())))
    }
}

/// A `system-eq` subcommand.
#[derive(Debug, Clone, Copy, PartialEq, Eq, Structural)]
pub enum SystemEqSub {
    On,
    Off,
    Status,
}

/// The `system-eq` subcommand a word names.
pub open spec fn spec_system_eq_sub(w: Seq<char>) -> Option<SystemEqSub> {
    if w == "on"@ || w == "enable"@ {
        Some(SystemEqSub::On)
    } else if w == "off"@ || w == "disable"@ {
        Some(SystemEqSub::Off)
    } else if w == "status"@ {
        Some(SystemEqSub::Status)
    } else {
        None
    }
}

/// Parses a `system-eq` subcommand; an unknown word is an invalid argument.
pub fn system_eq_subcommand(sub: &str) -> (r: Result<SystemEqSub, TransportError>)
    ensures
        match spec_system_eq_sub(sub@) {
            Some(m) => r == Ok::<SystemEqSub, TransportError>(m),
            None => r matches Err(TransportError::InvalidArgument(t)) && t@ == "unknown system-eq subcommand: "@ + sub@,
        },
{
    if str_eq(sub, "on") || str_eq(sub, "enable") {
        Ok(SystemEqSub::On)
    } else if str_eq(sub, "off") || str_eq(sub, "disable") {
        Ok(SystemEqSub::Off)
    } else if str_eq(sub, "status") {
        Ok(SystemEqSub::Status)
    } else {
        let mut out: Vec<char> = Vec::new();
        append_str(&mut out, "unknown system-eq subcommand: ");
        append_str(&mut out, sub);
        Err(TransportError::InvalidArgument(string_of(out.as_slice())))
    }
}

/// One line of the `scan` listing: address, name, model truth and signal.
pub open spec fn spec_scan_line(d: DiscoveredDevice) -> Seq<char> {
    d.address@ + "  "@ + d.name@ + "  "@ + (if d.model_known {
        "HT08"@
    } else {
        "unknown-model (read-only)"@
    }) + "  "@ + match d.rssi {
        Some(r) => i16_text(r) + " dBm"@,
        None => "?"@,
    }
}

/// Formats one line of the `scan` listing; a model that the name does not
/// prove is shown as read-only.
pub fn scan_line(d: &DiscoveredDevice) -> (r: String)
    ensures
        r@ == spec_scan_line(*d),
{
    let mut out: Vec<char> = Vec::new();
    append_str(&mut out, d.address.as_str());
    append_str(&mut out, "  ");
    append_str(&mut out, d.name.as_str());
    append_str(&mut out, "  ");
    if d.model_known {
        append_str(&mut out, "HT08");
    } else {
        append_str(&mut out, "unknown-model (read-only)");
    }
    append_str(&mut out, "  ");
    match d.rssi {
        Some(r) => {
            let t = i16_chars(r);
            append_chars(&mut out, t.as_slice());
            append_str(&mut out, " dBm");
        },
        None => append_str(&mut out, "?"),
    }
    string_of(out.as_slice())
}

/// `status` connects and reads both the battery and the firmware version;
/// `battery` reads the battery only. Whatever else the arguments hold, a
/// planned readout asks for the firmware exactly when its word is `status`.
pub proof fn lemma_status_reads_firmware(o: OptionsModel, rest: Seq<Seq<char>>)
    requires
        !o.help,
    ensures
        rest == seq!["status"@] ==> spec_plan(o, rest) == Ok::<CliModel, Seq<char>>(CliModel::Status(true)),
        rest == seq!["battery"@] ==> spec_plan(o, rest) == Ok::<CliModel, Seq<char>>(CliModel::Status(false)),
        spec_plan(o, rest) matches Ok(CliModel::Status(fw)) ==> rest.len() > 0 && (fw <==> rest[0] == "status"@),
{
    reveal_strlit("status");
    reveal_strlit("battery");
    reveal_strlit("help");
    reveal_strlit("scan");
    reveal_strlit("connect");
    if rest == seq!["status"@] {
        assert(rest.len() == 1 && rest[0] == "status"@);
        assert("status"@.len() != "help"@.len());
        assert("status"@.len() != "scan"@.len());
        assert("status"@.len() != "connect"@.len());
    }
    if rest == seq!["battery"@] {
        assert(rest.len() == 1 && rest[0] == "battery"@);
        assert("battery"@.len() != "help"@.len());
        assert("battery"@.len() != "scan"@.len());
        assert("battery"@[0] != "connect"@[0]);
        assert("battery"@ != "status"@);
    }
}

} // verus!
