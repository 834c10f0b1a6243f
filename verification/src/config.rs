//! Versioned, validated configuration: the field rules of the JSON contract.
//!
//! External data is never trusted: it is validated field by field before it can
//! touch application state, and invalid input is rejected with structured errors
//! (a path and a message per problem). A JSON document is modelled by
//! [`JsonValue`]; a number carries the integer readings the rules use.
//!
//! Field classes: portable (exported and persisted), local-only (persisted on this
//! machine, never exported) and runtime (never persisted).

use vstd::prelude::*;

use crate::text::{append_chars, append_str, chars_eq, chars_of, decimal, has_prefix, str_eq, string_of};

verus! {

/// Current configuration schema version.
pub const CONFIG_SCHEMA_VERSION: u32 = 1;

pub const MAX_CUSTOM_EQ: usize = 64;
pub const MAX_CUSTOM_PROFILES: usize = 64;
pub const MAX_ID_LEN: usize = 64;
pub const MAX_NAME_LEN: usize = 80;
pub const MAX_DESCRIPTION_LEN: usize = 280;
pub const MAX_KEYWORD_LEN: usize = 64;
pub const ANC_LEVEL_MIN: i64 = 1;
pub const ANC_LEVEL_MAX: i64 = 3;
pub const TRANSPARENCY_LEVEL_MIN: i64 = 1;
pub const TRANSPARENCY_LEVEL_MAX: i64 = 7;
pub const SLEEP_TIMER_MIN: i64 = 5;
pub const SLEEP_TIMER_MAX: i64 = 240;
/// The profile that is active before the user picks one.
pub const DEFAULT_ACTIVE_PROFILE_ID: &'static str = "music";
/// The window-title keyword that turns automatic game mode on.
pub const DEFAULT_AUTO_GAME_KEYWORD: &'static str = "game";
/// Whether MAC addresses are hidden in the interface unless the user shows them.
pub const DEFAULT_HIDE_MAC: bool = true;
/// The sleep timer, in minutes, before the user sets one.
pub const DEFAULT_SLEEP_TIMER_MIN: i64 = 30;

/// A parsed JSON value. A number keeps its readings as a signed and as an
/// unsigned 64-bit integer (`None` where it is not such an integer, e.g. `1.5`).
#[derive(Debug, PartialEq, Eq)]
pub enum JsonValue {
    Null,
    Bool(bool),
    Number { as_i64: Option<i64>, as_u64: Option<u64> },
    Str(String),
    Array(Vec<JsonValue>),
    Object(Vec<(String, JsonValue)>),
}

#[derive(Debug, Clone, Copy, PartialEq, Eq, Structural)]
pub enum ThemeMode {
    Dark,
    Light,
}

#[derive(Debug, Clone, Copy, PartialEq, Eq, Structural)]
pub enum NoiseUiMode {
    Off,
    Anc,
    Adaptive,
    Indoor,
    Commuting,
    Noisy,
    Transparency,
}

#[derive(Debug, Clone, Copy, PartialEq, Eq, Structural)]
pub struct NotifyPrefs {
    pub connected: bool,
    pub disconnected: bool,
    pub battery_low: bool,
    pub battery_critical: bool,
    pub battery_uneven: bool,
    pub profile_switch: bool,
}

/// A user smart profile. Imported and persisted profiles are never builtin.
#[derive(Debug, Clone, PartialEq, Eq)]
pub struct SmartProfile {
    pub id: String,
    pub name: String,
    pub description: String,
    pub builtin: bool,
    pub noise: NoiseUiMode,
    pub anc_level: i64,
    pub transparency_level: i64,
    pub game_mode: bool,
    pub eq_id: String,
    pub wear_detection: bool,
    pub trigger_app: Option<String>,
}

/// One validation problem: where and what.
#[derive(Debug, Clone, PartialEq, Eq)]
pub struct ConfigError {
    pub path: String,
    pub message: String,
}

/// The model of a validation problem: (path, message).
pub open spec fn error_model(e: ConfigError) -> (Seq<char>, Seq<char>) {
    (e.path@, e.message@)
}

/// Every notification enabled.
pub fn default_notify() -> (r: NotifyPrefs)
    ensures
        r == (NotifyPrefs {
            connected: true,
            disconnected: true,
            battery_low: true,
            battery_critical: true,
            battery_uneven: true,
            profile_switch: true,
        }),
{
    NotifyPrefs {
        connected: true,
        disconnected: true,
        battery_low: true,
        battery_critical: true,
        battery_uneven: true,
        profile_switch: true,
    }
}

/// Collects validation problems in order.
pub struct Validator {
    pub errors: Vec<ConfigError>,
}

impl Validator {
    pub open spec fn model(&self) -> Seq<(Seq<char>, Seq<char>)> {
        self.errors@.map_values(|e: ConfigError| error_model(e))
    }

    pub fn new() -> (r: Self)
        ensures
            r.model().len() == 0,
    {
        Validator { errors: Vec::new() }
    }

    /// Records one problem.
    pub fn fail(&mut self, path: String, message: String)
        ensures
            final(self).model() == old(self).model().push((path@, message@)),
    {
        self.errors.push(ConfigError { path, message });
        assert(self.model() =~= old(self).model().push((path@, message@)));
    }
}

/// The value stored under `key` in an object's entries (first match).
pub open spec fn spec_lookup(entries: Seq<(String, JsonValue)>, key: Seq<char>) -> Option<JsonValue>
    decreases entries.len(),
{
    if entries.len() == 0 {
        None
    } else if entries[0].0@ == key {
        Some(entries[0].1)
    } else {
        spec_lookup(entries.drop_first(), key)
    }
}

/// The entry stored under `key`.
pub fn lookup<'a>(entries: &'a Vec<(String, JsonValue)>, key: &str) -> (r: Option<&'a JsonValue>)
    ensures
        match r {
            Some(v) => spec_lookup(entries@, key@) == Some(*v),
            None => spec_lookup(entries@, key@) is None,
        },
{
    let want = chars_of(key);
    let mut i: usize = 0;
    assert(entries@.skip(0) =~= entries@);
    while i < entries.len()
        invariant
            i <= entries@.len(),
            want@ == key@,
            spec_lookup(entries@, key@) == spec_lookup(entries@.skip(i as int), key@),
        decreases entries@.len() - i,
    {
        let ghost rest = entries@.skip(i as int);
        assert(rest[0] == entries@[i as int]);
        assert(rest.drop_first() =~= entries@.skip(i + 1));
        if chars_eq(chars_of(entries[i].0.as_str()).as_slice(), want.as_slice()) {
            return Some(&entries[i].1);
        }
        i = i + 1;
    }
    None
}

/// The bytes a character takes in UTF-8.
pub open spec fn char_utf8_len(c: char) -> nat {
    if (c as u32) < 0x80 {
        1
    } else if (c as u32) < 0x800 {
        2
    } else if (c as u32) < 0x10000 {
        3
    } else {
        4
    }
}

/// The UTF-8 byte length of a text (what `str::len` reports).
pub open spec fn utf8_len(s: Seq<char>) -> nat
    decreases s.len(),
{
    if s.len() == 0 {
        0
    } else {
        utf8_len(s.drop_last()) + char_utf8_len(s.last())
    }
}

proof fn lemma_utf8_len_monotone(s: Seq<char>, k: int)
    requires
        0 <= k <= s.len(),
    ensures
        utf8_len(s.take(k)) <= utf8_len(s),
    decreases s.len() - k,
{
    if k < s.len() {
        lemma_utf8_len_monotone(s, k + 1);
        assert(s.take(k + 1).drop_last() =~= s.take(k));
    } else {
        assert(s.take(k) =~= s);
    }
}

/// Whether the UTF-8 length of a text exceeds `max`.
pub fn utf8_longer_than(s: &str, max: usize) -> (r: bool)
    ensures
        r == (utf8_len(s@) > max),
{
    let cs = chars_of(s);
    let mut total: usize = 0;
    let mut i: usize = 0;
    while i < cs.len()
        invariant
            i <= cs@.len(),
            cs@ == s@,
            total == utf8_len(cs@.take(i as int)),
            total <= max,
        decreases cs@.len() - i,
    {
        let c = cs[i];
        let w: usize = if (c as u32) < 0x80 {
            1
        } else if (c as u32) < 0x800 {
            2
        } else if (c as u32) < 0x10000 {
            3
        } else {
            4
        };
        assert(cs@.take(i + 1).drop_last() =~= cs@.take(i as int));
        assert(cs@.take(i + 1).last() == c);
        if w > max - total {
            proof {
                lemma_utf8_len_monotone(cs@, i + 1);
            }
            return true;
        }
        total = total + w;
        i = i + 1;
    }
    assert(cs@.take(cs@.len() as int) =~= cs@);
    false
}

/// `path.key`.
pub open spec fn field_path(path: Seq<char>, key: Seq<char>) -> Seq<char> {
    path + "."@ + key
}

fn join_path(path: &str, key: &str) -> (r: String)
    ensures
        r@ == field_path(path@, key@),
{
    let mut out: Vec<char> = Vec::new();
    append_str(&mut out, path);
    append_str(&mut out, ".");
    append_str(&mut out, key);
    string_of(out.as_slice())
}

fn text(s: &str) -> (r: String)
    ensures
        r@ == s@,
{
    string_of(chars_of(s).as_slice())
}

/// What reading a value as an object yields; a non-object is a problem.
pub open spec fn spec_as_object(v: JsonValue, path: Seq<char>) -> (Option<Seq<(String, JsonValue)>>, Seq<(Seq<char>, Seq<char>)>) {
    match v {
        JsonValue::Object(m) => (Some(m@), Seq::empty()),
        _ => (None, seq![(path, "expected a JSON object"@)]),
    }
}

/// Reads a value as an object; anything else is recorded as a problem.
pub fn as_object<'a>(value: &'a JsonValue, path: &str, v: &mut Validator) -> (r: Option<&'a Vec<(String, JsonValue)>>)
    ensures
        ({
            let (o, errs) = spec_as_object(*value, path@);
            &&& match r {
                Some(m) => o == Some(m@),
                None => o is None,
            }
            &&& final(v).model() == old(v).model() + errs
        }),
{
    match value {
        JsonValue::Object(map) => {
            assert(v.model() + Seq::<(Seq<char>, Seq<char>)>::empty() =~= v.model());
            Some(map)
        },
        _ => {
            let ghost before = v.model();
            v.fail(text(path), text("expected a JSON object"));
            assert(v.model() =~= before + seq![(path@, "expected a JSON object"@)]);
            None
        },
    }
}

/// A boolean field: absent or null takes the fallback; a non-boolean is a problem.
pub open spec fn spec_get_bool(
    m: Seq<(String, JsonValue)>,
    key: Seq<char>,
    path: Seq<char>,
    fallback: bool,
) -> (Option<bool>, Seq<(Seq<char>, Seq<char>)>) {
    match spec_lookup(m, key) {
        None => (Some(fallback), Seq::empty()),
        Some(JsonValue::Null) => (Some(fallback), Seq::empty()),
        Some(JsonValue::Bool(b)) => (Some(b), Seq::empty()),
        Some(_) => (None, seq![(field_path(path, key), "expected a boolean"@)]),
    }
}

pub fn get_bool(
    map: &Vec<(String, JsonValue)>,
    key: &str,
    path: &str,
    v: &mut Validator,
    fallback: bool,
) -> (r: Option<bool>)
    ensures
        ({
            let (b, errs) = spec_get_bool(map@, key@, path@, fallback);
            r == b && final(v).model() == old(v).model() + errs
        }),
{
    let ghost before = v.model();
    match lookup(map, key) {
        None => {
            assert(before + Seq::<(Seq<char>, Seq<char>)>::empty() =~= before);
            Some(fallback)
        },
        Some(JsonValue::Null) => {
            assert(before + Seq::<(Seq<char>, Seq<char>)>::empty() =~= before);
            Some(fallback)
        },
        Some(JsonValue::Bool(b)) => {
            assert(before + Seq::<(Seq<char>, Seq<char>)>::empty() =~= before);
            Some(*b)
        },
        Some(_) => {
            v.fail(join_path(path, key), text("expected a boolean"));
            assert(v.model() =~= before + seq![(field_path(path@, key@), "expected a boolean"@)]);
            None
        },
    }
}

/// `longer than <max> characters`.
pub open spec fn too_long_text(max: nat) -> Seq<char> {
    "longer than "@ + decimal(max) + " characters"@
}

fn decimal_usize(n: usize) -> (s: Vec<char>)
    ensures
        s@ == decimal(n as nat),
    decreases n,
{
    if n < 10 {
        let mut v: Vec<char> = Vec::new();
        let d: u8 = n as u8;
        v.push((48 + d) as char);
        assert(v@ =~= decimal(n as nat));
        v
    } else {
        let mut v = decimal_usize(n / 10);
        let d: u8 = (n % 10) as u8;
        v.push((48 + d) as char);
        assert(v@ =~= decimal(n as nat));
        v
    }
}

/// A text field of at most `max_len` UTF-8 bytes: absent or null takes the
/// fallback; a longer text or a non-text is a problem.
pub open spec fn spec_get_string(
    m: Seq<(String, JsonValue)>,
    key: Seq<char>,
    path: Seq<char>,
    max_len: nat,
    fallback: Seq<char>,
) -> (Option<Seq<char>>, Seq<(Seq<char>, Seq<char>)>) {
    match spec_lookup(m, key) {
        None => (Some(fallback), Seq::empty()),
        Some(JsonValue::Null) => (Some(fallback), Seq::empty()),
        Some(JsonValue::Str(s)) => if utf8_len(s@) > max_len {
            (None, seq![(field_path(path, key), too_long_text(max_len))])
        } else {
            (Some(s@), Seq::empty())
        },
        Some(_) => (None, seq![(field_path(path, key), "expected a string"@)]),
    }
}

pub fn get_string(
    map: &Vec<(String, JsonValue)>,
    key: &str,
    path: &str,
    v: &mut Validator,
    max_len: usize,
    fallback: &str,
) -> (r: Option<String>)
    ensures
        ({
            let (s, errs) = spec_get_string(map@, key@, path@, max_len as nat, fallback@);
            &&& match r {
                Some(t) => s == Some(t@),
                None => s is None,
            }
            &&& final(v).model() == old(v).model() + errs
        }),
{
    let ghost before = v.model();
    match lookup(map, key) {
        None => {
            assert(before + Seq::<(Seq<char>, Seq<char>)>::empty() =~= before);
            Some(text(fallback))
        },
        Some(JsonValue::Null) => {
            assert(before + Seq::<(Seq<char>, Seq<char>)>::empty() =~= before);
            Some(text(fallback))
        },
        Some(JsonValue::Str(s)) => {
            if utf8_longer_than(s.as_str(), max_len) {
                let mut msg: Vec<char> = Vec::new();
                append_str(&mut msg, "longer than ");
                let d = decimal_usize(max_len);
                append_chars(&mut msg, d.as_slice());
                append_str(&mut msg, " characters");
                v.fail(join_path(path, key), string_of(msg.as_slice()));
                assert(v.model() =~= before + seq![
                    (field_path(path@, key@), too_long_text(max_len as nat)),
                ]);
                None
            } else {
                assert(before + Seq::<(Seq<char>, Seq<char>)>::empty() =~= before);
                Some(s.clone())
            }
        },
        Some(_) => {
            v.fail(join_path(path, key), text("expected a string"));
            assert(v.model() =~= before + seq![(field_path(path@, key@), "expected a string"@)]);
            None
        },
    }
}

/// A required text field (an id or a name): as `spec_get_string` with an empty
/// fallback, except that an absent, null or empty text is a problem too.
pub open spec fn spec_get_name(
    m: Seq<(String, JsonValue)>,
    key: Seq<char>,
    path: Seq<char>,
    max_len: nat,
) -> (Option<Seq<char>>, Seq<(Seq<char>, Seq<char>)>) {
    let (s, errs) = spec_get_string(m, key, path, max_len, ""@);
    match s {
        Some(t) => if t.len() == 0 {
            (None, seq![(field_path(path, key), "must not be empty"@)])
        } else {
            (Some(t), errs)
        },
        None => (None, errs),
    }
}

/// Reads a required text field (see `spec_get_name`).
pub fn get_name(
    map: &Vec<(String, JsonValue)>,
    key: &str,
    path: &str,
    v: &mut Validator,
    max_len: usize,
) -> (r: Option<String>)
    ensures
        ({
            let (s, errs) = spec_get_name(map@, key@, path@, max_len as nat);
            &&& match r {
                Some(t) => s == Some(t@),
                None => s is None,
            }
            &&& final(v).model() == old(v).model() + errs
        }),
{
    let ghost before = v.model();
    match get_string(map, key, path, v, max_len, "") {
        Some(t) => {
            if t.unicode_len() == 0 {
                proof {
                    assert(spec_get_string(map@, key@, path@, max_len as nat, ""@).1.len() == 0) by {
                        reveal_strlit("");
                    }
                    assert(v.model() =~= before);
                }
                v.fail(join_path(path, key), text("must not be empty"));
                None
            } else {
                Some(t)
            }
        },
        None => None,
    }
}

/// Decimal text of a signed integer.
pub open spec fn signed_decimal(n: int) -> Seq<char> {
    if n < 0 {
        "-"@ + decimal((-n) as nat)
    } else {
        decimal(n as nat)
    }
}

fn decimal_u64(n: u64) -> (s: Vec<char>)
    ensures
        s@ == decimal(n as nat),
    decreases n,
{
    if n < 10 {
        let mut v: Vec<char> = Vec::new();
        let d: u8 = n as u8;
        v.push((48 + d) as char);
        assert(v@ =~= decimal(n as nat));
        v
    } else {
        let mut v = decimal_u64(n / 10);
        let d: u8 = (n % 10) as u8;
        v.push((48 + d) as char);
        assert(v@ =~= decimal(n as nat));
        v
    }
}

fn decimal_i64(n: i64) -> (s: Vec<char>)
    ensures
        s@ == signed_decimal(n as int),
{
    if n < 0 {
        let m: u64 = if n == i64::MIN {
            9223372036854775808u64
        } else {
            (-n) as u64
        };
        let mut out: Vec<char> = Vec::new();
        out.push('-');
        let d = decimal_u64(m);
        append_chars(&mut out, d.as_slice());
        proof {
            reveal_strlit("-");
        }
        assert(out@ =~= "-"@ + decimal((-(n as int)) as nat));
        out
    } else {
        decimal_u64(n as u64)
    }
}

/// `must be an integer between <min> and <max>`.
pub open spec fn range_text(min: i64, max: i64) -> Seq<char> {
    "must be an integer between "@ + signed_decimal(min as int) + " and "@ + signed_decimal(
        max as int,
    )
}

/// An integer field within `[min, max]`: absent or null takes the fallback; a
/// non-integer or an integer out of range is a problem.
pub open spec fn spec_get_int_in_range(
    m: Seq<(String, JsonValue)>,
    key: Seq<char>,
    path: Seq<char>,
    min: i64,
    max: i64,
    fallback: i64,
) -> (Option<i64>, Seq<(Seq<char>, Seq<char>)>) {
    match spec_lookup(m, key) {
        None => (Some(fallback), Seq::empty()),
        Some(JsonValue::Null) => (Some(fallback), Seq::empty()),
        Some(JsonValue::Number { as_i64: Some(i), .. }) => if min <= i && i <= max {
            (Some(i), Seq::empty())
        } else {
            (None, seq![(field_path(path, key), range_text(min, max))])
        },
        Some(_) => (None, seq![(field_path(path, key), range_text(min, max))]),
    }
}

pub fn get_int_in_range(
    map: &Vec<(String, JsonValue)>,
    key: &str,
    path: &str,
    v: &mut Validator,
    min: i64,
    max: i64,
    fallback: i64,
) -> (r: Option<i64>)
    ensures
        ({
            let (n, errs) = spec_get_int_in_range(map@, key@, path@, min, max, fallback);
            r == n && final(v).model() == old(v).model() + errs
        }),
{
    let ghost before = v.model();
    let found = lookup(map, key);
    let in_range: Option<i64> = match found {
        None => {
            assert(before + Seq::<(Seq<char>, Seq<char>)>::empty() =~= before);
            return Some(fallback);
        },
        Some(JsonValue::Null) => {
            assert(before + Seq::<(Seq<char>, Seq<char>)>::empty() =~= before);
            return Some(fallback);
        },
        Some(JsonValue::Number { as_i64: Some(i), .. }) => if min <= *i && *i <= max {
            Some(*i)
        } else {
            None
        },
        Some(_) => None,
    };
    match in_range {
        Some(i) => {
            assert(before + Seq::<(Seq<char>, Seq<char>)>::empty() =~= before);
            Some(i)
        },
        None => {
            let mut msg: Vec<char> = Vec::new();
            append_str(&mut msg, "must be an integer between ");
            let a = decimal_i64(min);
            append_chars(&mut msg, a.as_slice());
            append_str(&mut msg, " and ");
            let b = decimal_i64(max);
            append_chars(&mut msg, b.as_slice());
            v.fail(join_path(path, key), string_of(msg.as_slice()));
            assert(v.model() =~= before + seq![(field_path(path@, key@), range_text(min, max))]);
            None
        },
    }
}

/// The noise mode a text names.
pub open spec fn spec_noise_mode(s: Seq<char>) -> Option<NoiseUiMode> {
    if s == "off"@ {
        Some(NoiseUiMode::Off)
    } else if s == "anc"@ {
        Some(NoiseUiMode::Anc)
    } else if s == "adaptive"@ {
        Some(NoiseUiMode::Adaptive)
    } else if s == "indoor"@ {
        Some(NoiseUiMode::Indoor)
    } else if s == "commuting"@ {
        Some(NoiseUiMode::Commuting)
    } else if s == "noisy"@ {
        Some(NoiseUiMode::Noisy)
    } else if s == "transparency"@ {
        Some(NoiseUiMode::Transparency)
    } else {
        None
    }
}

/// The name a noise mode is written under in a configuration payload.
pub open spec fn noise_ui_name(m: NoiseUiMode) -> Seq<char> {
    match m {
        NoiseUiMode::Off => "off"@,
        NoiseUiMode::Anc => "anc"@,
        NoiseUiMode::Adaptive => "adaptive"@,
        NoiseUiMode::Indoor => "indoor"@,
        NoiseUiMode::Commuting => "commuting"@,
        NoiseUiMode::Noisy => "noisy"@,
        NoiseUiMode::Transparency => "transparency"@,
    }
}

/// A noise field is read as the mode it names: a text that is accepted is
/// exactly the name of the mode it gives, and every mode's name reads back as
/// that mode.
pub proof fn lemma_noise_mode_names(s: Seq<char>, m: NoiseUiMode)
    ensures
        spec_noise_mode(s) matches Some(n) ==> noise_ui_name(n) == s,
        spec_noise_mode(noise_ui_name(m)) == Some(m),
{
    reveal_strlit("off");
    reveal_strlit("anc");
    reveal_strlit("adaptive");
    reveal_strlit("indoor");
    reveal_strlit("commuting");
    reveal_strlit("noisy");
    reveal_strlit("transparency");
    let names = seq!["off"@, "anc"@, "adaptive"@, "indoor"@, "commuting"@, "noisy"@, "transparency"@];
    assert("off"@[0] != "anc"@[0]);
    assert(names[0] != names[1]);
    assert forall|i: int, j: int| 0 <= i < j < 7 && !(i == 0 && j == 1) implies names[i].len() != names[j].len() by {}
    assert forall|i: int, j: int| 0 <= i < j < 7 implies names[i] != names[j] by {
        if !(i == 0 && j == 1) {
            assert(names[i].len() != names[j].len());
        }
    }
    match m {
        NoiseUiMode::Off => {},
        NoiseUiMode::Anc => { assert(names[1] != names[0]); },
        NoiseUiMode::Adaptive => { assert(names[2] != names[0] && names[2] != names[1]); },
        NoiseUiMode::Indoor => { assert(names[3] != names[0] && names[3] != names[1] && names[3] != names[2]); },
        NoiseUiMode::Commuting => { assert(names[4] != names[0] && names[4] != names[1] && names[4] != names[2] && names[4] != names[3]); },
        NoiseUiMode::Noisy => { assert(names[5] != names[0] && names[5] != names[1] && names[5] != names[2] && names[5] != names[3] && names[5] != names[4]); },
        NoiseUiMode::Transparency => { assert(names[6] != names[0] && names[6] != names[1] && names[6] != names[2] && names[6] != names[3] && names[6] != names[4] && names[6] != names[5]); },
    }
}

/// The message rejecting a noise mode.
pub open spec fn noise_mode_text() -> Seq<char> {
    "must be one of: off, anc, adaptive, indoor, commuting, noisy, transparency"@
}

/// A required noise-mode field.
pub open spec fn spec_validate_noise_mode(value: Option<JsonValue>, path: Seq<char>) -> (Option<NoiseUiMode>, Seq<(Seq<char>, Seq<char>)>) {
    let parsed = match value {
        Some(JsonValue::Str(s)) => spec_noise_mode(s@),
        _ => None,
    };
    match parsed {
        Some(m) => (Some(m), Seq::empty()),
        None => (None, seq![(path, noise_mode_text())]),
    }
}

fn noise_mode_of(s: &str) -> (r: Option<NoiseUiMode>)
    ensures
        r == spec_noise_mode(s@),
{
    let c = chars_of(s);
    if chars_eq(c.as_slice(), chars_of("off").as_slice()) {
        Some(NoiseUiMode::Off)
    } else if chars_eq(c.as_slice(), chars_of("anc").as_slice()) {
        Some(NoiseUiMode::Anc)
    } else if chars_eq(c.as_slice(), chars_of("adaptive").as_slice()) {
        Some(NoiseUiMode::Adaptive)
    } else if chars_eq(c.as_slice(), chars_of("indoor").as_slice()) {
        Some(NoiseUiMode::Indoor)
    } else if chars_eq(c.as_slice(), chars_of("commuting").as_slice()) {
        Some(NoiseUiMode::Commuting)
    } else if chars_eq(c.as_slice(), chars_of("noisy").as_slice()) {
        Some(NoiseUiMode::Noisy)
    } else if chars_eq(c.as_slice(), chars_of("transparency").as_slice()) {
        Some(NoiseUiMode::Transparency)
    } else {
        None
    }
}

pub fn validate_noise_mode(v: &mut Validator, path: &str, value: Option<&JsonValue>) -> (r: Option<
    NoiseUiMode,
>)
    ensures
        ({
            let (m, errs) = spec_validate_noise_mode(
                match value {
                    Some(x) => Some(*x),
                    None => None,
                },
                path@,
            );
            r == m && final(v).model() == old(v).model() + errs
        }),
{
    let ghost before = v.model();
    let parsed = match value {
        Some(JsonValue::Str(s)) => noise_mode_of(s.as_str()),
        _ => None,
    };
    match parsed {
        Some(m) => {
            assert(before + Seq::<(Seq<char>, Seq<char>)>::empty() =~= before);
            Some(m)
        },
        None => {
            v.fail(
                text(path),
                text("must be one of: off, anc, adaptive, indoor, commuting, noisy, transparency"),
            );
            assert(v.model() =~= before + seq![(path@, noise_mode_text())]);
            None
        },
    }
}


/// The model of a smart profile.
pub struct ProfileModel {
    pub id: Seq<char>,
    pub name: Seq<char>,
    pub description: Seq<char>,
    pub builtin: bool,
    pub noise: NoiseUiMode,
    pub anc_level: i64,
    pub transparency_level: i64,
    pub game_mode: bool,
    pub eq_id: Seq<char>,
    pub wear_detection: bool,
    pub trigger_app: Option<Seq<char>>,
}

impl SmartProfile {
    pub open spec fn model(&self) -> ProfileModel {
        ProfileModel {
            id: self.id@,
            name: self.name@,
            description: self.description@,
            builtin: self.builtin,
            noise: self.noise,
            anc_level: self.anc_level,
            transparency_level: self.transparency_level,
            game_mode: self.game_mode,
            eq_id: self.eq_id@,
            wear_detection: self.wear_detection,
            trigger_app: match self.trigger_app {
                Some(t) => Some(t@),
                None => None,
            },
        }
    }
}

/// The optional trigger-application field: absent or null is no trigger.
pub open spec fn spec_trigger_app(m: Seq<(String, JsonValue)>, path: Seq<char>) -> (bool, Option<Seq<char>>, Seq<(Seq<char>, Seq<char>)>) {
    match spec_lookup(m, "triggerApp"@) {
        None => (true, None, Seq::empty()),
        Some(JsonValue::Null) => (true, None, Seq::empty()),
        Some(_) => {
            let (s, e) = spec_get_string(m, "triggerApp"@, path, MAX_NAME_LEN as nat, ""@);
            (s is Some, s, e)
        },
    }
}

/// The problems found in a profile's identity, noise and level fields, in field order.
pub open spec fn profile_head_errors(m: Seq<(String, JsonValue)>, path: Seq<char>) -> Seq<(Seq<char>, Seq<char>)> {
    spec_get_name(m, "id"@, path, MAX_ID_LEN as nat).1
        + spec_get_name(m, "name"@, path, MAX_NAME_LEN as nat).1
        + spec_get_string(m, "description"@, path, MAX_DESCRIPTION_LEN as nat, ""@).1
        + spec_validate_noise_mode(spec_lookup(m, "noise"@), field_path(path, "noise"@)).1
        + spec_get_int_in_range(m, "ancLevel"@, path, ANC_LEVEL_MIN, ANC_LEVEL_MAX, 0).1
        + spec_get_int_in_range(m, "transparencyLevel"@, path, TRANSPARENCY_LEVEL_MIN, TRANSPARENCY_LEVEL_MAX, 0).1
}

/// The problems found in a profile's switches, equaliser and trigger fields, in field order.
pub open spec fn profile_tail_errors(m: Seq<(String, JsonValue)>, path: Seq<char>) -> Seq<(Seq<char>, Seq<char>)> {
    spec_get_bool(m, "gameMode"@, path, false).1
        + spec_get_bool(m, "wearDetection"@, path, false).1
        + spec_get_string(m, "eqId"@, path, MAX_ID_LEN as nat, ""@).1
        + spec_trigger_app(m, path).2
}

/// The profile an object describes, when every field is valid and the id and
/// name are non-empty.
pub open spec fn spec_profile_of(m: Seq<(String, JsonValue)>, path: Seq<char>) -> Option<ProfileModel> {
    let id = spec_get_name(m, "id"@, path, MAX_ID_LEN as nat).0;
    let name = spec_get_name(m, "name"@, path, MAX_NAME_LEN as nat).0;
    let desc = spec_get_string(m, "description"@, path, MAX_DESCRIPTION_LEN as nat, ""@).0;
    let noise = spec_validate_noise_mode(spec_lookup(m, "noise"@), field_path(path, "noise"@)).0;
    let anc = spec_get_int_in_range(m, "ancLevel"@, path, ANC_LEVEL_MIN, ANC_LEVEL_MAX, 0).0;
    let tr = spec_get_int_in_range(m, "transparencyLevel"@, path, TRANSPARENCY_LEVEL_MIN, TRANSPARENCY_LEVEL_MAX, 0).0;
    let gm = spec_get_bool(m, "gameMode"@, path, false).0;
    let wd = spec_get_bool(m, "wearDetection"@, path, false).0;
    let eq = spec_get_string(m, "eqId"@, path, MAX_ID_LEN as nat, ""@).0;
    let trig = spec_trigger_app(m, path);
    if id is Some && name is Some && desc is Some && noise is Some && anc is Some && tr is Some
        && gm is Some && wd is Some && eq is Some && trig.0 {
        Some(
            ProfileModel {
                id: id.unwrap(),
                name: name.unwrap(),
                description: desc.unwrap(),
                builtin: false,
                noise: noise.unwrap(),
                anc_level: anc.unwrap(),
                transparency_level: tr.unwrap(),
                game_mode: gm.unwrap(),
                eq_id: eq.unwrap(),
                wear_detection: wd.unwrap(),
                trigger_app: trig.1,
            },
        )
    } else {
        None
    }
}

/// What validating one smart profile yields: the profile when every field is
/// valid and the id and name are non-empty; every problem found, in field order.
pub open spec fn spec_smart_profile(value: JsonValue, path: Seq<char>) -> (Option<ProfileModel>, Seq<(Seq<char>, Seq<char>)>) {
    match value {
        JsonValue::Object(m) => (
            spec_profile_of(m@, path),
            profile_head_errors(m@, path) + profile_tail_errors(m@, path),
        ),
        _ => (None, seq![(path, "expected a JSON object"@)]),
    }
}

/// The limits every accepted profile keeps: a non-empty id and name within
/// their lengths, bounded texts, levels within range (or the unset `0`) and
/// never built-in.
pub open spec fn profile_bounds(p: ProfileModel) -> bool {
    &&& 0 < p.id.len() && utf8_len(p.id) <= MAX_ID_LEN
    &&& 0 < p.name.len() && utf8_len(p.name) <= MAX_NAME_LEN
    &&& utf8_len(p.description) <= MAX_DESCRIPTION_LEN
    &&& utf8_len(p.eq_id) <= MAX_ID_LEN
    &&& !p.builtin
    &&& p.anc_level == 0 || ANC_LEVEL_MIN <= p.anc_level <= ANC_LEVEL_MAX
    &&& p.transparency_level == 0 || TRANSPARENCY_LEVEL_MIN <= p.transparency_level <= TRANSPARENCY_LEVEL_MAX
    &&& p.trigger_app matches Some(t) ==> utf8_len(t) <= MAX_NAME_LEN
}

/// Every problem is reported at `path` or below it.
pub open spec fn all_under(errs: Seq<(Seq<char>, Seq<char>)>, path: Seq<char>) -> bool {
    forall|k: int| 0 <= k < errs.len() ==> has_prefix(#[trigger] errs[k].0, path)
}

proof fn lemma_under_concat(a: Seq<(Seq<char>, Seq<char>)>, b: Seq<(Seq<char>, Seq<char>)>, path: Seq<char>)
    requires
        all_under(a, path),
        all_under(b, path),
    ensures
        all_under(a + b, path),
{
    assert forall|k: int| 0 <= k < (a + b).len() implies has_prefix(#[trigger] (a + b)[k].0, path) by {
        if k < a.len() {
            assert((a + b)[k] == a[k]);
        } else {
            assert((a + b)[k] == b[k - a.len()]);
        }
    }
}

proof fn lemma_field_under(path: Seq<char>, key: Seq<char>, msg: Seq<char>)
    ensures
        all_under(seq![(field_path(path, key), msg)], path),
        all_under(Seq::<(Seq<char>, Seq<char>)>::empty(), path),
{
    assert(field_path(path, key).subrange(0, path.len() as int) =~= path);
}

/// An accepted profile keeps the limits, and every problem found in a profile
/// is reported under its path.
pub proof fn lemma_smart_profile_facts(value: JsonValue, path: Seq<char>)
    ensures
        spec_smart_profile(value, path).0 matches Some(p) ==> profile_bounds(p),
        all_under(spec_smart_profile(value, path).1, path),
{
    reveal_strlit("");
    match value {
        JsonValue::Object(m) => {
            let m = m@;
            lemma_field_under(path, "id"@, too_long_text(MAX_ID_LEN as nat));
            lemma_field_under(path, "id"@, "expected a string"@);
            lemma_field_under(path, "id"@, "must not be empty"@);
            lemma_field_under(path, "name"@, too_long_text(MAX_NAME_LEN as nat));
            lemma_field_under(path, "name"@, "expected a string"@);
            lemma_field_under(path, "name"@, "must not be empty"@);
            lemma_field_under(path, "description"@, too_long_text(MAX_DESCRIPTION_LEN as nat));
            lemma_field_under(path, "description"@, "expected a string"@);
            lemma_field_under(path, "noise"@, noise_mode_text());
            lemma_field_under(path, "ancLevel"@, range_text(ANC_LEVEL_MIN, ANC_LEVEL_MAX));
            lemma_field_under(path, "transparencyLevel"@, range_text(TRANSPARENCY_LEVEL_MIN, TRANSPARENCY_LEVEL_MAX));
            lemma_field_under(path, "gameMode"@, "expected a boolean"@);
            lemma_field_under(path, "wearDetection"@, "expected a boolean"@);
            lemma_field_under(path, "eqId"@, too_long_text(MAX_ID_LEN as nat));
            lemma_field_under(path, "eqId"@, "expected a string"@);
            lemma_field_under(path, "triggerApp"@, too_long_text(MAX_NAME_LEN as nat));
            lemma_field_under(path, "triggerApp"@, "expected a string"@);
            let e1 = spec_get_name(m, "id"@, path, MAX_ID_LEN as nat).1;
            let e2 = spec_get_name(m, "name"@, path, MAX_NAME_LEN as nat).1;
            let e3 = spec_get_string(m, "description"@, path, MAX_DESCRIPTION_LEN as nat, ""@).1;
            let e4 = spec_validate_noise_mode(spec_lookup(m, "noise"@), field_path(path, "noise"@)).1;
            let e5 = spec_get_int_in_range(m, "ancLevel"@, path, ANC_LEVEL_MIN, ANC_LEVEL_MAX, 0).1;
            let e6 = spec_get_int_in_range(m, "transparencyLevel"@, path, TRANSPARENCY_LEVEL_MIN, TRANSPARENCY_LEVEL_MAX, 0).1;
            let f1 = spec_get_bool(m, "gameMode"@, path, false).1;
            let f2 = spec_get_bool(m, "wearDetection"@, path, false).1;
            let f3 = spec_get_string(m, "eqId"@, path, MAX_ID_LEN as nat, ""@).1;
            let f4 = spec_trigger_app(m, path).2;
            assert(all_under(e4, path)) by {
                let np = field_path(path, "noise"@);
                assert(np.subrange(0, path.len() as int) =~= path);
            }
            lemma_under_concat(e1, e2, path);
            lemma_under_concat(e1 + e2, e3, path);
            lemma_under_concat(e1 + e2 + e3, e4, path);
            lemma_under_concat(e1 + e2 + e3 + e4, e5, path);
            lemma_under_concat(e1 + e2 + e3 + e4 + e5, e6, path);
            lemma_under_concat(f1, f2, path);
            lemma_under_concat(f1 + f2, f3, path);
            lemma_under_concat(f1 + f2 + f3, f4, path);
            lemma_under_concat(profile_head_errors(m, path), profile_tail_errors(m, path), path);
        },
        _ => {
            assert(seq![(path, "expected a JSON object"@)][0].0.subrange(0, path.len() as int) =~= path);
        },
    }
}

/// The identity, noise and level fields of a profile object.
fn profile_head(map: &Vec<(String, JsonValue)>, path: &str, v: &mut Validator) -> (r: (
    Option<String>,
    Option<String>,
    Option<String>,
    Option<NoiseUiMode>,
    Option<i64>,
    Option<i64>,
))
    ensures
        ({
            let m = map@;
            &&& opt_view(r.0) == spec_get_name(m, "id"@, path@, MAX_ID_LEN as nat).0
            &&& opt_view(r.1) == spec_get_name(m, "name"@, path@, MAX_NAME_LEN as nat).0
            &&& opt_view(r.2) == spec_get_string(m, "description"@, path@, MAX_DESCRIPTION_LEN as nat, ""@).0
            &&& r.3 == spec_validate_noise_mode(spec_lookup(m, "noise"@), field_path(path@, "noise"@)).0
            &&& r.4 == spec_get_int_in_range(m, "ancLevel"@, path@, ANC_LEVEL_MIN, ANC_LEVEL_MAX, 0).0
            &&& r.5 == spec_get_int_in_range(m, "transparencyLevel"@, path@, TRANSPARENCY_LEVEL_MIN, TRANSPARENCY_LEVEL_MAX, 0).0
            &&& final(v).model() == old(v).model() + profile_head_errors(m, path@)
        }),
{
    let ghost start = v.model();
    let id = get_name(map, "id", path, v, MAX_ID_LEN);
    let ghost a1 = v.model();
    let name = get_name(map, "name", path, v, MAX_NAME_LEN);
    let ghost a2 = v.model();
    let description = get_string(map, "description", path, v, MAX_DESCRIPTION_LEN, "");
    let ghost a3 = v.model();
    let noise_path = join_path(path, "noise");
    let noise = validate_noise_mode(v, noise_path.as_str(), lookup(map, "noise"));
    let ghost a4 = v.model();
    let anc_level = get_int_in_range(map, "ancLevel", path, v, ANC_LEVEL_MIN, ANC_LEVEL_MAX, 0);
    let ghost a5 = v.model();
    let transparency_level = get_int_in_range(
        map,
        "transparencyLevel",
        path,
        v,
        TRANSPARENCY_LEVEL_MIN,
        TRANSPARENCY_LEVEL_MAX,
        0,
    );
    proof {
        let e1 = spec_get_name(map@, "id"@, path@, MAX_ID_LEN as nat).1;
        let e2 = spec_get_name(map@, "name"@, path@, MAX_NAME_LEN as nat).1;
        let e3 = spec_get_string(map@, "description"@, path@, MAX_DESCRIPTION_LEN as nat, ""@).1;
        let e4 = spec_validate_noise_mode(spec_lookup(map@, "noise"@), field_path(path@, "noise"@)).1;
        let e5 = spec_get_int_in_range(map@, "ancLevel"@, path@, ANC_LEVEL_MIN, ANC_LEVEL_MAX, 0).1;
        let e6 = spec_get_int_in_range(map@, "transparencyLevel"@, path@, TRANSPARENCY_LEVEL_MIN, TRANSPARENCY_LEVEL_MAX, 0).1;
        assert(v.model() =~= start + (e1 + e2 + e3 + e4 + e5 + e6));
    }
    (id, name, description, noise, anc_level, transparency_level)
}

/// The switch, equaliser and trigger fields of a profile object; the fourth
/// component says whether the trigger field was acceptable.
fn profile_tail(map: &Vec<(String, JsonValue)>, path: &str, v: &mut Validator) -> (r: (
    Option<bool>,
    Option<bool>,
    Option<String>,
    bool,
    Option<String>,
))
    ensures
        ({
            let m = map@;
            &&& r.0 == spec_get_bool(m, "gameMode"@, path@, false).0
            &&& r.1 == spec_get_bool(m, "wearDetection"@, path@, false).0
            &&& opt_view(r.2) == spec_get_string(m, "eqId"@, path@, MAX_ID_LEN as nat, ""@).0
            &&& r.3 == spec_trigger_app(m, path@).0
            &&& opt_view(r.4) == spec_trigger_app(m, path@).1
            &&& final(v).model() == old(v).model() + profile_tail_errors(m, path@)
        }),
{
    let ghost start = v.model();
    let game_mode = get_bool(map, "gameMode", path, v, false);
    let wear_detection = get_bool(map, "wearDetection", path, v, false);
    let eq_id = get_string(map, "eqId", path, v, MAX_ID_LEN, "");
    let ghost a9 = v.model();
    let (trigger_ok, trigger_app) = match lookup(map, "triggerApp") {
        None => (true, None),
        Some(JsonValue::Null) => (true, None),
        Some(_) => match get_string(map, "triggerApp", path, v, MAX_NAME_LEN, "") {
            Some(s) => (true, Some(s)),
            None => (false, None),
        },
    };
    proof {
        let m = map@;
        if spec_lookup(m, "triggerApp"@) is None || spec_lookup(m, "triggerApp"@) == Some(JsonValue::Null) {
            assert(v.model() =~= a9 + Seq::<(Seq<char>, Seq<char>)>::empty());
        }
        let e7 = spec_get_bool(m, "gameMode"@, path@, false).1;
        let e8 = spec_get_bool(m, "wearDetection"@, path@, false).1;
        let e9 = spec_get_string(m, "eqId"@, path@, MAX_ID_LEN as nat, ""@).1;
        let e10 = spec_trigger_app(m, path@).2;
        assert(v.model() =~= start + (e7 + e8 + e9 + e10));
    }
    (game_mode, wear_detection, eq_id, trigger_ok, trigger_app)
}

/// The view of an optional text.
pub open spec fn opt_view(o: Option<String>) -> Option<Seq<char>> {
    match o {
        Some(s) => Some(s@),
        None => None,
    }
}

/// Validates one smart profile; builtin status is never trusted from data.
pub fn validate_smart_profile(v: &mut Validator, path: &str, value: &JsonValue) -> (r: Option<
    SmartProfile,
>)
    ensures
        ({
            let (p, errs) = spec_smart_profile(*value, path@);
            &&& match r {
                Some(sp) => p == Some(sp.model()),
                None => p is None,
            }
            &&& final(v).model() == old(v).model() + errs
        }),
        r is None ==> final(v).model().len() > old(v).model().len(),
        r matches Some(p) ==> profile_bounds(p.model()),
        all_under(final(v).model().subrange(old(v).model().len() as int, final(v).model().len() as int), path@),
{
    let ghost start = v.model();
    let r = check_smart_profile(v, path, value);
    proof {
        lemma_smart_profile_facts(*value, path@);
        assert(v.model().subrange(start.len() as int, v.model().len() as int) =~= spec_smart_profile(*value, path@).1);
    }
    r
}

fn check_smart_profile(v: &mut Validator, path: &str, value: &JsonValue) -> (r: Option<SmartProfile>)
    ensures
        ({
            let (p, errs) = spec_smart_profile(*value, path@);
            &&& match r {
                Some(sp) => p == Some(sp.model()),
                None => p is None,
            }
            &&& final(v).model() == old(v).model() + errs
        }),
        r is None ==> final(v).model().len() > old(v).model().len(),
{
    let ghost start = v.model();
    let map = match as_object(value, path, v) {
        Some(m) => m,
        None => return None,
    };
    assert(v.model() =~= start);
    let (id, name, description, noise, anc_level, transparency_level) = profile_head(map, path, v);
    let ghost mid = v.model();
    let (game_mode, wear_detection, eq_id, trigger_ok, trigger_app) = profile_tail(map, path, v);
    assert(v.model() =~= start + (profile_head_errors(map@, path@) + profile_tail_errors(map@, path@)));
    let all_ok = id.is_some() && name.is_some() && description.is_some() && noise.is_some()
        && anc_level.is_some() && transparency_level.is_some() && game_mode.is_some()
        && wear_detection.is_some() && eq_id.is_some() && trigger_ok;
    if !all_ok {
        return None;
    }
    Some(
        SmartProfile {
            id: id.unwrap(),
            name: name.unwrap(),
            description: description.unwrap(),
            builtin: false,
            noise: noise.unwrap(),
            anc_level: anc_level.unwrap(),
            transparency_level: transparency_level.unwrap(),
            game_mode: game_mode.unwrap(),
            eq_id: eq_id.unwrap(),
            wear_detection: wear_detection.unwrap(),
            trigger_app,
        },
    )
}

/// The problems found in the notification switches, in field order.
pub open spec fn notify_errors(m: Seq<(String, JsonValue)>, path: Seq<char>) -> Seq<(Seq<char>, Seq<char>)> {
    spec_get_bool(m, "connected"@, path, true).1
        + spec_get_bool(m, "disconnected"@, path, true).1
        + spec_get_bool(m, "batteryLow"@, path, true).1
        + spec_get_bool(m, "batteryCritical"@, path, true).1
        + spec_get_bool(m, "batteryUneven"@, path, true).1
        + spec_get_bool(m, "profileSwitch"@, path, true).1
}

/// The preferences an object gives when every switch is valid.
pub open spec fn notify_of(m: Seq<(String, JsonValue)>, path: Seq<char>) -> Option<NotifyPrefs> {
    let c = spec_get_bool(m, "connected"@, path, true).0;
    let d = spec_get_bool(m, "disconnected"@, path, true).0;
    let bl = spec_get_bool(m, "batteryLow"@, path, true).0;
    let bc = spec_get_bool(m, "batteryCritical"@, path, true).0;
    let bu = spec_get_bool(m, "batteryUneven"@, path, true).0;
    let ps = spec_get_bool(m, "profileSwitch"@, path, true).0;
    if c is Some && d is Some && bl is Some && bc is Some && bu is Some && ps is Some {
        Some(
            NotifyPrefs {
                connected: c.unwrap(),
                disconnected: d.unwrap(),
                battery_low: bl.unwrap(),
                battery_critical: bc.unwrap(),
                battery_uneven: bu.unwrap(),
                profile_switch: ps.unwrap(),
            },
        )
    } else {
        None
    }
}

/// The notification preferences a value gives, over the defaults (every
/// notification on): absent means the defaults; a non-boolean switch is a problem.
pub open spec fn spec_notify(value: Option<JsonValue>, path: Seq<char>) -> (Option<NotifyPrefs>, Seq<(Seq<char>, Seq<char>)>) {
    match value {
        None => (
            Some(
                NotifyPrefs {
                    connected: true,
                    disconnected: true,
                    battery_low: true,
                    battery_critical: true,
                    battery_uneven: true,
                    profile_switch: true,
                },
            ),
            Seq::empty(),
        ),
        Some(JsonValue::Object(entries)) => (notify_of(entries@, path), notify_errors(entries@, path)),
        Some(_) => (None, seq![(path, "expected a JSON object"@)]),
    }
}

/// Reads the six notification switches of an object.
fn notify_switches(map: &Vec<(String, JsonValue)>, path: &str, v: &mut Validator) -> (r: (
    Option<bool>,
    Option<bool>,
    Option<bool>,
    Option<bool>,
    Option<bool>,
    Option<bool>,
))
    ensures
        ({
            let m = map@;
            &&& r.0 == spec_get_bool(m, "connected"@, path@, true).0
            &&& r.1 == spec_get_bool(m, "disconnected"@, path@, true).0
            &&& r.2 == spec_get_bool(m, "batteryLow"@, path@, true).0
            &&& r.3 == spec_get_bool(m, "batteryCritical"@, path@, true).0
            &&& r.4 == spec_get_bool(m, "batteryUneven"@, path@, true).0
            &&& r.5 == spec_get_bool(m, "profileSwitch"@, path@, true).0
            &&& final(v).model() == old(v).model() + notify_errors(m, path@)
        }),
{
    let ghost start = v.model();
    let c = get_bool(map, "connected", path, v, true);
    let d = get_bool(map, "disconnected", path, v, true);
    let bl = get_bool(map, "batteryLow", path, v, true);
    let bc = get_bool(map, "batteryCritical", path, v, true);
    let bu = get_bool(map, "batteryUneven", path, v, true);
    let ps = get_bool(map, "profileSwitch", path, v, true);
    proof {
        let m = map@;
        let e1 = spec_get_bool(m, "connected"@, path@, true).1;
        let e2 = spec_get_bool(m, "disconnected"@, path@, true).1;
        let e3 = spec_get_bool(m, "batteryLow"@, path@, true).1;
        let e4 = spec_get_bool(m, "batteryCritical"@, path@, true).1;
        let e5 = spec_get_bool(m, "batteryUneven"@, path@, true).1;
        let e6 = spec_get_bool(m, "profileSwitch"@, path@, true).1;
        assert(v.model() =~= start + (e1 + e2 + e3 + e4 + e5 + e6));
    }
    (c, d, bl, bc, bu, ps)
}

/// Validates the notification preferences.
pub fn validate_notify(v: &mut Validator, path: &str, value: Option<&JsonValue>) -> (r: Option<NotifyPrefs>)
    ensures
        ({
            let (n, errs) = spec_notify(
                match value {
                    Some(x) => Some(*x),
                    None => None,
                },
                path@,
            );
            r == n && final(v).model() == old(v).model() + errs
        }),
{
    let ghost start = v.model();
    let value = match value {
        None => {
            assert(start + Seq::<(Seq<char>, Seq<char>)>::empty() =~= start);
            return Some(default_notify());
        },
        Some(x) => x,
    };
    let map = match as_object(value, path, v) {
        Some(m) => m,
        None => return None,
    };
    assert(v.model() =~= start);
    let (c, d, bl, bc, bu, ps) = notify_switches(map, path, v);
    match (c, d, bl, bc, bu, ps) {
        (Some(c), Some(d), Some(bl), Some(bc), Some(bu), Some(ps)) => Some(
            NotifyPrefs {
                connected: c,
                disconnected: d,
                battery_low: bl,
                battery_critical: bc,
                battery_uneven: bu,
                profile_switch: ps,
            },
        ),
        _ => None,
    }
}

/// The theme a value names: absent means dark; anything but `"dark"` or
/// `"light"` is a problem and leaves the default.
pub open spec fn spec_theme(value: Option<JsonValue>) -> (ThemeMode, Seq<(Seq<char>, Seq<char>)>) {
    match value {
        None => (ThemeMode::Dark, Seq::empty()),
        Some(JsonValue::Str(s)) => if s@ == "dark"@ {
            (ThemeMode::Dark, Seq::empty())
        } else if s@ == "light"@ {
            (ThemeMode::Light, Seq::empty())
        } else {
            (ThemeMode::Dark, seq![("theme"@, "must be one of: dark, light"@)])
        },
        Some(_) => (ThemeMode::Dark, seq![("theme"@, "must be one of: dark, light"@)]),
    }
}

/// Validates the theme field.
pub fn validate_theme(v: &mut Validator, value: Option<&JsonValue>) -> (r: ThemeMode)
    ensures
        ({
            let (t, errs) = spec_theme(
                match value {
                    Some(x) => Some(*x),
                    None => None,
                },
            );
            r == t && final(v).model() == old(v).model() + errs
        }),
{
    let ghost start = v.model();
    let named: Option<ThemeMode> = match value {
        None => {
            assert(start + Seq::<(Seq<char>, Seq<char>)>::empty() =~= start);
            return ThemeMode::Dark;
        },
        Some(JsonValue::Str(s)) => if str_eq(s.as_str(), "dark") {
            Some(ThemeMode::Dark)
        } else if str_eq(s.as_str(), "light") {
            Some(ThemeMode::Light)
        } else {
            None
        },
        Some(_) => None,
    };
    match named {
        Some(t) => {
            assert(start + Seq::<(Seq<char>, Seq<char>)>::empty() =~= start);
            t
        },
        None => {
            v.fail(text("theme"), text("must be one of: dark, light"));
            assert(v.model() =~= start + seq![("theme"@, "must be one of: dark, light"@)]);
            ThemeMode::Dark
        },
    }
}

/// `<name>[<i>]`: the path of an array entry.
pub open spec fn index_path(name: Seq<char>, i: nat) -> Seq<char> {
    name + "["@ + decimal(i) + "]"@
}

fn index_path_exec(name: &str, i: usize) -> (r: String)
    ensures
        r@ == index_path(name@, i as nat),
{
    let mut out: Vec<char> = Vec::new();
    append_str(&mut out, name);
    append_str(&mut out, "[");
    let d = decimal_usize(i);
    append_chars(&mut out, d.as_slice());
    append_str(&mut out, "]");
    string_of(out.as_slice())
}

/// `more than <max> entries`.
pub open spec fn too_many_text(max: nat) -> Seq<char> {
    "more than "@ + decimal(max) + " entries"@
}

/// The items of an array field: absent or null means none; an array longer
/// than `max`, or a non-array, is a problem.
pub open spec fn spec_array_field(value: Option<JsonValue>, name: Seq<char>, max: nat) -> (Option<Seq<JsonValue>>, Seq<(Seq<char>, Seq<char>)>) {
    match value {
        None => (None, Seq::empty()),
        Some(JsonValue::Null) => (None, Seq::empty()),
        Some(JsonValue::Array(items)) => if items@.len() > max {
            (None, seq![(name, too_many_text(max))])
        } else {
            (Some(items@), Seq::empty())
        },
        Some(_) => (None, seq![(name, "expected an array"@)]),
    }
}

/// Reads an array field of at most `max` items; `None` where there is nothing
/// to validate item by item.
pub fn array_field<'a>(v: &mut Validator, name: &str, value: Option<&'a JsonValue>, max: usize) -> (r: Option<&'a Vec<JsonValue>>)
    ensures
        ({
            let (items, errs) = spec_array_field(
                match value {
                    Some(x) => Some(*x),
                    None => None,
                },
                name@,
                max as nat,
            );
            &&& match r {
                Some(a) => items == Some(a@),
                None => items is None,
            }
            &&& final(v).model() == old(v).model() + errs
        }),
{
    let ghost start = v.model();
    match value {
        None => {
            assert(start + Seq::<(Seq<char>, Seq<char>)>::empty() =~= start);
            None
        },
        Some(JsonValue::Null) => {
            assert(start + Seq::<(Seq<char>, Seq<char>)>::empty() =~= start);
            None
        },
        Some(JsonValue::Array(items)) => {
            if items.len() > max {
                let mut msg: Vec<char> = Vec::new();
                append_str(&mut msg, "more than ");
                let d = decimal_usize(max);
                append_chars(&mut msg, d.as_slice());
                append_str(&mut msg, " entries");
                v.fail(text(name), string_of(msg.as_slice()));
                assert(v.model() =~= start + seq![(name@, too_many_text(max as nat))]);
                None
            } else {
                assert(start + Seq::<(Seq<char>, Seq<char>)>::empty() =~= start);
                Some(items)
            }
        },
        Some(_) => {
            v.fail(text(name), text("expected an array"));
            assert(v.model() =~= start + seq![(name@, "expected an array"@)]);
            None
        },
    }
}

/// The valid profiles among the first `n` items, and every problem found in
/// them, item by item.
pub open spec fn profiles_prefix(items: Seq<JsonValue>, n: nat) -> (Seq<ProfileModel>, Seq<(Seq<char>, Seq<char>)>)
    decreases n,
{
    if n == 0 {
        (Seq::empty(), Seq::empty())
    } else {
        let (ps, es) = profiles_prefix(items, (n - 1) as nat);
        let (p, e) = spec_smart_profile(items[n - 1], index_path("customProfiles"@, (n - 1) as nat));
        (
            match p {
                Some(x) => ps.push(x),
                None => ps,
            },
            es + e,
        )
    }
}

/// What the `customProfiles` field yields: the valid profiles, in order, and
/// every problem found. An invalid profile is reported and left out.
pub open spec fn spec_custom_profiles(value: Option<JsonValue>) -> (Seq<ProfileModel>, Seq<(Seq<char>, Seq<char>)>) {
    let (items, e0) = spec_array_field(value, "customProfiles"@, MAX_CUSTOM_PROFILES as nat);
    match items {
        Some(a) => {
            let (ps, es) = profiles_prefix(a, a.len());
            (ps, e0 + es)
        },
        None => (Seq::empty(), e0),
    }
}

/// Validates the `customProfiles` field.
pub fn validate_custom_profiles(v: &mut Validator, value: Option<&JsonValue>) -> (r: Vec<SmartProfile>)
    ensures
        ({
            let (ps, errs) = spec_custom_profiles(
                match value {
                    Some(x) => Some(*x),
                    None => None,
                },
            );
            &&& r@.map_values(|p: SmartProfile| p.model()) == ps
            &&& final(v).model() == old(v).model() + errs
        }),
{
    let mut out: Vec<SmartProfile> = Vec::new();
    let items = match array_field(v, "customProfiles", value, MAX_CUSTOM_PROFILES) {
        Some(a) => a,
        None => {
            assert(out@.map_values(|p: SmartProfile| p.model()) =~= Seq::<ProfileModel>::empty());
            return out;
        },
    };
    let ghost base = v.model();
    assert(base + Seq::<(Seq<char>, Seq<char>)>::empty() =~= base);
    let mut i: usize = 0;
    while i < items.len()
        invariant
            i <= items@.len(),
            out@.map_values(|p: SmartProfile| p.model()) == profiles_prefix(items@, i as nat).0,
            v.model() == base + profiles_prefix(items@, i as nat).1,
        decreases items@.len() - i,
    {
        let path = index_path_exec("customProfiles", i);
        let ghost before = v.model();
        let ghost prev_out = out@;
        let found = validate_smart_profile(v, path.as_str(), &items[i]);
        proof {
            let prev = profiles_prefix(items@, i as nat);
            let step = spec_smart_profile(items@[i as int], index_path("customProfiles"@, i as nat));
            assert(profiles_prefix(items@, (i + 1) as nat).1 == prev.1 + step.1);
            assert(v.model() =~= base + (prev.1 + step.1));
        }
        match found {
            Some(p) => {
                out.push(p);
                assert(out@.map_values(|p: SmartProfile| p.model()) =~= prev_out.map_values(
                    |p: SmartProfile| p.model(),
                ).push(p.model()));
            },
            None => {},
        }
        i = i + 1;
    }
    out
}

/// The portable settings with their defaults: the active profile (`music`),
/// automatic game mode (off) and its keyword (`game`). An invalid value is a
/// problem and leaves the default.
pub open spec fn spec_portable_settings(m: Seq<(String, JsonValue)>) -> ((Seq<char>, bool, Seq<char>), Seq<(Seq<char>, Seq<char>)>) {
    let (active, e1) = spec_get_string(m, "activeProfileId"@, ""@, MAX_ID_LEN as nat, DEFAULT_ACTIVE_PROFILE_ID@);
    let (auto_game, e2) = spec_get_bool(m, "autoGame"@, ""@, false);
    let (keyword, e3) = spec_get_string(m, "autoGameKeyword"@, ""@, MAX_KEYWORD_LEN as nat, DEFAULT_AUTO_GAME_KEYWORD@);
    (
        (
            match active {
                Some(a) => a,
                None => DEFAULT_ACTIVE_PROFILE_ID@,
            },
            match auto_game {
                Some(b) => b,
                None => false,
            },
            match keyword {
                Some(k) => k,
                None => DEFAULT_AUTO_GAME_KEYWORD@,
            },
        ),
        e1 + e2 + e3,
    )
}

/// Validates the active profile id, the automatic game mode switch and its keyword.
pub fn validate_portable_settings(map: &Vec<(String, JsonValue)>, v: &mut Validator) -> (r: (String, bool, String))
    ensures
        ({
            let (s, errs) = spec_portable_settings(map@);
            &&& r.0@ == s.0
            &&& r.1 == s.1
            &&& r.2@ == s.2
            &&& final(v).model() == old(v).model() + errs
        }),
{
    let ghost start = v.model();
    let active = match get_string(map, "activeProfileId", "", v, MAX_ID_LEN, DEFAULT_ACTIVE_PROFILE_ID) {
        Some(a) => a,
        None => text(DEFAULT_ACTIVE_PROFILE_ID),
    };
    let auto_game = match get_bool(map, "autoGame", "", v, false) {
        Some(b) => b,
        None => false,
    };
    let keyword = match get_string(map, "autoGameKeyword", "", v, MAX_KEYWORD_LEN, DEFAULT_AUTO_GAME_KEYWORD) {
        Some(k) => k,
        None => text(DEFAULT_AUTO_GAME_KEYWORD),
    };
    proof {
        let m = map@;
        let e1 = spec_get_string(m, "activeProfileId"@, ""@, MAX_ID_LEN as nat, DEFAULT_ACTIVE_PROFILE_ID@).1;
        let e2 = spec_get_bool(m, "autoGame"@, ""@, false).1;
        let e3 = spec_get_string(m, "autoGameKeyword"@, ""@, MAX_KEYWORD_LEN as nat, DEFAULT_AUTO_GAME_KEYWORD@).1;
        assert(v.model() =~= start + (e1 + e2 + e3));
    }
    (active, auto_game, keyword)
}

/// The local-only settings: MAC hiding (on by default) and the sleep timer in
/// minutes (30 by default, within [5, 240]); `None` when either is invalid.
pub open spec fn spec_local_settings(m: Seq<(String, JsonValue)>) -> (Option<(bool, i64)>, Seq<(Seq<char>, Seq<char>)>) {
    let (hide, e1) = spec_get_bool(m, "hideMac"@, ""@, DEFAULT_HIDE_MAC);
    let (sleep, e2) = spec_get_int_in_range(m, "sleepTimerMin"@, ""@, SLEEP_TIMER_MIN, SLEEP_TIMER_MAX, DEFAULT_SLEEP_TIMER_MIN);
    (
        if hide is Some && sleep is Some {
            Some((hide.unwrap(), sleep.unwrap()))
        } else {
            None
        },
        e1 + e2,
    )
}

/// Validates the MAC-hiding switch and the sleep timer.
pub fn validate_local_settings(map: &Vec<(String, JsonValue)>, v: &mut Validator) -> (r: Option<(bool, i64)>)
    ensures
        ({
            let (s, errs) = spec_local_settings(map@);
            r == s && final(v).model() == old(v).model() + errs
        }),
{
    let ghost start = v.model();
    let hide = get_bool(map, "hideMac", "", v, DEFAULT_HIDE_MAC);
    let sleep = get_int_in_range(map, "sleepTimerMin", "", v, SLEEP_TIMER_MIN, SLEEP_TIMER_MAX, DEFAULT_SLEEP_TIMER_MIN);
    match (hide, sleep) {
        (Some(h), Some(t)) => Some((h, t)),
        _ => None,
    }
}

/// The schema version a payload declares, when it is a non-negative integer.
pub open spec fn spec_schema(raw: JsonValue) -> Option<u64> {
    match raw {
        JsonValue::Object(m) => match spec_lookup(m@, "schema"@) {
            Some(JsonValue::Number { as_u64: Some(n), .. }) => Some(n),
            _ => None,
        },
        _ => None,
    }
}

/// Reads the declared schema version.
pub fn schema_of(raw: &JsonValue) -> (r: Option<u64>)
    ensures
        r == spec_schema(*raw),
{
    match raw {
        JsonValue::Object(m) => match lookup(m, "schema") {
            Some(JsonValue::Number { as_u64: Some(n), .. }) => Some(*n),
            _ => None,
        },
        _ => None,
    }
}

/// The refusal of a stored payload written by a newer version.
pub open spec fn stored_refusal_text(n: nat) -> Seq<char> {
    "config schema v"@ + decimal(n) + " is newer than this app (v1); refusing to downgrade"@
}

/// The refusal of an import file written by a newer version.
pub open spec fn import_refusal_text(n: nat) -> Seq<char> {
    "file uses config schema v"@ + decimal(n) + ", newer than this app (v1)"@
}

/// The model of an optional problem.
pub open spec fn opt_error(e: Option<ConfigError>) -> Option<(Seq<char>, Seq<char>)> {
    match e {
        Some(x) => Some(error_model(x)),
        None => None,
    }
}

/// A stored payload declaring a schema newer than this app's is refused
/// before anything else is read, so that stored data is never downgraded.
pub fn stored_schema_refusal(raw: &JsonValue) -> (r: Option<ConfigError>)
    ensures
        opt_error(r) == match spec_schema(*raw) {
            Some(n) => if n > CONFIG_SCHEMA_VERSION {
                Some(("schema"@, stored_refusal_text(n as nat)))
            } else {
                None
            },
            None => None,
        },
{
    match schema_of(raw) {
        Some(n) => if n > CONFIG_SCHEMA_VERSION as u64 {
            let mut msg: Vec<char> = Vec::new();
            append_str(&mut msg, "config schema v");
            let d = decimal_u64(n);
            append_chars(&mut msg, d.as_slice());
            append_str(&mut msg, " is newer than this app (v1); refusing to downgrade");
            Some(ConfigError { path: text("schema"), message: string_of(msg.as_slice()) })
        } else {
            None
        },
        None => None,
    }
}

/// An import file declaring a schema newer than this app's is refused.
pub fn import_schema_refusal(raw: &JsonValue) -> (r: Option<ConfigError>)
    ensures
        opt_error(r) == match spec_schema(*raw) {
            Some(n) => if n > CONFIG_SCHEMA_VERSION {
                Some(("schema"@, import_refusal_text(n as nat)))
            } else {
                None
            },
            None => None,
        },
{
    match schema_of(raw) {
        Some(n) => if n > CONFIG_SCHEMA_VERSION as u64 {
            let mut msg: Vec<char> = Vec::new();
            append_str(&mut msg, "file uses config schema v");
            let d = decimal_u64(n);
            append_chars(&mut msg, d.as_slice());
            append_str(&mut msg, ", newer than this app (v1)");
            Some(ConfigError { path: text("schema"), message: string_of(msg.as_slice()) })
        } else {
            None
        },
        None => None,
    }
}

/// `path: message`.
pub open spec fn error_line(e: (Seq<char>, Seq<char>)) -> Seq<char> {
    e.0 + ": "@ + e.1
}

/// The lines of some problems joined by `; `.
pub open spec fn joined_lines(es: Seq<(Seq<char>, Seq<char>)>) -> Seq<char>
    decreases es.len(),
{
    if es.len() == 0 {
        Seq::empty()
    } else if es.len() == 1 {
        error_line(es[0])
    } else {
        joined_lines(es.drop_last()) + "; "@ + error_line(es.last())
    }
}

/// A one-line summary: the first `max` problems, then how many more there are.
pub open spec fn spec_summary(es: Seq<(Seq<char>, Seq<char>)>, max: nat) -> Seq<char> {
    if es.len() > max {
        joined_lines(es.take(max as int)) + " (+"@ + decimal((es.len() - max) as nat) + " more)"@
    } else {
        joined_lines(es)
    }
}

/// Human-readable one-line summary of validation problems.
pub fn summarize_errors(errors: &Vec<ConfigError>, max: usize) -> (r: String)
    ensures
        r@ == spec_summary(errors@.map_values(|e: ConfigError| error_model(e)), max as nat),
{
    let ghost es = errors@.map_values(|e: ConfigError| error_model(e));
    let shown: usize = if errors.len() > max {
        max
    } else {
        errors.len()
    };
    let mut out: Vec<char> = Vec::new();
    let mut i: usize = 0;
    assert(es.take(0) =~= Seq::<(Seq<char>, Seq<char>)>::empty());
    while i < shown
        invariant
            shown <= errors@.len(),
            i <= shown,
            es == errors@.map_values(|e: ConfigError| error_model(e)),
            out@ == joined_lines(es.take(i as int)),
        decreases shown - i,
    {
        let ghost prev = out@;
        if i > 0 {
            append_str(&mut out, "; ");
        }
        append_str(&mut out, errors[i].path.as_str());
        append_str(&mut out, ": ");
        append_str(&mut out, errors[i].message.as_str());
        proof {
            let t = es.take(i + 1);
            assert(t.drop_last() =~= es.take(i as int));
            assert(t.last() == error_model(errors@[i as int]));
            if i == 0 {
                assert(out@ =~= error_line(t[0]));
            } else {
                assert(out@ =~= prev + "; "@ + error_line(t.last()));
            }
        }
        i = i + 1;
    }
    if errors.len() > max {
        append_str(&mut out, " (+");
        let d = decimal_usize(errors.len() - max);
        append_chars(&mut out, d.as_slice());
        append_str(&mut out, " more)");
    } else {
        assert(es.take(i as int) =~= es);
    }
    string_of(out.as_slice())
}

proof fn lemma_prefix_never_builtin(items: Seq<JsonValue>, n: nat)
    ensures
        forall|i: int| 0 <= i < profiles_prefix(items, n).0.len() ==> !(#[trigger] profiles_prefix(items, n).0[i]).builtin,
    decreases n,
{
    if n > 0 {
        lemma_prefix_never_builtin(items, (n - 1) as nat);
    }
}

/// Builtin status is never taken from external data: every profile that the
/// `customProfiles` field yields is a user profile.
pub proof fn lemma_imported_profiles_never_builtin(value: Option<JsonValue>)
    ensures
        forall|i: int| 0 <= i < spec_custom_profiles(value).0.len() ==> !(#[trigger] spec_custom_profiles(value).0[i]).builtin,
{
    let (items, _) = spec_array_field(value, "customProfiles"@, MAX_CUSTOM_PROFILES as nat);
    if let Some(a) = items {
        lemma_prefix_never_builtin(a, a.len());
    }
}

/// The portable fields read before the custom equalisers.
pub struct PortableHead {
    pub theme: ThemeMode,
    pub notify: NotifyPrefs,
    pub active_profile_id: String,
    pub auto_game: bool,
    pub auto_game_keyword: String,
}

/// The model of the portable fields read before the custom equalisers.
pub struct HeadModel {
    pub theme: ThemeMode,
    pub notify: NotifyPrefs,
    pub active_profile_id: Seq<char>,
    pub auto_game: bool,
    pub auto_game_keyword: Seq<char>,
}

impl PortableHead {
    pub open spec fn model(&self) -> HeadModel {
        HeadModel {
            theme: self.theme,
            notify: self.notify,
            active_profile_id: self.active_profile_id@,
            auto_game: self.auto_game,
            auto_game_keyword: self.auto_game_keyword@,
        }
    }
}

/// The first pass over a portable payload: the payload must be an object and
/// its notification preferences valid, else it is rejected at once with the
/// problems found so far; then the theme, the notification preferences, the
/// settings and the shape of the `customEq` field, with every problem found.
pub open spec fn spec_portable_head(raw: JsonValue) -> (Option<HeadModel>, Seq<(Seq<char>, Seq<char>)>) {
    match raw {
        JsonValue::Object(entries) => {
            let m = entries@;
            let (theme, e1) = spec_theme(spec_lookup(m, "theme"@));
            let (notify, e2) = spec_notify(spec_lookup(m, "notify"@), "notify"@);
            match notify {
                None => (None, e1 + e2),
                Some(n) => {
                    let (settings, e3) = spec_portable_settings(m);
                    let e4 = spec_array_field(spec_lookup(m, "customEq"@), "customEq"@, MAX_CUSTOM_EQ as nat).1;
                    (
                        Some(
                            HeadModel {
                                theme,
                                notify: n,
                                active_profile_id: settings.0,
                                auto_game: settings.1,
                                auto_game_keyword: settings.2,
                            },
                        ),
                        e1 + e2 + e3 + e4,
                    )
                },
            }
        },
        _ => (None, seq![("$"@, "expected a JSON object"@)]),
    }
}

/// The items of the `customEq` field of a payload that are to be validated
/// one by one.
pub open spec fn spec_eq_items(raw: JsonValue) -> Option<Seq<JsonValue>> {
    match raw {
        JsonValue::Object(entries) => spec_array_field(
            spec_lookup(entries@, "customEq"@),
            "customEq"@,
            MAX_CUSTOM_EQ as nat,
        ).0,
        _ => None,
    }
}

/// First pass over a portable payload. On success it hands back the fields
/// read, the problems found so far (to be completed by the equaliser checks)
/// and the `customEq` items to check; otherwise the problems that reject it.
pub fn parse_portable_head(raw: &JsonValue) -> (r: Result<(PortableHead, Validator, Option<&Vec<JsonValue>>), Vec<ConfigError>>)
    ensures
        ({
            let (head, errs) = spec_portable_head(*raw);
            match r {
                Ok((h, v, items)) => {
                    &&& head == Some(h.model())
                    &&& v.model() == errs
                    &&& match items {
                        Some(a) => spec_eq_items(*raw) == Some(a@),
                        None => spec_eq_items(*raw) is None,
                    }
                },
                Err(e) => head is None && e@.map_values(|x: ConfigError| error_model(x)) == errs,
            }
        }),
{
    let mut v = Validator::new();
    assert(v.model() =~= Seq::<(Seq<char>, Seq<char>)>::empty());
    let map = match as_object(raw, "$", &mut v) {
        Some(m) => m,
        None => return Err(v.errors),
    };
    let theme = validate_theme(&mut v, lookup(map, "theme"));
    let notify = match validate_notify(&mut v, "notify", lookup(map, "notify")) {
        Some(n) => n,
        None => return Err(v.errors),
    };
    let (active_profile_id, auto_game, auto_game_keyword) = validate_portable_settings(map, &mut v);
    let items = array_field(&mut v, "customEq", lookup(map, "customEq"), MAX_CUSTOM_EQ);
    Ok(
        (
            PortableHead { theme, notify, active_profile_id, auto_game, auto_game_keyword },
            v,
            items,
        ),
    )
}

/// The custom profiles of a payload, and the problems found in them.
pub open spec fn spec_payload_profiles(raw: JsonValue) -> (Seq<ProfileModel>, Seq<(Seq<char>, Seq<char>)>) {
    match raw {
        JsonValue::Object(entries) => spec_custom_profiles(spec_lookup(entries@, "customProfiles"@)),
        _ => (Seq::empty(), Seq::empty()),
    }
}

/// Last pass over a portable payload: validates the custom profiles and
/// decides. A payload is accepted only when no problem at all was found;
/// otherwise every problem is returned and nothing of it is kept.
pub fn finish_portable(v: Validator, raw: &JsonValue) -> (r: Result<Vec<SmartProfile>, Vec<ConfigError>>)
    ensures
        ({
            let (ps, errs) = spec_payload_profiles(*raw);
            let all = v.model() + errs;
            &&& r is Ok <==> all.len() == 0
            &&& match r {
                Ok(p) => p@.map_values(|x: SmartProfile| x.model()) == ps,
                Err(e) => e@.map_values(|x: ConfigError| error_model(x)) == all,
            }
        }),
{
    let mut v = v;
    let profiles = match raw {
        JsonValue::Object(map) => validate_custom_profiles(&mut v, lookup(map, "customProfiles")),
        _ => {
            assert(v.model() + Seq::<(Seq<char>, Seq<char>)>::empty() =~= v.model());
            let out: Vec<SmartProfile> = Vec::new();
            assert(out@.map_values(|x: SmartProfile| x.model()) =~= Seq::<ProfileModel>::empty());
            out
        },
    };
    if v.errors.len() > 0 {
        Err(v.errors)
    } else {
        Ok(profiles)
    }
}

/// The fields of a custom equaliser entry other than its (floating-point)
/// preset. `ok` says whether every one of them, and the presence of a preset,
/// is valid.
pub struct NamedEqFields {
    pub id: String,
    pub name: String,
    /// `device` or `system`.
    pub kind: String,
    pub official: bool,
    pub ok: bool,
}

/// The model of the non-preset fields of a custom equaliser entry.
pub struct NamedEqFieldsModel {
    pub id: Seq<char>,
    pub name: Seq<char>,
    pub kind: Seq<char>,
    pub official: bool,
    pub ok: bool,
}

impl NamedEqFields {
    pub open spec fn model(&self) -> NamedEqFieldsModel {
        NamedEqFieldsModel {
            id: self.id@,
            name: self.name@,
            kind: self.kind@,
            official: self.official,
            ok: self.ok,
        }
    }
}

/// The kind of an equaliser entry: `device` or `system`, else a problem.
pub open spec fn spec_eq_kind(m: Seq<(String, JsonValue)>, path: Seq<char>) -> (Option<Seq<char>>, Seq<(Seq<char>, Seq<char>)>) {
    match spec_lookup(m, "kind"@) {
        Some(JsonValue::Str(k)) => if k@ == "device"@ || k@ == "system"@ {
            (Some(k@), Seq::empty())
        } else {
            (None, seq![(field_path(path, "kind"@), "must be one of: device, system"@)])
        },
        _ => (None, seq![(field_path(path, "kind"@), "must be one of: device, system"@)]),
    }
}

/// The problem of a missing preset.
pub open spec fn spec_preset_present(m: Seq<(String, JsonValue)>, path: Seq<char>) -> (bool, Seq<(Seq<char>, Seq<char>)>) {
    match spec_lookup(m, "preset"@) {
        Some(_) => (true, Seq::empty()),
        None => (false, seq![(field_path(path, "preset"@), "expected an object"@)]),
    }
}

/// The problems found in the non-preset fields of an equaliser object, in field order.
pub open spec fn named_eq_errors(m: Seq<(String, JsonValue)>, path: Seq<char>) -> Seq<(Seq<char>, Seq<char>)> {
    spec_get_name(m, "id"@, path, MAX_ID_LEN as nat).1
        + spec_get_name(m, "name"@, path, MAX_NAME_LEN as nat).1
        + spec_eq_kind(m, path).1
        + spec_get_bool(m, "official"@, path, false).1
        + spec_preset_present(m, path).1
}

/// The non-preset fields of an equaliser object; an invalid field reads as
/// empty (or `false`) and clears `ok`.
pub open spec fn named_eq_fields_of(m: Seq<(String, JsonValue)>, path: Seq<char>) -> NamedEqFieldsModel {
    let id = spec_get_name(m, "id"@, path, MAX_ID_LEN as nat).0;
    let name = spec_get_name(m, "name"@, path, MAX_NAME_LEN as nat).0;
    let kind = spec_eq_kind(m, path).0;
    let official = spec_get_bool(m, "official"@, path, false).0;
    let preset = spec_preset_present(m, path).0;
    NamedEqFieldsModel {
        id: match id {
            Some(x) => x,
            None => ""@,
        },
        name: match name {
            Some(x) => x,
            None => ""@,
        },
        kind: match kind {
            Some(x) => x,
            None => ""@,
        },
        official: match official {
            Some(b) => b,
            None => false,
        },
        ok: id is Some && name is Some && kind is Some && official is Some && preset,
    }
}

/// What validating the non-preset fields of one equaliser entry yields.
pub open spec fn spec_named_eq_fields(value: JsonValue, path: Seq<char>) -> (Option<NamedEqFieldsModel>, Seq<(Seq<char>, Seq<char>)>) {
    match value {
        JsonValue::Object(m) => (Some(named_eq_fields_of(m@, path)), named_eq_errors(m@, path)),
        _ => (None, seq![(path, "expected a JSON object"@)]),
    }
}

/// Validates the id, name, kind and official flag of a custom equaliser entry
/// and that it has a preset; `None` when the entry is not an object.
pub fn validate_named_eq_fields(v: &mut Validator, path: &str, value: &JsonValue) -> (r: Option<NamedEqFields>)
    ensures
        ({
            let (f, errs) = spec_named_eq_fields(*value, path@);
            &&& final(v).model() == old(v).model() + errs
            &&& match r {
                Some(x) => f == Some(x.model()),
                None => f is None,
            }
        }),
        !(r matches Some(x) && x.ok) ==> final(v).model().len() > old(v).model().len(),
{
    let ghost start = v.model();
    let map = match as_object(value, path, v) {
        Some(m) => m,
        None => return None,
    };
    assert(v.model() =~= start);
    let id = get_name(map, "id", path, v, MAX_ID_LEN);
    let name = get_name(map, "name", path, v, MAX_NAME_LEN);
    let ghost a2 = v.model();
    let kind: Option<String> = match lookup(map, "kind") {
        Some(JsonValue::Str(k)) => if str_eq(k.as_str(), "device") || str_eq(k.as_str(), "system") {
            Some(text(k.as_str()))
        } else {
            None
        },
        _ => None,
    };
    if kind.is_none() {
        v.fail(join_path(path, "kind"), text("must be one of: device, system"));
    }
    proof {
        if kind.is_none() {
            assert(v.model() =~= a2 + spec_eq_kind(map@, path@).1);
        } else {
            assert(v.model() =~= a2 + spec_eq_kind(map@, path@).1);
        }
    }
    let official = get_bool(map, "official", path, v, false);
    let ghost a4 = v.model();
    let has_preset = lookup(map, "preset").is_some();
    if !has_preset {
        v.fail(join_path(path, "preset"), text("expected an object"));
    }
    proof {
        assert(v.model() =~= a4 + spec_preset_present(map@, path@).1);
        let m = map@;
        let e1 = spec_get_name(m, "id"@, path@, MAX_ID_LEN as nat).1;
        let e2 = spec_get_name(m, "name"@, path@, MAX_NAME_LEN as nat).1;
        let e3 = spec_eq_kind(m, path@).1;
        let e4 = spec_get_bool(m, "official"@, path@, false).1;
        let e5 = spec_preset_present(m, path@).1;
        assert(v.model() =~= start + (e1 + e2 + e3 + e4 + e5));
    }
    let ok = id.is_some() && name.is_some() && kind.is_some() && official.is_some() && has_preset;
    Some(
        NamedEqFields {
            id: match id {
                Some(x) => x,
                None => text(""),
            },
            name: match name {
                Some(x) => x,
                None => text(""),
            },
            kind: match kind {
                Some(x) => x,
                None => text(""),
            },
            official: match official {
                Some(b) => b,
                None => false,
            },
            ok,
        },
    )
}

/// An equaliser entry is kept exactly when its fields and its preset are valid
/// (which includes a non-empty id and name). An entry that is not kept has
/// added at least one problem, so the payload is refused as a whole.
pub fn named_eq_accepted(f: &NamedEqFields, preset_ok: bool) -> (r: bool)
    ensures
        r == (f.ok && preset_ok),
{
    f.ok && preset_ok
}


/// What reading the stored configuration gave: nothing, text that is not JSON,
/// a payload refused with its problems, or a valid configuration.
pub enum StoredConfig<T> {
    Absent,
    NotJson,
    Refused(Vec<ConfigError>),
    Valid(T),
}

/// The outcome of loading: the stored configuration when it is valid (`None`
/// means the defaults are used), and the problems to report.
pub struct LoadDecision<T> {
    pub config: Option<T>,
    pub used_defaults: bool,
    pub errors: Vec<ConfigError>,
}

/// Decides what a load yields. A missing store gives the defaults with no
/// problem; text that is not JSON gives the defaults and one problem at `$`; a
/// refused payload (corrupt or of a newer schema) gives the defaults and its
/// problems; a valid payload is used as it is. The store itself is left as it
/// was in every case.
pub fn decide_load<T>(stored: StoredConfig<T>) -> (r: LoadDecision<T>)
    ensures
        match stored {
            StoredConfig::Absent => r.config is None && r.used_defaults && r.errors@.len() == 0,
            StoredConfig::NotJson => r.config is None && r.used_defaults && r.errors@.map_values(
                |e: ConfigError| error_model(e),
            ) == seq![("$"@, "stored config is not valid JSON; using defaults"@)],
            StoredConfig::Refused(es) => r.config is None && r.used_defaults && r.errors@ == es@,
            StoredConfig::Valid(c) => r.config == Some(c) && !r.used_defaults && r.errors@.len() == 0,
        },
{
    match stored {
        StoredConfig::Absent => LoadDecision { config: None, used_defaults: true, errors: Vec::new() },
        StoredConfig::NotJson => {
            let mut errors: Vec<ConfigError> = Vec::new();
            errors.push(ConfigError { path: text("$"), message: text("stored config is not valid JSON; using defaults") });
            proof {
                assert(errors@.map_values(|e: ConfigError| error_model(e)) =~= seq![("$"@, "stored config is not valid JSON; using defaults"@)]);
            }
            LoadDecision { config: None, used_defaults: true, errors }
        },
        StoredConfig::Refused(es) => LoadDecision { config: None, used_defaults: true, errors: es },
        StoredConfig::Valid(c) => LoadDecision { config: Some(c), used_defaults: false, errors: Vec::new() },
    }
}

} // verus!
