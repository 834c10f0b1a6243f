use qcy::config::{
    array_field, finish_portable, get_string, parse_portable_head, import_schema_refusal, lookup, stored_schema_refusal,
    summarize_errors, validate_custom_profiles, validate_named_eq_fields, named_eq_accepted, decide_load, StoredConfig, DEFAULT_ACTIVE_PROFILE_ID, DEFAULT_AUTO_GAME_KEYWORD, DEFAULT_HIDE_MAC, DEFAULT_SLEEP_TIMER_MIN, validate_local_settings, validate_notify,
    validate_portable_settings, validate_smart_profile, validate_theme, ConfigError, JsonValue,
    NoiseUiMode, ThemeMode, Validator,
};

fn s(text: &str) -> JsonValue {
    JsonValue::Str(text.to_string())
}

fn n(value: i64) -> JsonValue {
    JsonValue::Number {
        as_i64: Some(value),
        as_u64: if value >= 0 { Some(value as u64) } else { None },
    }
}

fn entries(fields: Vec<(&str, JsonValue)>) -> Vec<(String, JsonValue)> {
    fields.into_iter().map(|(k, v)| (k.to_string(), v)).collect()
}

fn obj(fields: Vec<(&str, JsonValue)>) -> JsonValue {
    JsonValue::Object(entries(fields))
}

fn profile(id: &str) -> JsonValue {
    obj(vec![
        ("id", s(id)),
        ("name", s("P")),
        ("description", s("")),
        ("noise", s("off")),
        ("ancLevel", n(1)),
        ("transparencyLevel", n(1)),
        ("gameMode", JsonValue::Bool(false)),
        ("eqId", s("flat")),
        ("wearDetection", JsonValue::Bool(true)),
    ])
}

fn pairs(v: &Validator) -> Vec<(String, String)> {
    v.errors.iter().map(|e| (e.path.clone(), e.message.clone())).collect()
}

#[test]
fn newer_schema_is_refused() {
    let raw = obj(vec![("schema", n(2)), ("theme", s("dark"))]);
    let err = stored_schema_refusal(&raw).unwrap();
    assert!(err.message.contains("newer than this app"));
    assert_eq!(err.path, "schema");
    assert_eq!(err.message, "config schema v2 is newer than this app (v1); refusing to downgrade");
}

#[test]
fn import_of_a_newer_schema_is_refused_with_its_own_message() {
    let raw = obj(vec![("schema", n(7))]);
    let err = import_schema_refusal(&raw).unwrap();
    assert_eq!(err.message, "file uses config schema v7, newer than this app (v1)");
}

#[test]
fn current_or_missing_schema_is_not_refused() {
    assert!(stored_schema_refusal(&obj(vec![("schema", n(1))])).is_none());
    assert!(stored_schema_refusal(&obj(vec![("theme", s("dark"))])).is_none());
    assert!(import_schema_refusal(&obj(vec![("schema", s("9"))])).is_none());
    assert!(import_schema_refusal(&JsonValue::Array(vec![])).is_none());
}

#[test]
fn valid_profile_is_read_and_never_builtin() {
    let mut fields = match profile("p0") {
        JsonValue::Object(e) => e,
        _ => unreachable!(),
    };
    fields.push(("builtin".to_string(), JsonValue::Bool(true)));
    fields.push(("triggerApp".to_string(), s("steam")));
    let mut v = Validator::new();
    let p = validate_smart_profile(&mut v, "customProfiles[0]", &JsonValue::Object(fields)).unwrap();
    assert!(v.errors.is_empty());
    assert_eq!(p.id, "p0");
    assert_eq!(p.noise, NoiseUiMode::Off);
    assert_eq!(p.anc_level, 1);
    assert!(p.wear_detection);
    assert!(!p.builtin);
    assert_eq!(p.trigger_app.as_deref(), Some("steam"));
}

#[test]
fn profile_without_id_reports_the_id_path() {
    let mut v = Validator::new();
    let value = obj(vec![("name", s("P")), ("noise", s("anc"))]);
    assert!(validate_smart_profile(&mut v, "p", &value).is_none());
    assert_eq!(pairs(&v), vec![("p.id".to_string(), "must not be empty".to_string())]);
}

#[test]
fn profile_errors_are_reported_in_field_order() {
    let mut v = Validator::new();
    let value = obj(vec![
        ("id", s("x")),
        ("name", n(3)),
        ("noise", s("loud")),
        ("ancLevel", n(4)),
        ("gameMode", s("yes")),
    ]);
    assert!(validate_smart_profile(&mut v, "customProfiles[2]", &value).is_none());
    assert_eq!(
        pairs(&v),
        vec![
            ("customProfiles[2].name".to_string(), "expected a string".to_string()),
            (
                "customProfiles[2].noise".to_string(),
                "must be one of: off, anc, adaptive, indoor, commuting, noisy, transparency".to_string()
            ),
            (
                "customProfiles[2].ancLevel".to_string(),
                "must be an integer between 1 and 3".to_string()
            ),
            ("customProfiles[2].gameMode".to_string(), "expected a boolean".to_string()),
        ]
    );
}

#[test]
fn profile_that_is_not_an_object_is_a_problem() {
    let mut v = Validator::new();
    assert!(validate_smart_profile(&mut v, "customProfiles[0]", &n(5)).is_none());
    assert_eq!(
        pairs(&v),
        vec![("customProfiles[0]".to_string(), "expected a JSON object".to_string())]
    );
}

#[test]
fn text_length_is_counted_in_utf8_bytes() {
    let mut v = Validator::new();
    let long = "é".repeat(41);
    let map = entries(vec![("name", s(&long))]);
    assert!(get_string(&map, "name", "p", &mut v, 80, "").is_none());
    assert_eq!(pairs(&v), vec![("p.name".to_string(), "longer than 80 characters".to_string())]);
    let fits = entries(vec![("name", s(&"é".repeat(40)))]);
    assert_eq!(get_string(&fits, "name", "p", &mut v, 80, "").as_deref(), Some("é".repeat(40).as_str()));
}

#[test]
fn more_than_sixty_four_profiles_are_refused() {
    let items: Vec<JsonValue> = (0..65).map(|i| profile(&format!("p{i}"))).collect();
    let mut v = Validator::new();
    let out = validate_custom_profiles(&mut v, Some(&JsonValue::Array(items)));
    assert!(out.is_empty());
    assert_eq!(pairs(&v), vec![("customProfiles".to_string(), "more than 64 entries".to_string())]);
}

#[test]
fn invalid_profiles_are_reported_by_index_and_left_out() {
    let items = vec![profile("a"), obj(vec![("id", s("b")), ("name", s("B")), ("ancLevel", n(9))]), profile("c")];
    let mut v = Validator::new();
    let out = validate_custom_profiles(&mut v, Some(&JsonValue::Array(items)));
    let ids: Vec<&str> = out.iter().map(|p| p.id.as_str()).collect();
    assert_eq!(ids, vec!["a", "c"]);
    assert_eq!(v.errors.len(), 2);
    assert_eq!(v.errors[0].path, "customProfiles[1].noise");
    assert_eq!(v.errors[1].path, "customProfiles[1].ancLevel");
}

#[test]
fn profiles_field_of_the_wrong_type_is_a_problem() {
    let mut v = Validator::new();
    assert!(validate_custom_profiles(&mut v, Some(&s("none"))).is_empty());
    assert_eq!(pairs(&v), vec![("customProfiles".to_string(), "expected an array".to_string())]);
    let mut w = Validator::new();
    assert!(validate_custom_profiles(&mut w, Some(&JsonValue::Null)).is_empty());
    assert!(validate_custom_profiles(&mut w, None).is_empty());
    assert!(w.errors.is_empty());
    assert!(array_field(&mut w, "customEq", Some(&JsonValue::Array(vec![n(1)])), 64).is_some());
}

#[test]
fn notify_defaults_and_overrides() {
    let mut v = Validator::new();
    let all = validate_notify(&mut v, "notify", None).unwrap();
    assert!(all.connected && all.disconnected && all.battery_low);
    assert!(all.battery_critical && all.battery_uneven && all.profile_switch);
    let some = obj(vec![("batteryLow", JsonValue::Bool(false)), ("connected", JsonValue::Null)]);
    let prefs = validate_notify(&mut v, "notify", Some(&some)).unwrap();
    assert!(!prefs.battery_low);
    assert!(prefs.connected);
    assert!(v.errors.is_empty());
    let bad = obj(vec![("connected", n(1))]);
    assert!(validate_notify(&mut v, "notify", Some(&bad)).is_none());
    assert_eq!(pairs(&v), vec![("notify.connected".to_string(), "expected a boolean".to_string())]);
}

#[test]
fn theme_names_and_fallback() {
    let mut v = Validator::new();
    assert_eq!(validate_theme(&mut v, None), ThemeMode::Dark);
    assert_eq!(validate_theme(&mut v, Some(&s("light"))), ThemeMode::Light);
    assert_eq!(validate_theme(&mut v, Some(&s("dark"))), ThemeMode::Dark);
    assert!(v.errors.is_empty());
    assert_eq!(validate_theme(&mut v, Some(&s("blue"))), ThemeMode::Dark);
    assert_eq!(validate_theme(&mut v, Some(&JsonValue::Null)), ThemeMode::Dark);
    assert_eq!(
        pairs(&v),
        vec![
            ("theme".to_string(), "must be one of: dark, light".to_string()),
            ("theme".to_string(), "must be one of: dark, light".to_string()),
        ]
    );
}

#[test]
fn portable_settings_take_documented_defaults() {
    let mut v = Validator::new();
    let (active, auto_game, keyword) = validate_portable_settings(&entries(vec![]), &mut v);
    assert_eq!(active, "music");
    assert!(!auto_game);
    assert_eq!(keyword, "game");
    let (active, auto_game, keyword) = validate_portable_settings(
        &entries(vec![("activeProfileId", n(3)), ("autoGame", JsonValue::Bool(true)), ("autoGameKeyword", s("raid"))]),
        &mut v,
    );
    assert_eq!(active, "music");
    assert!(auto_game);
    assert_eq!(keyword, "raid");
    assert_eq!(pairs(&v), vec![(".activeProfileId".to_string(), "expected a string".to_string())]);
}

#[test]
fn local_settings_defaults_and_range() {
    let mut v = Validator::new();
    assert_eq!(validate_local_settings(&entries(vec![]), &mut v), Some((true, 30)));
    assert_eq!(
        validate_local_settings(&entries(vec![("hideMac", JsonValue::Bool(false)), ("sleepTimerMin", n(240))]), &mut v),
        Some((false, 240))
    );
    assert!(v.errors.is_empty());
    assert_eq!(validate_local_settings(&entries(vec![("sleepTimerMin", n(4))]), &mut v), None);
    let fractional = JsonValue::Number { as_i64: None, as_u64: None };
    assert_eq!(validate_local_settings(&entries(vec![("sleepTimerMin", fractional)]), &mut v), None);
    assert_eq!(
        pairs(&v),
        vec![
            (".sleepTimerMin".to_string(), "must be an integer between 5 and 240".to_string()),
            (".sleepTimerMin".to_string(), "must be an integer between 5 and 240".to_string()),
        ]
    );
}

#[test]
fn summary_shows_the_first_errors_and_counts_the_rest() {
    let errs = vec![
        ConfigError { path: "a".to_string(), message: "x".to_string() },
        ConfigError { path: "b".to_string(), message: "y".to_string() },
        ConfigError { path: "c".to_string(), message: "z".to_string() },
    ];
    assert_eq!(summarize_errors(&errs, 2), "a: x; b: y (+1 more)");
    assert_eq!(summarize_errors(&errs, 3), "a: x; b: y; c: z");
    assert_eq!(summarize_errors(&errs, 0), " (+3 more)");
    assert_eq!(summarize_errors(&Vec::new(), 3), "");
}

#[test]
fn lookup_takes_the_first_entry_of_a_key() {
    let map = entries(vec![("k", n(1)), ("k", n(2))]);
    assert_eq!(lookup(&map, "k"), Some(&n(1)));
    assert_eq!(lookup(&map, "missing"), None);
}

#[test]
fn a_payload_that_is_not_an_object_is_rejected() {
    let errs = parse_portable_head(&JsonValue::Array(vec![])).err().unwrap();
    assert_eq!(errs, vec![ConfigError { path: "$".to_string(), message: "expected a JSON object".to_string() }]);
}

#[test]
fn invalid_notify_rejects_before_later_fields_are_read() {
    let raw = obj(vec![
        ("theme", s("blue")),
        ("notify", obj(vec![("connected", s("yes"))])),
        ("activeProfileId", n(1)),
    ]);
    let errs = parse_portable_head(&raw).err().unwrap();
    let paths: Vec<&str> = errs.iter().map(|e| e.path.as_str()).collect();
    assert_eq!(paths, vec!["theme", "notify.connected"]);
}

#[test]
fn a_valid_payload_is_accepted_with_its_values() {
    let raw = obj(vec![
        ("schema", n(1)),
        ("theme", s("light")),
        ("activeProfileId", s("focus")),
        ("autoGame", JsonValue::Bool(true)),
        ("customEq", JsonValue::Array(vec![obj(vec![]), obj(vec![])])),
        ("customProfiles", JsonValue::Array(vec![profile("p0")])),
        ("unknownKey", s("ignored")),
    ]);
    let (head, v, eq_items) = parse_portable_head(&raw).ok().unwrap();
    assert_eq!(head.theme, ThemeMode::Light);
    assert_eq!(head.active_profile_id, "focus");
    assert!(head.auto_game);
    assert_eq!(head.auto_game_keyword, "game");
    assert!(head.notify.connected);
    assert_eq!(eq_items.map(|items| items.len()), Some(2));
    let profiles = finish_portable(v, &raw).ok().unwrap();
    assert_eq!(profiles.len(), 1);
    assert!(!profiles[0].builtin);
}

#[test]
fn any_problem_rejects_the_whole_payload() {
    let raw = obj(vec![(
        "customProfiles",
        JsonValue::Array(vec![profile("ok"), obj(vec![("id", s("x")), ("name", s("X")), ("noise", s("off")), ("eqId", n(3))])]),
    )]);
    let (_, v, _) = parse_portable_head(&raw).ok().unwrap();
    let errs = finish_portable(v, &raw).err().unwrap();
    assert_eq!(errs, vec![ConfigError { path: "customProfiles[1].eqId".to_string(), message: "expected a string".to_string() }]);
}

#[test]
fn problems_found_earlier_also_reject_the_payload() {
    let raw = obj(vec![("autoGameKeyword", s(&"k".repeat(65)))]);
    let (head, v, eq_items) = parse_portable_head(&raw).ok().unwrap();
    assert_eq!(head.auto_game_keyword, "game");
    assert!(eq_items.is_none());
    let errs = finish_portable(v, &raw).err().unwrap();
    assert_eq!(errs, vec![ConfigError { path: ".autoGameKeyword".to_string(), message: "longer than 64 characters".to_string() }]);
}

fn eq_entry(id: &str, name: &str, kind: &str) -> JsonValue {
    obj(vec![
        ("id", s(id)),
        ("name", s(name)),
        ("kind", s(kind)),
        ("official", JsonValue::Bool(true)),
        ("preset", obj(vec![])),
    ])
}

#[test]
fn named_eq_fields_of_a_valid_entry_are_read_without_errors() {
    let mut v = Validator::new();
    let f = validate_named_eq_fields(&mut v, "customEq[0]", &eq_entry("bass", "Bass", "system")).unwrap();
    assert!(v.errors.is_empty());
    assert_eq!(f.id, "bass");
    assert_eq!(f.name, "Bass");
    assert_eq!(f.kind, "system");
    assert!(f.official);
    assert!(f.ok);
    assert!(named_eq_accepted(&f, true));
    assert!(!named_eq_accepted(&f, false));
}

#[test]
fn named_eq_kind_outside_device_and_system_is_rejected() {
    let mut v = Validator::new();
    let f = validate_named_eq_fields(&mut v, "p", &eq_entry("bass", "Bass", "other")).unwrap();
    assert_eq!(
        pairs(&v),
        vec![("p.kind".to_string(), "must be one of: device, system".to_string())]
    );
    assert_eq!(f.kind, "");
    assert!(!f.ok);
    assert!(!named_eq_accepted(&f, true));
}

#[test]
fn named_eq_without_preset_reports_the_preset_path() {
    let mut v = Validator::new();
    let value = obj(vec![("id", s("a")), ("name", s("A")), ("kind", s("device"))]);
    let f = validate_named_eq_fields(&mut v, "p", &value).unwrap();
    assert_eq!(
        pairs(&v),
        vec![("p.preset".to_string(), "expected an object".to_string())]
    );
    assert!(!f.official);
    assert!(!f.ok);
}

#[test]
fn named_eq_that_is_not_an_object_gives_none() {
    let mut v = Validator::new();
    assert!(validate_named_eq_fields(&mut v, "p", &s("x")).is_none());
    assert_eq!(
        pairs(&v),
        vec![("p".to_string(), "expected a JSON object".to_string())]
    );
}

#[test]
fn named_eq_with_an_empty_or_missing_id_is_a_problem() {
    let mut v = Validator::new();
    let f = validate_named_eq_fields(&mut v, "p", &eq_entry("", "Bass", "device")).unwrap();
    assert_eq!(pairs(&v), vec![("p.id".to_string(), "must not be empty".to_string())]);
    assert!(!f.ok);
    assert!(!named_eq_accepted(&f, true));

    let mut v = Validator::new();
    let value = obj(vec![
        ("name", s("A")),
        ("kind", s("device")),
        ("preset", obj(vec![])),
    ]);
    let f = validate_named_eq_fields(&mut v, "customEq[0]", &value).unwrap();
    assert_eq!(
        pairs(&v),
        vec![("customEq[0].id".to_string(), "must not be empty".to_string())]
    );
    assert!(!f.ok);
}

#[test]
fn profile_without_a_name_is_a_problem_not_a_silent_drop() {
    let mut v = Validator::new();
    let value = obj(vec![("id", s("x")), ("noise", s("off"))]);
    assert!(validate_smart_profile(&mut v, "customProfiles[0]", &value).is_none());
    assert_eq!(
        pairs(&v),
        vec![("customProfiles[0].name".to_string(), "must not be empty".to_string())]
    );
}

#[test]
fn load_uses_defaults_for_absent_unparsable_or_refused_payloads() {
    let absent = decide_load::<u8>(StoredConfig::Absent);
    assert!(absent.config.is_none() && absent.used_defaults && absent.errors.is_empty());
    let garbled = decide_load::<u8>(StoredConfig::NotJson);
    assert!(garbled.config.is_none() && garbled.used_defaults);
    assert_eq!(garbled.errors.len(), 1);
    assert_eq!(garbled.errors[0].path, "$");
    assert_eq!(garbled.errors[0].message, "stored config is not valid JSON; using defaults");
    let refusal = ConfigError { path: "schema".to_string(), message: "newer".to_string() };
    let refused = decide_load::<u8>(StoredConfig::Refused(vec![refusal.clone()]));
    assert!(refused.config.is_none() && refused.used_defaults);
    assert_eq!(refused.errors, vec![refusal]);
    let valid = decide_load(StoredConfig::Valid(7u8));
    assert_eq!(valid.config, Some(7));
    assert!(!valid.used_defaults && valid.errors.is_empty());
}

#[test]
fn settings_defaults_apply_when_fields_are_absent() {
    let mut v = Validator::new();
    let (active, auto_game, keyword) = validate_portable_settings(&Vec::new(), &mut v);
    assert_eq!(active, DEFAULT_ACTIVE_PROFILE_ID);
    assert_eq!(active, "music");
    assert!(!auto_game);
    assert_eq!(keyword, DEFAULT_AUTO_GAME_KEYWORD);
    assert_eq!(keyword, "game");
    assert_eq!(validate_local_settings(&Vec::new(), &mut v), Some((DEFAULT_HIDE_MAC, DEFAULT_SLEEP_TIMER_MIN)));
    assert_eq!(validate_local_settings(&Vec::new(), &mut v), Some((true, 30)));
    assert!(v.errors.is_empty());
}

#[test]
fn entries_without_an_id_reject_the_whole_payload() {
    let raw = obj(vec![(
        "customProfiles",
        JsonValue::Array(vec![profile("ok"), obj(vec![("name", s("No id")), ("noise", s("off"))])]),
    )]);
    let (_, mut v, _) = parse_portable_head(&raw).ok().unwrap();
    let eq = obj(vec![("name", s("A")), ("kind", s("device")), ("preset", obj(vec![]))]);
    let fields = validate_named_eq_fields(&mut v, "customEq[0]", &eq).unwrap();
    assert!(!named_eq_accepted(&fields, true));
    let errs = finish_portable(v, &raw).err().unwrap();
    assert_eq!(
        errs,
        vec![
            ConfigError { path: "customEq[0].id".to_string(), message: "must not be empty".to_string() },
            ConfigError { path: "customProfiles[1].id".to_string(), message: "must not be empty".to_string() },
        ]
    );
}
