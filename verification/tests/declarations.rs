//! Declaration rules: `Input::check`, its messages, and the projection to a
//! portable record.

use argenv::{
    Arg, ConfigKeyRef, Deprecation, Env, GatedBy, Input, LogLevel, ReviewDate, Since, Stability,
    Type, Version,
};

fn log_level() -> Input<LogLevel> {
    Input {
        key: "log_level",
        ty: Type::Enum,
        default: Some(LogLevel::Info),
        allowed: LogLevel::tokens(),
        env: Some(Env::new("APP_LOG_LEVEL")),
        arg: Some(Arg { value_name: "LEVEL", ..Arg::pair("log-level", 'l') }),
        summary: "Log verbosity",
        ..Input::empty()
    }
}

fn day(y: u16, m: u8, d: u8) -> ReviewDate {
    ReviewDate::new(y, m, d).unwrap()
}

#[test]
fn the_documented_log_level_declaration_is_valid_and_renders_its_usage() {
    let input = log_level();
    assert!(input.check().is_empty(), "{:?}", input.check());
    let rec = input.to_record(Some("\"info\"".to_string()), Vec::new());
    assert_eq!(rec.usage(), "-l, --log-level <LEVEL>");
}

#[test]
fn arity_follows_the_type() {
    let flag: Input<bool> = Input { key: "x", ty: Type::Bool, ..Input::empty() };
    let opt: Input<String> = Input { key: "x", ty: Type::String, ..Input::empty() };
    assert_eq!(flag.arity(), 0);
    assert_eq!(opt.arity(), 1);
}

#[test]
fn an_empty_key_and_no_binding_are_both_reported() {
    let bare: Input<String> = Input::empty();
    assert_eq!(
        bare.check(),
        vec![
            "an input has an empty key".to_string(),
            "<unnamed>: declares neither an env nor an arg binding, so nothing can ever set it"
                .to_string(),
        ]
    );
}

#[test]
fn key_rules_name_the_offending_character() {
    let upper: Input<String> = Input { key: "Host", env: Some(Env::new("H")), ..Input::empty() };
    assert_eq!(
        upper.check(),
        vec!["Host: key starts with `H`; must start with a lowercase letter".to_string()]
    );
    let dashed: Input<String> =
        Input { key: "log-level", env: Some(Env::new("H")), ..Input::empty() };
    assert_eq!(
        dashed.check(),
        vec![
            "log-level: key contains `-`; keys are snake_case (lowercase, digits, underscore)"
                .to_string()
        ]
    );
}

#[test]
fn env_names_and_aliases_are_checked() {
    let input: Input<String> = Input {
        key: "host",
        env: Some(Env { name: "1HOST", aliases: &["APP-HOST", "1HOST"] }),
        ..Input::empty()
    };
    assert_eq!(
        input.check(),
        vec![
            "host: env name `1HOST` starts with `1`; must start with a letter or underscore"
                .to_string(),
            "host: env alias `APP-HOST` contains `-`; only letters, digits and underscore are portable"
                .to_string(),
            "host: env alias `1HOST` starts with `1`; must start with a letter or underscore"
                .to_string(),
            "host: env alias repeats the primary name".to_string(),
        ]
    );
}

#[test]
fn long_flag_rules() {
    let dashes: Input<String> =
        Input { key: "a", arg: Some(Arg::long("--all")), ..Input::empty() };
    assert_eq!(
        dashes.check(),
        vec!["a: long `----all` must be written without leading dashes".to_string()]
    );
    let negation: Input<bool> =
        Input { key: "a", ty: Type::Bool, arg: Some(Arg::long("no-pager")), ..Input::empty() };
    assert!(negation.check().is_empty(), "{:?}", negation.check());
    let snake: Input<String> =
        Input { key: "a", arg: Some(Arg::long("log_level")), ..Input::empty() };
    assert_eq!(
        snake.check(),
        vec![
            "a: long `--log_level` contains `_`; long flags are kebab-case (lowercase, digits, dashes)"
                .to_string()
        ]
    );
}

#[test]
fn short_flags_must_be_ascii_alphanumeric() {
    let input: Input<String> = Input { key: "a", arg: Some(Arg::short('?')), ..Input::empty() };
    assert_eq!(input.check(), vec!["a: short `-?` must be an ASCII letter or digit".to_string()]);
}

#[test]
fn binding_shape_rules() {
    let nothing: Input<String> = Input { key: "a", arg: Some(Arg::empty()), ..Input::empty() };
    assert_eq!(
        nothing.check(),
        vec!["a: arg binding has neither a long/short form nor a position — it must be one or the other".to_string()]
    );
    let bool_positional: Input<bool> = Input {
        key: "a",
        ty: Type::Bool,
        arg: Some(Arg { negatable: true, repeatable: true, ..Arg::positional(0) }),
        ..Input::empty()
    };
    let p = bool_positional.check();
    assert_eq!(p.len(), 5, "{p:?}");
    assert_eq!(
        p[0],
        format!(
            "a: a positional cannot be Type::Bool — a positional's presence already{0}means a value was given, so there is no separate on/off state for a bool to{0}express; use a named flag for a switch instead",
            " ".repeat(22)
        )
    );
    assert_eq!(p[1], "a: `negatable` produces --no-… which only makes sense for a named flag");
    assert!(p[2].starts_with("a: `repeatable` accumulates repeated occurrences"));
    assert_eq!(p[3], "a: `negatable` needs a long form to negate");
    assert_eq!(
        p[4],
        "a: `repeatable` accumulates values and is meaningful only for list, but type is bool"
    );
}

#[test]
fn flag_modifiers_must_fit_the_type() {
    let input: Input<String> = Input {
        key: "a",
        arg: Some(Arg { negatable: true, ..Arg::long("aa") }),
        ..Input::empty()
    };
    assert_eq!(
        input.check(),
        vec!["a: `negatable` produces --no-… and is meaningful only for bool, but type is string"
            .to_string()]
    );
    let named_bool: Input<bool> = Input {
        key: "a",
        ty: Type::Bool,
        arg: Some(Arg { value_name: "X", ..Arg::long("aa") }),
        ..Input::empty()
    };
    assert_eq!(
        named_bool.check(),
        vec!["a: a bool flag takes no value, so `value_name` is meaningless".to_string()]
    );
}

#[test]
fn domain_rules() {
    let enum_without_tokens: Input<String> =
        Input { key: "a", ty: Type::Enum, env: Some(Env::new("A")), ..Input::empty() };
    assert_eq!(
        enum_without_tokens.check(),
        vec!["a: type is enum but `allowed` is empty".to_string()]
    );
    let list: Input<String> =
        Input { key: "a", ty: Type::List, allowed: &["x"], env: Some(Env::new("A")), ..Input::empty() };
    assert_eq!(
        list.check(),
        vec!["a: type is list but no `separators` are declared, so a value cannot be split"
            .to_string()]
    );
    let string: Input<String> = Input {
        key: "a",
        allowed: &["x"],
        separators: &[','],
        env: Some(Env::new("A")),
        ..Input::empty()
    };
    assert_eq!(
        string.check(),
        vec![
            "a: `allowed` is only meaningful for enum/list, but type is string".to_string(),
            "a: `separators` are only meaningful for list, but type is string".to_string(),
        ]
    );
}

#[test]
fn versions_newer_than_this_release_are_reported() {
    let input: Input<String> = Input {
        key: "a",
        env: Some(Env::new("A")),
        since: Since::Release(Version::new(0, 3, 0)),
        ..Input::empty()
    };
    assert_eq!(
        input.check(),
        vec!["a: `since` 0.3.0 is newer than the current version 0.2.0".to_string()]
    );
    let fine: Input<String> = Input {
        key: "a",
        env: Some(Env::new("A")),
        since: Since::Release(Version::new(0, 2, 0)),
        ..Input::empty()
    };
    assert!(fine.check().is_empty());
}

#[test]
fn deprecation_and_stability_must_agree() {
    let missing: Input<String> = Input {
        key: "a",
        env: Some(Env::new("A")),
        stability: Stability::Deprecated,
        ..Input::empty()
    };
    assert_eq!(
        missing.check(),
        vec!["a: stability is Deprecated but no Deprecation details are given".to_string()]
    );
    let stray: Input<String> = Input {
        key: "a",
        env: Some(Env::new("A")),
        stability: Stability::Stable,
        deprecation: Some(Deprecation {
            since: Version::new(1, 0, 0),
            replacement: None,
            note: "",
        }),
        ..Input::empty()
    };
    assert_eq!(
        stray.check(),
        vec![
            "a: has Deprecation details but stability is stable".to_string(),
            "a: deprecated-since 1.0.0 is newer than the current version 0.2.0".to_string(),
        ]
    );
}

#[test]
fn a_review_date_after_tomorrow_is_in_the_future() {
    let input: Input<String> = Input {
        key: "a",
        env: Some(Env::new("A")),
        reviewed: Some(day(2024, 3, 3)),
        ..Input::empty()
    };
    assert!(input.check_at(day(2024, 3, 2)).is_empty(), "tomorrow is allowed");
    assert_eq!(
        input.check_at(day(2024, 3, 1)),
        vec!["a: `reviewed` date 2024-03-03 is in the future".to_string()]
    );
    // the clock-driven check agrees for a date long past
    let old: Input<String> = Input { reviewed: Some(day(2001, 1, 1)), ..input };
    assert!(old.check().is_empty());
}

#[test]
fn a_gated_env_name_must_carry_the_branch_prefix() {
    let input: Input<String> = Input {
        key: "org",
        gated_by: Some(GatedBy { value: "add", env_prefix: "APP_ADD_" }),
        env: Some(Env::new("APP_ORG")),
        ..Input::empty()
    };
    assert_eq!(
        input.check(),
        vec!["org: env name `APP_ORG` must start with the selector's env_prefix `APP_ADD_`"
            .to_string()]
    );
}

#[test]
fn to_record_projects_every_field() {
    let input: Input<u16> = Input {
        key: "port",
        ty: Type::Uint,
        default: Some(5432),
        required: true,
        stability: Stability::Stable,
        since: Since::Release(Version::new(0, 1, 2)),
        group: "net",
        maps_to: Some(ConfigKeyRef("server.port")),
        example: "--port 8080",
        observe: Some("listen_port"),
        reviewed: Some(day(2024, 1, 9)),
        summary: "",
        env: Some(Env { name: "APP_PORT", aliases: &["PORT"] }),
        arg: Some(Arg { value_name: "PORT", ..Arg::pair("port", 'p') }),
        ..Input::empty()
    };
    let rec = input.to_record(Some("5432".to_string()), Vec::new());
    assert_eq!(rec.key, "port");
    assert_eq!(rec.ty, "uint");
    assert_eq!(rec.default.as_deref(), Some("5432"));
    assert!(rec.required);
    assert_eq!(rec.stability, "stable");
    assert_eq!(rec.since.as_deref(), Some("0.1.2"));
    assert_eq!(rec.group.as_deref(), Some("net"));
    assert_eq!(rec.maps_to.as_deref(), Some("server.port"));
    assert_eq!(rec.example.as_deref(), Some("--port 8080"));
    assert_eq!(rec.observe.as_deref(), Some("listen_port"));
    assert_eq!(rec.reviewed.as_deref(), Some("2024-01-09"));
    assert_eq!(rec.summary, None);
    let env = rec.env.as_ref().unwrap();
    assert_eq!(env.name, "APP_PORT");
    assert_eq!(env.aliases, vec!["PORT".to_string()]);
    let arg = rec.arg.as_ref().unwrap();
    assert_eq!(arg.long.as_deref(), Some("port"));
    assert_eq!(arg.short.as_deref(), Some("p"));
    assert_eq!(arg.arity, 1);
    assert_eq!(arg.value_name.as_deref(), Some("PORT"));
    assert_eq!(rec.usage(), "-p, --port <PORT>");
}

#[test]
fn usage_of_a_bool_flag_has_no_value_and_a_bare_option_uses_its_key() {
    let flag: Input<bool> =
        Input { key: "verbose", ty: Type::Bool, arg: Some(Arg::pair("verbose", 'v')), ..Input::empty() };
    assert_eq!(flag.to_record(None, Vec::new()).usage(), "-v, --verbose");
    let opt: Input<String> =
        Input { key: "log_file", arg: Some(Arg::long("log-file")), ..Input::empty() };
    assert_eq!(opt.to_record(None, Vec::new()).usage(), "--log-file <LOG_FILE>");
    let env_only: Input<String> =
        Input { key: "home", env: Some(Env::new("HOME")), ..Input::empty() };
    assert_eq!(env_only.to_record(None, Vec::new()).usage(), "");
}

#[test]
fn a_key_a_type_and_one_binding_make_a_valid_entry() {
    let by_env: Input<String> =
        Input { key: "host", env: Some(Env::new("APP_HOST")), ..Input::empty() };
    let by_flag: Input<bool> =
        Input { key: "dry_run", ty: Type::Bool, arg: Some(Arg::long("dry-run")), ..Input::empty() };
    let by_number: Input<u16> =
        Input { key: "port", ty: Type::Uint, env: Some(Env::new("APP_PORT")), ..Input::empty() };
    assert!(by_env.check().is_empty(), "{:?}", by_env.check());
    assert!(by_flag.check().is_empty(), "{:?}", by_flag.check());
    assert!(by_number.check().is_empty(), "{:?}", by_number.check());
}

#[test]
fn a_standalone_no_flag_is_a_valid_declaration() {
    let no_pager: Input<bool> = Input {
        key: "no_pager",
        ty: Type::Bool,
        default: Some(false),
        arg: Some(Arg::long("no-pager")),
        summary: "Do not pipe output through a pager.",
        ..Input::empty()
    };
    assert!(no_pager.check().is_empty(), "{:?}", no_pager.check());
    let no_edit: Input<bool> =
        Input { key: "no_edit", ty: Type::Bool, arg: Some(Arg::long("no-edit")), ..Input::empty() };
    assert!(no_edit.check().is_empty(), "{:?}", no_edit.check());
}
