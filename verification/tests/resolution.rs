//! Resolving argv and environment against a model: option forms,
//! precedence, scoping by subcommand, linting and problem policies.

use argenv::{
    check_gates, check_unique, lint, should_exit, should_report, Arg, Env, EnvVars, Event,
    Finding, Input, InputResolveDefaultExt, InputResolveExt, Invocation, NoCommand, OnProblems, Record,
    Resolution, Severity, Source, Type,
};
use serde::Serialize;

#[derive(Clone, Copy, Debug, PartialEq, Eq)]
enum Command {
    Build,
    Run,
    Clean,
}

trait Token: Copy {
    fn token(self) -> &'static str;
}

impl Token for NoCommand {
    fn token(self) -> &'static str {
        unreachable!()
    }
}

impl Token for Command {
    fn token(self) -> &'static str {
        match self {
            Command::Build => "build",
            Command::Run => "run",
            Command::Clean => "clean",
        }
    }
}

const TOKENS: &[&str] = &["build", "run", "clean"];

fn record<T: Serialize, C: Token>(input: &Input<T, C>) -> Record {
    let default = input.default.as_ref().map(|d| serde_json::to_string(d).unwrap());
    let subcommands = input.subcommands.iter().map(|c| c.token().to_string()).collect();
    input.to_record(default, subcommands)
}

fn command() -> Input<String> {
    Input {
        key: "command",
        ty: Type::Enum,
        allowed: TOKENS,
        arg: Some(Arg::positional(0)),
        ..Input::empty()
    }
}

fn verbose() -> Input<bool> {
    Input {
        key: "verbose",
        ty: Type::Bool,
        default: Some(false),
        arg: Some(Arg::pair("verbose", 'v')),
        env: Some(Env::new("MOCK_VERBOSE")),
        ..Input::empty()
    }
}

fn config() -> Input<String> {
    Input {
        key: "config",
        arg: Some(Arg { value_name: "PATH", ..Arg::long("config") }),
        env: Some(Env { name: "MOCK_CONFIG", aliases: &["OLD_MOCK_CONFIG"] }),
        ..Input::empty()
    }
}

fn build_target() -> Input<String, Command> {
    Input {
        key: "build_target",
        subcommands: &[Command::Build],
        arg: Some(Arg { value_name: "TARGET", ..Arg::positional(0) }),
        ..Input::empty()
    }
}

fn jobs() -> Input<u16, Command> {
    Input {
        key: "jobs",
        ty: Type::Uint,
        subcommands: &[Command::Build, Command::Run],
        arg: Some(Arg { value_name: "N", ..Arg::pair("jobs", 'j') }),
        env: Some(Env::new("MOCK_JOBS")),
        ..Input::empty()
    }
}

fn release() -> Input<bool, Command> {
    Input {
        key: "release",
        ty: Type::Bool,
        default: Some(false),
        subcommands: &[Command::Build],
        arg: Some(Arg { negatable: true, ..Arg::long("release") }),
        ..Input::empty()
    }
}

fn tags() -> Input<String> {
    Input {
        key: "tags",
        ty: Type::List,
        allowed: &["a", "b", "c"],
        separators: &[','],
        arg: Some(Arg { repeatable: true, ..Arg::long("tag") }),
        ..Input::empty()
    }
}

fn level() -> Input<u16> {
    Input {
        key: "level",
        ty: Type::Uint,
        default: Some(3),
        required: true,
        env: Some(Env::new("MOCK_LEVEL")),
        arg: Some(Arg::long("level")),
        ..Input::empty()
    }
}

fn model() -> Vec<Record> {
    vec![
        record(&command()),
        record(&verbose()),
        record(&config()),
        record(&build_target()),
        record(&jobs()),
        record(&release()),
        record(&tags()),
        record(&level()),
    ]
}

fn resolve(args: &[&str], env: &[(&str, &str)]) -> Resolution {
    let args: Vec<String> = args.iter().map(|s| s.to_string()).collect();
    let mut vars = EnvVars::new();
    for (k, v) in env {
        vars.set(k, v);
    }
    Invocation { args: &args, env: &vars }.resolve(&model())
}

#[test]
fn the_model_is_sound() {
    assert!(check_unique(&model()).is_empty(), "{:?}", check_unique(&model()));
    assert!(check_gates(&model()).is_empty(), "{:?}", check_gates(&model()));
    assert!(build_target().check().is_empty());
    assert!(jobs().check().is_empty());
    assert!(release().check().is_empty());
    assert!(tags().check().is_empty());
}

#[test]
fn every_option_form_reads_the_same_value() {
    for args in [
        vec!["build", "--jobs", "4"],
        vec!["build", "--jobs=4"],
        vec!["build", "-j", "4"],
        vec!["build", "-j4"],
    ] {
        let r = resolve(&args, &[]);
        assert_eq!(jobs().get_from(&r), Some(4), "{args:?}");
        assert_eq!(r.source("jobs"), Some(Source::Arg));
    }
}

#[test]
fn one_setting_two_doors() {
    let by_flag = resolve(&["--config", "/etc/a.toml"], &[]);
    let by_env = resolve(&[], &[("MOCK_CONFIG", "/etc/a.toml")]);
    assert_eq!(config().get_from(&by_flag), config().get_from(&by_env));
    assert_eq!(by_flag.source("config"), Some(Source::Arg));
    assert_eq!(by_env.source("config"), Some(Source::Env));
}

#[test]
fn precedence_is_argument_then_environment_then_default() {
    let r = resolve(&["--level", "7"], &[("MOCK_LEVEL", "5")]);
    assert_eq!(level().get_from(&r), Some(7));
    assert_eq!(r.source("level"), Some(Source::Arg));
    let r = resolve(&[], &[("MOCK_LEVEL", "5")]);
    assert_eq!(level().get_from(&r), Some(5));
    assert_eq!(r.source("level"), Some(Source::Env));
    let r = resolve(&[], &[]);
    assert_eq!(level().get_from(&r), Some(3));
    assert_eq!(r.source("level"), Some(Source::Default));
    assert_eq!(r.raw("level"), Some("3"));
}

#[test]
fn an_alias_is_honoured_after_the_primary_name() {
    let r = resolve(&[], &[("OLD_MOCK_CONFIG", "old")]);
    assert_eq!(config().get_from(&r).as_deref(), Some("old"));
    let r = resolve(&[], &[("OLD_MOCK_CONFIG", "old"), ("MOCK_CONFIG", "new")]);
    assert_eq!(config().get_from(&r).as_deref(), Some("new"));
}

#[test]
fn subcommand_scoping_follows_the_selected_token() {
    let build = resolve(&["build", "app", "--release", "--jobs", "4"], &[]);
    assert_eq!(command().get_from(&build).as_deref(), Some("build"));
    assert_eq!(build_target().get_from(&build).as_deref(), Some("app"));
    assert_eq!(release().get_from(&build), Some(true));
    assert_eq!(jobs().get_from(&build), Some(4));

    let run = resolve(&["run", "app", "--release"], &[("MOCK_JOBS", "8")]);
    assert_eq!(build_target().get_from(&run), None);
    assert_eq!(release().get_from(&run), None);
    assert_eq!(jobs().get_from(&run), Some(8));

    let clean = resolve(&["clean"], &[("MOCK_JOBS", "8")]);
    assert_eq!(jobs().get_from(&clean), None);
    assert_eq!(verbose().get_from(&clean), Some(false));
    assert_eq!(clean.source("verbose"), Some(Source::Default));
}

#[test]
fn defaults_of_inactive_inputs_do_not_resolve_but_get_from_or_default_falls_back() {
    let r = resolve(&["run", "x"], &[]);
    assert_eq!(release().get_from(&r), None);
    assert_eq!(release().get_from_or_default(&r), Some(false));
    let none: Input<String> = Input { key: "missing", ..Input::empty() };
    assert_eq!(none.get_from_or_default(&r), None);
}

#[test]
fn a_negatable_flag_is_switched_off_by_its_no_form() {
    let r = resolve(&["build", "--release", "--no-release"], &[]);
    assert_eq!(release().get_from(&r), Some(false));
}

#[test]
fn a_repeatable_option_accumulates_its_values() {
    let r = resolve(&["--tag", "a", "--tag=b", "--tag", "c"], &[]);
    assert_eq!(r.raw("tags"), Some("a,b,c"));
}

#[test]
fn the_last_occurrence_of_a_plain_option_wins() {
    let r = resolve(&["--config", "one", "--config", "two"], &[]);
    assert_eq!(config().get_from(&r).as_deref(), Some("two"));
}

#[test]
fn double_dash_ends_options() {
    let r = resolve(&["--", "--verbose"], &[]);
    assert_eq!(command().get_from(&r).as_deref(), Some("--verbose"));
    assert_eq!(verbose().get_from(&r), Some(false));
    assert!(matches!(r.events[0], Event::EndOfOptions));
}

#[test]
fn the_scan_records_every_token() {
    let r = resolve(&["build", "--bogus", "-j"], &[]);
    assert!(matches!(&r.events[0], Event::Positional(s) if s == "build"));
    assert!(matches!(&r.events[1], Event::Unknown(s) if s == "--bogus"));
    assert!(matches!(r.events[2], Event::Missing(4)));
    assert_eq!(r.selected.as_deref(), Some("build"));
}

#[test]
fn env_reading_ignores_the_argument_vector() {
    let mut env = EnvVars::new();
    env.set("OLD_MOCK_CONFIG", "x");
    assert!(config().is_set_in(&env));
    assert_eq!(config().raw_in(&env).as_deref(), Some("x"));
    assert_eq!(config().get_in(&env).as_deref(), Some("x"));
    assert_eq!(config().env_names(), vec!["MOCK_CONFIG", "OLD_MOCK_CONFIG"]);
    assert!(!verbose().is_set_in(&env));
    env.set("MOCK_VERBOSE", "maybe");
    assert_eq!(verbose().get_in(&env), None);
}

fn findings(args: &[&str], env: &[(&str, &str)]) -> Vec<Finding> {
    lint(&model(), &resolve(args, env))
}

#[test]
fn lint_reports_an_unknown_flag_as_a_warning() {
    let f = findings(&["build", "app", "--bogus-flag"], &[]);
    assert_eq!(f.len(), 1);
    assert_eq!(f[0].severity(), Severity::Warning);
    assert_eq!(f[0].message(), "unknown argument `--bogus-flag`");
    assert!(!should_exit(&f, OnProblems::FailOnError));
    assert!(should_exit(&f, OnProblems::FailOnAny));
}

#[test]
fn lint_reports_an_unknown_subcommand_as_invalid() {
    let f = findings(&["frobnicate"], &[]);
    assert_eq!(f.len(), 1);
    assert_eq!(f[0].message(), "invalid value `frobnicate` for `command`");
    assert_eq!(f[0].severity(), Severity::Error);
    assert!(should_exit(&f, OnProblems::FailOnError));
}

#[test]
fn lint_reports_a_value_of_the_wrong_type() {
    let f = findings(&["build", "app", "--jobs", "notanumber"], &[]);
    assert_eq!(f.len(), 1);
    assert_eq!(f[0].message(), "invalid value `notanumber` for `jobs`");
}

#[test]
fn lint_reports_a_missing_value_and_an_out_of_branch_flag() {
    let f = findings(&["run", "x", "--release", "--config"], &[]);
    let messages: Vec<String> = f.iter().map(|f| f.message()).collect();
    assert_eq!(
        messages,
        vec![
            "`release` was given but does not apply to the selected subcommand".to_string(),
            "`config` expects a value but the arguments ended".to_string(),
        ]
    );
    assert_eq!(f[0].severity(), Severity::Warning);
    assert_eq!(f[1].severity(), Severity::Error);
}

#[test]
fn lint_reports_a_required_input_without_a_value() {
    let required: Input<String> =
        Input { key: "token", required: true, env: Some(Env::new("TOKEN")), ..Input::empty() };
    let model = vec![record(&required)];
    let args: Vec<String> = Vec::new();
    let env = EnvVars::new();
    let r = Invocation { args: &args, env: &env }.resolve(&model);
    let f = lint(&model, &r);
    assert_eq!(f.len(), 1);
    assert_eq!(f[0].message(), "`token` is required but has no value");
    assert!(matches!(f[0], Finding::MissingRequired(_)));
}

#[test]
fn a_clean_invocation_has_no_findings() {
    assert!(findings(&["build", "app", "-v", "--jobs", "2"], &[]).is_empty());
}

#[test]
fn policies_decide_whether_to_report_and_to_stop() {
    let none: Vec<Finding> = Vec::new();
    let warning = vec![Finding::UnknownArg("--x".to_string())];
    let error = vec![Finding::MissingValue("k".to_string())];
    assert!(!should_report(&none, OnProblems::FailOnAny));
    assert!(!should_report(&warning, OnProblems::Ignore));
    assert!(should_report(&warning, OnProblems::WarnOnly));
    assert!(!should_exit(&none, OnProblems::FailOnAny));
    assert!(!should_exit(&error, OnProblems::WarnOnly));
    assert!(!should_exit(&error, OnProblems::Ignore));
    assert!(should_exit(&error, OnProblems::FailOnError));
    assert!(!should_exit(&warning, OnProblems::FailOnError));
}

#[test]
fn check_unique_reports_every_shared_name() {
    let a: Input<String> = Input {
        key: "a",
        env: Some(Env::new("X")),
        arg: Some(Arg::pair("same", 's')),
        ..Input::empty()
    };
    let b: Input<String> = Input {
        key: "a",
        env: Some(Env { name: "Y", aliases: &["X"] }),
        arg: Some(Arg::pair("same", 's')),
        ..Input::empty()
    };
    assert_eq!(
        check_unique(&[record(&a), record(&b)]),
        vec![
            "key `a` is declared more than once".to_string(),
            "`a` and `a` both answer to env name `X`".to_string(),
            "`a` and `a` both use `--same`".to_string(),
            "`a` and `a` both use `-s`".to_string(),
        ]
    );
    let p: Input<String> = Input { key: "p", arg: Some(Arg::positional(1)), ..Input::empty() };
    let q: Input<String> = Input { key: "q", arg: Some(Arg::positional(1)), ..Input::empty() };
    assert_eq!(
        check_unique(&[record(&p), record(&q)]),
        vec!["`p` and `q` both take positional slot 1 in the same branch".to_string()]
    );
}

#[test]
fn check_gates_reports_subcommand_scoping_without_a_selector() {
    let problems = check_gates(&[record(&jobs())]);
    assert_eq!(
        problems,
        vec!["`jobs` is scoped to subcommands but the model declares no selector (an ungated enum positional)".to_string()]
    );
    let narrow: Input<String> = Input { allowed: &["build"], ..command() };
    let problems = check_gates(&[record(&narrow), record(&jobs())]);
    assert_eq!(
        problems,
        vec!["`jobs` is scoped to subcommand `run`, which is not among the allowed tokens of the selector `command`".to_string()]
    );
}

#[test]
fn a_standalone_no_flag_resolves_as_itself() {
    let no_pager: Input<bool> = Input {
        key: "no_pager",
        ty: Type::Bool,
        default: Some(false),
        arg: Some(Arg::long("no-pager")),
        ..Input::empty()
    };
    assert!(no_pager.check().is_empty(), "{:?}", no_pager.check());
    let model = vec![record(&no_pager)];
    let args = vec!["--no-pager".to_string()];
    let env = EnvVars::new();
    let r = Invocation { args: &args, env: &env }.resolve(&model);
    assert_eq!(no_pager.get_from(&r), Some(true));
    assert_eq!(r.source("no_pager"), Some(Source::Arg));
    assert!(lint(&model, &r).is_empty());
    let none: Vec<String> = Vec::new();
    let r = Invocation { args: &none, env: &env }.resolve(&model);
    assert_eq!(no_pager.get_from(&r), Some(false));
    assert_eq!(r.source("no_pager"), Some(Source::Default));
}

#[test]
fn report_lines_carry_the_severity_and_the_message() {
    let w = findings(&["build", "app", "--bogus-flag"], &[]);
    assert_eq!(w[0].report_line(), "warning: unknown argument `--bogus-flag`");
    let e = findings(&["frobnicate"], &[]);
    assert_eq!(e[0].report_line(), format!("error: {}", e[0].message()));
}
