//! [`Input`]: the declaration. One input a program accepts, however it
//! arrives, and the rules a declaration is checked against.
use vstd::prelude::*;
use crate::binding::{Arg, Env};
use crate::date::{date_after, date_wf, spec_next_day, ReviewDate};
use crate::names::{judge_name, name_verdict, NameFault, NameRule};
use crate::report::{problem_message, problem_text};
use crate::text::{alnum, has_prefix, is_alnum, owned, push_char, str_eq, str_has_prefix};
use crate::record::{
    opt_view, strings_view, ArgBinding, DeprecationRecord, EnvBinding, GateBinding, Record,
};
use crate::date::date_text;
use crate::version::version_text;
use crate::version::{spec_this_version, this_version, version_newer, Version};
use crate::vocabulary::{ConfigKeyRef, Deprecation, GatedBy, Since, Stability, Type};

verus! {

/// The default for [`Input`]'s second type parameter: an input that is not
/// scoped to any subcommand never names a real subcommand type. Its field is
/// private, so no value of it can be made outside this crate, and an empty
/// `subcommands` list is the only one that can be written.
#[derive(Clone, Copy, Debug)]
pub struct NoCommand(());

/// One input a program accepts: its identity, its domain, and the doors it
/// can arrive through.
///
/// `key` is the identity and is transport-free; `env` and `arg` are
/// bindings. `--log-level` and `APP_LOG_LEVEL` are one setting with two
/// doors, which is why they share a type, a domain and a default.
#[derive(Debug)]
pub struct Input<T: 'static, C: 'static = NoCommand> {
    /// Required. Transport-free identity, `snake_case`.
    pub key: &'static str,
    /// Required. The kind of value; it also fixes the argument form's arity.
    pub ty: Type,
    /// The value used when the input is absent.
    pub default: Option<T>,
    /// Accepted tokens for [`Type::Enum`] and [`Type::List`].
    pub allowed: &'static [&'static str],
    /// Characters that separate items in a [`Type::List`] value.
    pub separators: &'static [char],
    /// Whether the program requires this input.
    pub required: bool,
    /// How much a consumer may rely on this input.
    pub stability: Stability,
    /// The release in which this input was introduced.
    pub since: Since,
    /// Present if and only if `stability == Stability::Deprecated`.
    pub deprecation: Option<Deprecation>,
    /// A free-form grouping tag for documentation and help output.
    pub group: &'static str,
    /// A key in another configuration surface this input bridges to.
    pub maps_to: Option<ConfigKeyRef>,
    /// A copy-pasteable example, e.g. `"--log-level warn"`.
    pub example: &'static str,
    /// A field of the program's resolved-configuration output that this input
    /// visibly changes.
    pub observe: Option<&'static str>,
    /// The date a person last verified this entry.
    pub reviewed: Option<ReviewDate>,
    /// What the input does, in prose.
    pub summary: &'static str,
    /// How the value may arrive from the environment.
    pub env: Option<Env>,
    /// How the value may arrive from the argument vector.
    pub arg: Option<Arg>,
    /// The branch this input belongs to, if it is not global.
    pub gated_by: Option<GatedBy>,
    /// Restricts this input to one or more subcommands. Empty means always
    /// active.
    pub subcommands: &'static [C],
}

/// One thing wrong with a declaration. Names that appear in the message are
/// carried as the declaration wrote them.
#[derive(Clone, Copy, Debug)]
pub enum Problem {
    EmptyKey,
    Key(NameFault),
    NoBinding,
    EnvName(&'static str, NameFault),
    EnvAlias(&'static str, NameFault),
    AliasRepeatsName,
    EnvOutsideGate(&'static str, &'static str),
    ArgUnaddressed,
    ArgNamedAndPositional,
    PositionalBool,
    PositionalNegatable,
    PositionalRepeatable,
    Long(&'static str, NameFault),
    Short(char),
    NegatableNotBool(Type),
    NegatableWithoutLong,
    RepeatableNotList(Type),
    BoolValueName,
    SinceInFuture(Version),
    ReviewedInFuture(ReviewDate),
    DeprecatedWithoutDetails,
    DetailsWithoutDeprecation(Stability),
    DeprecatedSinceInFuture(Version),
    AllowedEmpty(Type),
    AllowedNotListy(Type),
    ListWithoutSeparators,
    SeparatorsNotList(Type),
}

/// The name a problem message gives an input: its key, or `<unnamed>`.
pub open spec fn at_of(key: Seq<char>) -> Seq<char> {
    if key.len() == 0 {
        "<unnamed>"@
    } else {
        key
    }
}

/// `seq![p]` when `b` holds, else nothing.
pub open spec fn when(b: bool, p: Problem) -> Seq<Problem> {
    if b {
        seq![p]
    } else {
        seq![]
    }
}

pub open spec fn key_problems(key: Seq<char>) -> Seq<Problem> {
    if key.len() == 0 {
        seq![Problem::EmptyKey]
    } else {
        match name_verdict(NameRule::Key, key) {
            Err(f) => seq![Problem::Key(f)],
            Ok(()) => seq![],
        }
    }
}

pub open spec fn env_name_problems(name: &'static str) -> Seq<Problem> {
    match name_verdict(NameRule::EnvName, name@) {
        Err(f) => seq![Problem::EnvName(name, f)],
        Ok(()) => seq![],
    }
}

pub open spec fn one_alias_problems(alias: &'static str, name: &'static str) -> Seq<Problem> {
    (match name_verdict(NameRule::EnvName, alias@) {
        Err(f) => seq![Problem::EnvAlias(alias, f)],
        Ok(()) => seq![],
    }) + when(alias@ == name@, Problem::AliasRepeatsName)
}

pub open spec fn alias_problems(aliases: Seq<&'static str>, name: &'static str) -> Seq<Problem>
    decreases aliases.len(),
{
    if aliases.len() == 0 {
        seq![]
    } else {
        alias_problems(aliases.drop_last(), name) + one_alias_problems(aliases.last(), name)
    }
}

pub open spec fn gate_prefix_problems(name: &'static str, selector: Option<GatedBy>) -> Seq<Problem> {
    match selector {
        Some(g) => when(!has_prefix(name@, g.env_prefix@), Problem::EnvOutsideGate(name, g.env_prefix)),
        None => seq![],
    }
}

pub open spec fn env_problems(env: Option<Env>, selector: Option<GatedBy>) -> Seq<Problem> {
    match env {
        None => seq![],
        Some(e) => env_name_problems(e.name) + alias_problems(e.aliases@, e.name)
            + gate_prefix_problems(e.name, selector),
    }
}

pub open spec fn long_problems(long: Option<&'static str>) -> Seq<Problem> {
    match long {
        Some(l) => match name_verdict(NameRule::Long, l@) {
            Err(f) => seq![Problem::Long(l, f)],
            Ok(()) => seq![],
        },
        None => seq![],
    }
}

pub open spec fn short_problems(short: Option<char>) -> Seq<Problem> {
    match short {
        Some(c) => when(!is_alnum(c), Problem::Short(c)),
        None => seq![],
    }
}

pub open spec fn arg_shape_problems(a: Arg, ty: Type) -> Seq<Problem> {
    let named = a.long is Some || a.short is Some;
    let positional = a.position is Some;
    when(!named && !positional, Problem::ArgUnaddressed) + when(
        named && positional,
        Problem::ArgNamedAndPositional,
    ) + when(positional && ty == Type::Bool, Problem::PositionalBool) + when(
        positional && a.negatable,
        Problem::PositionalNegatable,
    ) + when(positional && a.repeatable, Problem::PositionalRepeatable)
}

pub open spec fn arg_flag_problems(a: Arg, ty: Type) -> Seq<Problem> {
    when(a.negatable && ty != Type::Bool, Problem::NegatableNotBool(ty)) + when(
        a.negatable && a.long is None,
        Problem::NegatableWithoutLong,
    ) + when(a.repeatable && ty != Type::List, Problem::RepeatableNotList(ty)) + when(
        ty == Type::Bool && a.value_name@.len() != 0,
        Problem::BoolValueName,
    )
}

pub open spec fn arg_problems(arg: Option<Arg>, ty: Type) -> Seq<Problem> {
    match arg {
        None => seq![],
        Some(a) => arg_shape_problems(a, ty) + long_problems(a.long) + short_problems(a.short)
            + arg_flag_problems(a, ty),
    }
}

pub open spec fn since_problems(since: Since) -> Seq<Problem> {
    match since.spec_resolve() {
        Some(v) => when(version_newer(v, spec_this_version()), Problem::SinceInFuture(v)),
        None => seq![],
    }
}

pub open spec fn reviewed_problems(reviewed: Option<ReviewDate>, today: ReviewDate) -> Seq<
    Problem,
> {
    match reviewed {
        Some(r) => when(date_after(r, spec_next_day(today)), Problem::ReviewedInFuture(r)),
        None => seq![],
    }
}

pub open spec fn deprecation_problems(stability: Stability, deprecation: Option<Deprecation>) -> Seq<
    Problem,
> {
    when(
        stability == Stability::Deprecated && deprecation is None,
        Problem::DeprecatedWithoutDetails,
    ) + when(
        stability != Stability::Deprecated && deprecation is Some,
        Problem::DetailsWithoutDeprecation(stability),
    ) + match deprecation {
        Some(d) => when(
            version_newer(d.since, spec_this_version()),
            Problem::DeprecatedSinceInFuture(d.since),
        ),
        None => seq![],
    }
}

pub open spec fn domain_problems(ty: Type, n_allowed: nat, n_separators: nat) -> Seq<Problem> {
    let listy = ty == Type::Enum || ty == Type::List;
    when(listy && n_allowed == 0, Problem::AllowedEmpty(ty)) + when(
        n_allowed != 0 && !listy,
        Problem::AllowedNotListy(ty),
    ) + when(ty == Type::List && n_separators == 0, Problem::ListWithoutSeparators) + when(
        n_separators != 0 && ty != Type::List,
        Problem::SeparatorsNotList(ty),
    )
}

/// `Some(s)` unless `s` is empty.
pub open spec fn non_empty_view(s: Seq<char>) -> Option<Seq<char>> {
    if s.len() == 0 {
        None
    } else {
        Some(s)
    }
}

pub open spec fn opt_str_view(o: Option<&'static str>) -> Option<Seq<char>> {
    match o {
        Some(s) => Some(s@),
        None => None,
    }
}

pub open spec fn strs_view(v: Seq<&'static str>) -> Seq<Seq<char>> {
    v.map_values(|s: &'static str| s@)
}

pub open spec fn env_projects(e: Option<Env>, b: Option<EnvBinding>) -> bool {
    match e {
        None => b is None,
        Some(e) => b matches Some(b) && b.name@ == e.name@ && strings_view(b.aliases@) == strs_view(
            e.aliases@,
        ),
    }
}

pub open spec fn arg_projects(a: Option<Arg>, b: Option<ArgBinding>, arity: u8) -> bool {
    match a {
        None => b is None,
        Some(a) => b matches Some(b) && opt_view(b.long) == opt_str_view(a.long) && opt_view(
            b.short,
        ) == (match a.short {
            Some(c) => Some(seq![c]),
            None => None,
        }) && b.arity == arity && opt_view(b.value_name) == non_empty_view(a.value_name@)
            && b.negatable == a.negatable && b.repeatable == a.repeatable && b.position
            == a.position,
    }
}

pub open spec fn gate_projects(g: Option<GatedBy>, b: Option<GateBinding>) -> bool {
    match g {
        None => b is None,
        Some(g) => b matches Some(b) && b.value@ == g.value@ && b.env_prefix@ == g.env_prefix@,
    }
}

pub open spec fn deprecation_projects(d: Option<Deprecation>, b: Option<DeprecationRecord>) -> bool {
    match d {
        None => b is None,
        Some(d) => b matches Some(b) && b.since@ == version_text(d.since) && opt_view(
            b.replacement,
        ) == opt_str_view(d.replacement) && opt_view(b.note) == non_empty_view(d.note@),
    }
}

impl<T: 'static, C: 'static> Input<T, C> {
    /// `rec` is this declaration projected to portable form, with `default`
    /// as the default's JSON text and `subcommands` as the subcommand tokens.
    pub open spec fn projects_to(
        &self,
        rec: Record,
        default: Option<String>,
        subcommands: Seq<String>,
    ) -> bool {
        &&& rec.key@ == self.key@
        &&& rec.ty@ == self.ty.spec_name()
        &&& rec.default == default
        &&& strings_view(rec.allowed@) == strs_view(self.allowed@)
        &&& strings_view(rec.separators@) == self.separators@.map_values(|c: char| seq![c])
        &&& rec.required == self.required
        &&& rec.stability@ == self.stability.spec_name()
        &&& opt_view(rec.since) == (match self.since.spec_resolve() {
            Some(v) => Some(version_text(v)),
            None => None,
        })
        &&& deprecation_projects(self.deprecation, rec.deprecation)
        &&& opt_view(rec.group) == non_empty_view(self.group@)
        &&& opt_view(rec.maps_to) == (match self.maps_to {
            Some(c) => Some(c.0@),
            None => None,
        })
        &&& opt_view(rec.example) == non_empty_view(self.example@)
        &&& opt_view(rec.observe) == opt_str_view(self.observe)
        &&& opt_view(rec.reviewed) == (match self.reviewed {
            Some(d) => Some(date_text(d)),
            None => None,
        })
        &&& opt_view(rec.summary) == non_empty_view(self.summary@)
        &&& rec.modified is None
        &&& rec.source is None
        &&& env_projects(self.env, rec.env)
        &&& arg_projects(self.arg, rec.arg, if self.ty == Type::Bool {
            0u8
        } else {
            1u8
        })
        &&& gate_projects(self.gated_by, rec.gated_by)
        &&& rec.subcommands@ == subcommands
    }

    /// Projects this declaration down to the portable [`Record`].
    ///
    /// `default` is the declared default written as JSON text, and
    /// `subcommands` the tokens of the subcommands the input is scoped to:
    /// both come from serialising the typed values, which happens at the
    /// caller.
    pub fn to_record(&self, default: Option<String>, subcommands: Vec<String>) -> (r: Record)
        ensures
            self.projects_to(r, default, subcommands@),
    {
        let arity = self.arity();
        let env = match self.env {
            None => None,
            Some(e) => Some(EnvBinding { name: owned(e.name), aliases: strs_to_strings(e.aliases) }),
        };
        let arg = match self.arg {
            None => None,
            Some(a) => Some(
                ArgBinding {
                    long: opt_str(a.long),
                    short: match a.short {
                        Some(c) => Some(char_string(c)),
                        None => None,
                    },
                    arity,
                    value_name: non_empty(a.value_name),
                    negatable: a.negatable,
                    repeatable: a.repeatable,
                    position: a.position,
                },
            ),
        };
        let gated_by = match self.gated_by {
            None => None,
            Some(g) => Some(GateBinding { value: owned(g.value), env_prefix: owned(g.env_prefix) }),
        };
        let deprecation = match self.deprecation {
            None => None,
            Some(d) => Some(
                DeprecationRecord {
                    since: d.since.to_text(),
                    replacement: opt_str(d.replacement),
                    note: non_empty(d.note),
                },
            ),
        };
        Record {
            key: owned(self.key),
            ty: owned(self.ty.as_str()),
            default,
            allowed: strs_to_strings(self.allowed),
            separators: chars_to_strings(self.separators),
            required: self.required,
            stability: owned(self.stability.as_str()),
            since: match self.since.resolve() {
                Some(v) => Some(v.to_text()),
                None => None,
            },
            deprecation,
            group: non_empty(self.group),
            maps_to: match self.maps_to {
                Some(c) => Some(owned(c.0)),
                None => None,
            },
            example: non_empty(self.example),
            observe: opt_str(self.observe),
            reviewed: match self.reviewed {
                Some(d) => Some(d.to_text()),
                None => None,
            },
            summary: non_empty(self.summary),
            modified: None,
            source: None,
            env,
            arg,
            gated_by,
            subcommands,
        }
    }

    /// Every problem with this declaration, in the order the rules are listed,
    /// judged on the day `today`.
    pub open spec fn spec_problems(&self, today: ReviewDate) -> Seq<Problem> {
        key_problems(self.key@) + when(
            self.env is None && self.arg is None,
            Problem::NoBinding,
        ) + env_problems(self.env, self.gated_by) + arg_problems(self.arg, self.ty)
            + since_problems(self.since) + reviewed_problems(self.reviewed, today)
            + deprecation_problems(self.stability, self.deprecation) + domain_problems(
            self.ty,
            self.allowed@.len(),
            self.separators@.len(),
        )
    }

    /// The messages [`Input::check`] reports, judged on the day `today`.
    pub open spec fn spec_check(&self, today: ReviewDate) -> Seq<Seq<char>> {
        self.spec_problems(today).map_values(|p: Problem| problem_text(p, at_of(self.key@)))
    }

    /// The empty baseline: `Input { key: "...", ty: ..., ..Input::empty() }`.
    pub fn empty() -> (r: Input<T, C>)
        ensures
            r.key@ == Seq::<char>::empty(),
            r.ty == Type::String,
            r.default is None,
            r.allowed@.len() == 0,
            r.separators@.len() == 0,
            !r.required,
            r.stability == Stability::Unknown,
            r.since == Since::Unknown,
            r.deprecation is None,
            r.group@ == Seq::<char>::empty(),
            r.maps_to is None,
            r.example@ == Seq::<char>::empty(),
            r.observe is None,
            r.reviewed is None,
            r.summary@ == Seq::<char>::empty(),
            r.env is None,
            r.arg is None,
            r.gated_by is None,
            r.subcommands@.len() == 0,
    {
        proof {
            reveal_strlit("");
        }
        Input {
            key: "",
            ty: Type::String,
            default: None,
            allowed: &[],
            separators: &[],
            required: false,
            stability: Stability::Unknown,
            since: Since::Unknown,
            deprecation: None,
            group: "",
            maps_to: None,
            example: "",
            observe: None,
            reviewed: None,
            summary: "",
            env: None,
            arg: None,
            gated_by: None,
            subcommands: &[],
        }
    }

    /// How many values the argument form consumes: `0` for a boolean flag
    /// whose presence is the value, `1` otherwise.
    pub fn arity(&self) -> (r: u8)
        ensures
            r == (if self.ty == Type::Bool {
                0u8
            } else {
                1u8
            }),
    {
        match self.ty {
            Type::Bool => 0,
            _ => 1,
        }
    }

    /// Every problem with this declaration, judged on the day `today` (which
    /// only the `reviewed` rule reads).
    pub fn problems_at(&self, today: ReviewDate) -> (r: Vec<Problem>)
        ensures
            r@ == self.spec_problems(today),
    {
        let mut e: Vec<Problem> = Vec::new();
        push_key_problems(&mut e, self.key);
        let ghost s1 = e@;
        push_when(&mut e, self.env.is_none() && self.arg.is_none(), Problem::NoBinding);
        let ghost s2 = e@;
        push_env_problems(&mut e, self.env, self.gated_by);
        let ghost s3 = e@;
        push_arg_problems(&mut e, self.arg, self.ty);
        let ghost s4 = e@;
        push_dated_problems(&mut e, self.since, self.reviewed, today);
        let ghost s5 = e@;
        push_deprecation_problems(&mut e, self.stability, self.deprecation);
        let ghost s6 = e@;
        push_domain_problems(&mut e, self.ty, self.allowed.len(), self.separators.len());
        assert(e@ =~= self.spec_problems(today));
        e
    }

    /// Validates this declaration against the contract's rules, judged on the
    /// day `today`: one human-readable message per problem, in rule order;
    /// empty means valid.
    pub fn check_at(&self, today: ReviewDate) -> (r: Vec<String>)
        ensures
            r@.map_values(|s: String| s@) == self.spec_check(today),
    {
        let problems = self.problems_at(today);
        let at: &str = if self.key.is_empty() {
            "<unnamed>"
        } else {
            self.key
        };
        let mut out: Vec<String> = Vec::new();
        let mut i: usize = 0;
        while i < problems.len()
            invariant
                i <= problems@.len(),
                problems@ == self.spec_problems(today),
                at@ == at_of(self.key@),
                out@.len() == i,
                forall|j: int|
                    0 <= j < i ==> #[trigger] out@[j]@ == problem_text(problems@[j], at_of(self.key@)),
            decreases problems@.len() - i,
        {
            let m = problem_message(problems[i], at);
            out.push(m);
            i = i + 1;
        }
        assert(out@.map_values(|s: String| s@) =~= self.spec_check(today));
        out
    }

    /// Validates this declaration against the contract's rules; empty means
    /// valid. Run it in a test so a bad declaration fails the build rather
    /// than a user's launch.
    ///
    /// The `reviewed` rule compares against the machine's clock, so the
    /// verdict is the one [`Input::check_at`] gives on some real day.
    pub fn check(&self) -> (r: Vec<String>)
        ensures
            exists|today: ReviewDate|
                date_wf(today) && r@.map_values(|s: String| s@) == self.spec_check(today),
    {
        let today = ReviewDate::today();
        self.check_at(today)
    }
}

fn push_key_problems(e: &mut Vec<Problem>, key: &str)
    ensures
        final(e)@ == old(e)@ + key_problems(key@),
{
    if key.is_empty() {
        e.push(Problem::EmptyKey);
    } else if let Err(why) = valid_key(key) {
        e.push(Problem::Key(why));
    }
    assert(e@ =~= old(e)@ + key_problems(key@));
}

fn push_dated_problems(
    e: &mut Vec<Problem>,
    since: Since,
    reviewed: Option<ReviewDate>,
    today: ReviewDate,
)
    ensures
        final(e)@ == old(e)@ + since_problems(since) + reviewed_problems(reviewed, today),
{
    if let Some(v) = since.resolve() {
        if v.is_newer_than(&this_version()) {
            e.push(Problem::SinceInFuture(v));
        }
    }
    let ghost s1 = e@;
    assert(s1 =~= old(e)@ + since_problems(since));
    if let Some(r) = reviewed {
        let tomorrow = today.next_day();
        if r.is_after(&tomorrow) {
            e.push(Problem::ReviewedInFuture(r));
        }
    }
    assert(e@ =~= s1 + reviewed_problems(reviewed, today));
}

fn non_empty(s: &str) -> (r: Option<String>)
    ensures
        opt_view(r) == non_empty_view(s@),
{
    if s.is_empty() {
        None
    } else {
        Some(owned(s))
    }
}

fn opt_str(o: Option<&'static str>) -> (r: Option<String>)
    ensures
        opt_view(r) == opt_str_view(o),
{
    match o {
        Some(s) => Some(owned(s)),
        None => None,
    }
}

fn char_string(c: char) -> (r: String)
    ensures
        r@ == seq![c],
{
    let mut s = String::new();
    push_char(&mut s, c);
    assert(s@ =~= seq![c]);
    s
}

fn strs_to_strings(v: &[&'static str]) -> (r: Vec<String>)
    ensures
        strings_view(r@) == strs_view(v@),
{
    let mut out: Vec<String> = Vec::new();
    let mut i: usize = 0;
    while i < v.len()
        invariant
            i <= v@.len(),
            out@.len() == i,
            forall|j: int| 0 <= j < i ==> #[trigger] out@[j]@ == v@[j]@,
        decreases v@.len() - i,
    {
        out.push(owned(v[i]));
        i = i + 1;
    }
    assert(strings_view(out@) =~= strs_view(v@));
    out
}

fn chars_to_strings(v: &[char]) -> (r: Vec<String>)
    ensures
        strings_view(r@) == v@.map_values(|c: char| seq![c]),
{
    let mut out: Vec<String> = Vec::new();
    let mut i: usize = 0;
    while i < v.len()
        invariant
            i <= v@.len(),
            out@.len() == i,
            forall|j: int| 0 <= j < i ==> #[trigger] out@[j]@ == seq![v@[j]],
        decreases v@.len() - i,
    {
        out.push(char_string(v[i]));
        i = i + 1;
    }
    assert(strings_view(out@) =~= v@.map_values(|c: char| seq![c]));
    out
}

/// An input's identity is `snake_case`.
fn valid_key(key: &str) -> (r: Result<(), NameFault>)
    ensures
        r == name_verdict(NameRule::Key, key@),
{
    judge_name(NameRule::Key, key)
}

/// Environment names are portable only within `[A-Za-z_][A-Za-z0-9_]*`.
fn valid_env_name(name: &str) -> (r: Result<(), NameFault>)
    ensures
        r == name_verdict(NameRule::EnvName, name@),
{
    judge_name(NameRule::EnvName, name)
}

/// Long flags are kebab-case and written without their leading dashes.
fn valid_long(long: &str) -> (r: Result<(), NameFault>)
    ensures
        r == name_verdict(NameRule::Long, long@),
{
    judge_name(NameRule::Long, long)
}

fn push_env_problems(e: &mut Vec<Problem>, env: Option<Env>, selector: Option<GatedBy>)
    ensures
        final(e)@ == old(e)@ + env_problems(env, selector),
{
    if let Some(env) = env {
        if let Err(why) = valid_env_name(env.name) {
            e.push(Problem::EnvName(env.name, why));
        }
        let ghost mid = e@;
        assert(mid == old(e)@ + env_name_problems(env.name));
        let mut i: usize = 0;
        while i < env.aliases.len()
            invariant
                i <= env.aliases@.len(),
                e@ == mid + alias_problems(env.aliases@.take(i as int), env.name),
            decreases env.aliases@.len() - i,
        {
            let a = env.aliases[i];
            let ghost before = e@;
            if let Err(why) = valid_env_name(a) {
                e.push(Problem::EnvAlias(a, why));
            }
            if str_eq(a, env.name) {
                e.push(Problem::AliasRepeatsName);
            }
            proof {
                let s = env.aliases@.take(i + 1);
                assert(s.drop_last() =~= env.aliases@.take(i as int));
                assert(s.last() == a);
                assert(e@ =~= before + one_alias_problems(a, env.name));
            }
            i = i + 1;
        }
        assert(env.aliases@.take(env.aliases@.len() as int) =~= env.aliases@);
        let ghost mid2 = e@;
        if let Some(g) = selector {
            if !str_has_prefix(env.name, g.env_prefix) {
                e.push(Problem::EnvOutsideGate(env.name, g.env_prefix));
            }
        }
        assert(e@ =~= mid2 + gate_prefix_problems(env.name, selector));
        assert(e@ =~= old(e)@ + env_problems(Some(env), selector));
    } else {
        assert(e@ =~= old(e)@ + env_problems(env, selector));
    }
}

fn push_when(e: &mut Vec<Problem>, b: bool, p: Problem)
    ensures
        final(e)@ == old(e)@ + when(b, p),
{
    if b {
        e.push(p);
    }
    assert(e@ =~= old(e)@ + when(b, p));
}

fn push_arg_shape_problems(e: &mut Vec<Problem>, a: Arg, ty: Type)
    ensures
        final(e)@ == old(e)@ + arg_shape_problems(a, ty),
{
    let named = a.long.is_some() || a.short.is_some();
    let positional = a.position.is_some();
    let ghost s0 = e@;
    push_when(e, !named && !positional, Problem::ArgUnaddressed);
    let ghost s1 = e@;
    push_when(e, named && positional, Problem::ArgNamedAndPositional);
    let ghost s2 = e@;
    push_when(e, positional && ty == Type::Bool, Problem::PositionalBool);
    let ghost s3 = e@;
    push_when(e, positional && a.negatable, Problem::PositionalNegatable);
    let ghost s4 = e@;
    push_when(e, positional && a.repeatable, Problem::PositionalRepeatable);
    assert(e@ =~= s0 + arg_shape_problems(a, ty));
}

fn push_arg_flag_problems(e: &mut Vec<Problem>, a: Arg, ty: Type)
    ensures
        final(e)@ == old(e)@ + arg_flag_problems(a, ty),
{
    let ghost s0 = e@;
    push_when(e, a.negatable && ty != Type::Bool, Problem::NegatableNotBool(ty));
    let ghost s1 = e@;
    push_when(e, a.negatable && a.long.is_none(), Problem::NegatableWithoutLong);
    let ghost s2 = e@;
    push_when(e, a.repeatable && ty != Type::List, Problem::RepeatableNotList(ty));
    let ghost s3 = e@;
    push_when(e, ty == Type::Bool && !a.value_name.is_empty(), Problem::BoolValueName);
    assert(e@ =~= s0 + arg_flag_problems(a, ty));
}

fn push_long_problems(e: &mut Vec<Problem>, long: Option<&'static str>)
    ensures
        final(e)@ == old(e)@ + long_problems(long),
{
    if let Some(l) = long {
        if let Err(why) = valid_long(l) {
            e.push(Problem::Long(l, why));
        }
    }
    assert(e@ =~= old(e)@ + long_problems(long));
}

fn push_short_problems(e: &mut Vec<Problem>, short: Option<char>)
    ensures
        final(e)@ == old(e)@ + short_problems(short),
{
    match short {
        Some(c) => {
            let ok = alnum(c);
            push_when(e, !ok, Problem::Short(c));
        },
        None => {
            assert(e@ =~= old(e)@ + short_problems(short));
        },
    }
}

fn push_arg_problems(e: &mut Vec<Problem>, arg: Option<Arg>, ty: Type)
    ensures
        final(e)@ == old(e)@ + arg_problems(arg, ty),
{
    if let Some(a) = arg {
        let ghost s0 = e@;
        push_arg_shape_problems(e, a, ty);
        let ghost s1 = e@;
        push_long_problems(e, a.long);
        let ghost s2 = e@;
        push_short_problems(e, a.short);
        let ghost s3 = e@;
        push_arg_flag_problems(e, a, ty);
        assert(e@ =~= old(e)@ + arg_problems(arg, ty));
    } else {
        assert(e@ =~= old(e)@ + arg_problems(arg, ty));
    }
}

fn push_deprecation_problems(
    e: &mut Vec<Problem>,
    stability: Stability,
    deprecation: Option<Deprecation>,
)
    ensures
        final(e)@ == old(e)@ + deprecation_problems(stability, deprecation),
{
    if stability == Stability::Deprecated && deprecation.is_none() {
        e.push(Problem::DeprecatedWithoutDetails);
    }
    if stability != Stability::Deprecated && deprecation.is_some() {
        e.push(Problem::DetailsWithoutDeprecation(stability));
    }
    if let Some(d) = deprecation {
        if d.since.is_newer_than(&this_version()) {
            e.push(Problem::DeprecatedSinceInFuture(d.since));
        }
    }
    assert(e@ =~= old(e)@ + deprecation_problems(stability, deprecation));
}

fn push_domain_problems(e: &mut Vec<Problem>, ty: Type, n_allowed: usize, n_separators: usize)
    ensures
        final(e)@ == old(e)@ + domain_problems(ty, n_allowed as nat, n_separators as nat),
{
    let listy = ty == Type::Enum || ty == Type::List;
    if listy && n_allowed == 0 {
        e.push(Problem::AllowedEmpty(ty));
    }
    if n_allowed != 0 && !listy {
        e.push(Problem::AllowedNotListy(ty));
    }
    if ty == Type::List && n_separators == 0 {
        e.push(Problem::ListWithoutSeparators);
    }
    if n_separators != 0 && ty != Type::List {
        e.push(Problem::SeparatorsNotList(ty));
    }
    assert(e@ =~= old(e)@ + domain_problems(ty, n_allowed as nat, n_separators as nat));
}

} // verus!
