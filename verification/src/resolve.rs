//! Resolving a model against an invocation: argv and an environment, with
//! precedence (argument, then environment, then default), branch gating,
//! and provenance for every value.
use vstd::prelude::*;
use crate::json::{json_parse, json_text_token, token_of};
use crate::record::{opt_view, strings_view, Record};
use crate::scan::{args_view, events_view, scan, spec_scan, Event, Token};
use crate::text::{chars_eq, chars_of, owned, str_eq};

verus! {

/// Where a resolved value came from, in order of precedence.
#[derive(Clone, Copy, Debug, PartialEq, Eq, Structural)]
pub enum Source {
    /// The argument vector: a named option or a positional.
    Arg,
    /// An environment variable.
    Env,
    /// The declared default.
    Default,
}

/// A snapshot of environment variables, looked up by name; where a name
/// occurs twice the first entry counts.
#[derive(Clone, Debug)]
pub struct EnvVars {
    pub vars: Vec<(String, String)>,
}

/// The value of `name` among `vars[i..]`.
pub open spec fn env_lookup_from(vars: Seq<(String, String)>, name: Seq<char>, i: nat) -> Option<
    Seq<char>,
>
    decreases vars.len() - i,
{
    if i >= vars.len() {
        None
    } else if vars[i as int].0@ == name {
        Some(vars[i as int].1@)
    } else {
        env_lookup_from(vars, name, i + 1)
    }
}

proof fn lemma_lookup_shift(
    old_vars: Seq<(String, String)>,
    new_vars: Seq<(String, String)>,
    name: Seq<char>,
    i: nat,
)
    requires
        new_vars.len() == old_vars.len() + 1,
        forall|j: int| 0 <= j < old_vars.len() ==> new_vars[j + 1] == old_vars[j],
    ensures
        env_lookup_from(new_vars, name, i + 1) == env_lookup_from(old_vars, name, i),
    decreases old_vars.len() - i,
{
    if i < old_vars.len() {
        lemma_lookup_shift(old_vars, new_vars, name, i + 1);
    }
}

impl EnvVars {
    /// The value of `name`, if set.
    pub open spec fn spec_get(&self, name: Seq<char>) -> Option<Seq<char>> {
        env_lookup_from(self.vars@, name, 0)
    }

    /// An environment with nothing set.
    pub fn new() -> (r: EnvVars)
        ensures
            forall|name: Seq<char>| r.spec_get(name) is None,
    {
        EnvVars { vars: Vec::new() }
    }

    /// The value of `name`, if set.
    pub fn get(&self, name: &str) -> (r: Option<String>)
        ensures
            opt_view(r) == self.spec_get(name@),
    {
        let want = chars_of(name);
        let mut i: usize = 0;
        while i < self.vars.len()
            invariant
                i <= self.vars@.len(),
                want@ == name@,
                self.spec_get(name@) == env_lookup_from(self.vars@, name@, i as nat),
            decreases self.vars@.len() - i,
        {
            let have = chars_of(self.vars[i].0.as_str());
            if chars_eq(&have, &want) {
                return Some(self.vars[i].1.clone());
            }
            i = i + 1;
        }
        None
    }

    /// Sets `name` to `value`; every other name keeps its value.
    pub fn set(&mut self, name: &str, value: &str)
        ensures
            final(self).spec_get(name@) == Some(value@),
            forall|other: Seq<char>|
                other != name@ ==> final(self).spec_get(other) == old(self).spec_get(other),
    {
        let ghost before = self.vars@;
        self.vars.insert(0, (owned(name), owned(value)));
        proof {
            assert forall|other: Seq<char>| other != name@ implies self.spec_get(other) == env_lookup_from(
                before,
                other,
                0,
            ) by {
                lemma_lookup_shift(before, self.vars@, other, 0);
            }
        }
    }
}

/// The positional tokens, in order.
pub open spec fn positionals(ts: Seq<Token>) -> Seq<Seq<char>>
    decreases ts.len(),
{
    if ts.len() == 0 {
        seq![]
    } else {
        positionals(ts.drop_last()) + match ts.last() {
            Token::Positional(v) => seq![v],
            _ => seq![],
        }
    }
}

/// The values given to the option of record `k`, in order.
pub open spec fn named_values(ts: Seq<Token>, k: int) -> Seq<Seq<char>>
    decreases ts.len(),
{
    if ts.len() == 0 {
        seq![]
    } else {
        named_values(ts.drop_last(), k) + match ts.last() {
            Token::Named(j, v) => if j == k {
                seq![v]
            } else {
                seq![]
            },
            _ => seq![],
        }
    }
}

/// `vals` joined by `sep`.
pub open spec fn join(vals: Seq<Seq<char>>, sep: Seq<char>) -> Seq<char>
    decreases vals.len(),
{
    if vals.len() == 0 {
        seq![]
    } else if vals.len() == 1 {
        vals[0]
    } else {
        join(vals.drop_last(), sep) + sep + vals.last()
    }
}

pub open spec fn position_of(r: Record) -> Option<u16> {
    match r.arg {
        Some(a) => a.position,
        None => None,
    }
}

pub open spec fn repeatable_of(r: Record) -> bool {
    r.arg matches Some(a) && a.repeatable
}

/// The text that joins repeated values of a record: its first separator, or
/// a comma.
pub open spec fn separator_of(r: Record) -> Seq<char> {
    if r.separators@.len() > 0 {
        r.separators@[0]@
    } else {
        ","@
    }
}

/// Every environment name a record answers to: the primary name, then the
/// aliases.
pub open spec fn env_names(r: Record) -> Seq<Seq<char>> {
    match r.env {
        Some(e) => seq![e.name@] + strings_view(e.aliases@),
        None => seq![],
    }
}

/// The value of the first of `names[j..]` that `env` sets.
pub open spec fn first_set(env: EnvVars, names: Seq<Seq<char>>, j: nat) -> Option<Seq<char>>
    decreases names.len() - j,
{
    if j >= names.len() {
        None
    } else {
        match env.spec_get(names[j as int]) {
            Some(v) => Some(v),
            None => first_set(env, names, j + 1),
        }
    }
}

/// What the argument vector gives record `k`: its option's value (all of
/// them joined, for a repeatable option; the last one otherwise), else the
/// positional at `offset` plus its position.
pub open spec fn arg_value(r: Record, k: int, ts: Seq<Token>, offset: int) -> Option<Seq<char>> {
    let vals = named_values(ts, k);
    if vals.len() > 0 {
        if repeatable_of(r) {
            Some(join(vals, separator_of(r)))
        } else {
            Some(vals.last())
        }
    } else {
        match position_of(r) {
            Some(q) => {
                let ps = positionals(ts);
                if offset + q < ps.len() {
                    Some(ps[offset + q])
                } else {
                    None
                }
            },
            None => None,
        }
    }
}

/// The default's raw token.
pub open spec fn default_value(r: Record) -> Option<Seq<char>> {
    match r.default {
        Some(t) => token_of(json_parse(t@)),
        None => None,
    }
}

/// The value of record `k` by precedence: argument, environment, default.
pub open spec fn value_of(r: Record, k: int, ts: Seq<Token>, env: EnvVars, offset: int) -> Option<
    (Seq<char>, Source),
> {
    match arg_value(r, k, ts, offset) {
        Some(v) => Some((v, Source::Arg)),
        None => match first_set(env, env_names(r), 0) {
            Some(v) => Some((v, Source::Env)),
            None => match default_value(r) {
                Some(v) => Some((v, Source::Default)),
                None => None,
            },
        },
    }
}

/// The selector: an ungated, unscoped enum positional, whose value selects the
/// branch.
pub open spec fn is_gate(r: Record) -> bool {
    &&& r.gated_by is None
    &&& r.subcommands@.len() == 0
    &&& r.ty@ == "enum"@
    &&& position_of(r) is Some
}

/// The first selector at or after `k`.
pub open spec fn find_gate(model: Seq<Record>, k: nat) -> Option<int>
    decreases model.len() - k,
{
    if k >= model.len() {
        None
    } else if is_gate(model[k as int]) {
        Some(k as int)
    } else {
        find_gate(model, k + 1)
    }
}

/// A record that belongs to a branch rather than to every invocation.
pub open spec fn scoped(r: Record) -> bool {
    r.gated_by is Some || r.subcommands@.len() > 0
}

/// The value the selector resolved to, if the model has a selector.
pub open spec fn gate_value(model: Seq<Record>, ts: Seq<Token>, env: EnvVars) -> Option<Seq<char>> {
    match find_gate(model, 0) {
        Some(g) => match value_of(model[g], g, ts, env, 0) {
            Some(vs) => Some(vs.0),
            None => None,
        },
        None => None,
    }
}

/// Where a branch's positionals start: right after the selector's token.
pub open spec fn gate_offset(model: Seq<Record>) -> int {
    match find_gate(model, 0) {
        Some(g) => match position_of(model[g]) {
            Some(q) => q + 1,
            None => 0,
        },
        None => 0,
    }
}

/// Whether record `r` takes part when the selector resolved to `gv`.
pub open spec fn active(r: Record, gv: Option<Seq<char>>) -> bool {
    &&& match r.gated_by {
        Some(g) => gv == Some(g.value@),
        None => true,
    }
    &&& r.subcommands@.len() == 0 || (gv matches Some(v) && strings_view(r.subcommands@).contains(
        v,
    ))
}

/// The resolved entry of record `k`, if it is active and has a value.
pub open spec fn entry(
    model: Seq<Record>,
    k: int,
    ts: Seq<Token>,
    env: EnvVars,
    gv: Option<Seq<char>>,
    off: int,
) -> Seq<(Seq<char>, Seq<char>, Source)> {
    let r = model[k];
    if active(r, gv) {
        match value_of(r, k, ts, env, if scoped(r) {
            off
        } else {
            0
        }) {
            Some(vs) => seq![(r.key@, vs.0, vs.1)],
            None => seq![],
        }
    } else {
        seq![]
    }
}

/// The resolved entries of the first `n` records.
pub open spec fn entries(
    model: Seq<Record>,
    ts: Seq<Token>,
    env: EnvVars,
    gv: Option<Seq<char>>,
    off: int,
    n: nat,
) -> Seq<(Seq<char>, Seq<char>, Source)>
    decreases n,
{
    if n == 0 {
        seq![]
    } else {
        entries(model, ts, env, gv, off, (n - 1) as nat) + entry(
            model,
            (n - 1) as int,
            ts,
            env,
            gv,
            off,
        )
    }
}

/// The resolution of `args` and `env` against `model`: one entry per active
/// record that has a value, in model order, with its source.
pub open spec fn spec_resolve(model: Seq<Record>, args: Seq<Seq<char>>, env: EnvVars) -> Seq<
    (Seq<char>, Seq<char>, Source),
> {
    let ts = spec_scan(model, args);
    entries(model, ts, env, gate_value(model, ts, env), gate_offset(model), model.len())
}

/// One resolved value.
#[derive(Clone, Debug)]
pub struct Resolved {
    /// The key of the input.
    pub key: String,
    /// The raw, unparsed value.
    pub raw: String,
    /// Where it came from.
    pub source: Source,
}

/// The views of resolved values.
pub open spec fn resolved_view(v: Seq<Resolved>) -> Seq<(Seq<char>, Seq<char>, Source)> {
    v.map_values(|r: Resolved| (r.key@, r.raw@, r.source))
}

/// The first entry at or after `i` for `key`.
pub open spec fn lookup_from(v: Seq<(Seq<char>, Seq<char>, Source)>, key: Seq<char>, i: nat) -> Option<
    (Seq<char>, Source),
>
    decreases v.len() - i,
{
    if i >= v.len() {
        None
    } else if v[i as int].0 == key {
        Some((v[i as int].1, v[i as int].2))
    } else {
        lookup_from(v, key, i + 1)
    }
}

/// A fully resolved invocation: every active input's value with its
/// provenance, and the scanned tokens it was read from.
#[derive(Clone, Debug)]
pub struct Resolution {
    /// One entry per active input that has a value, in model order.
    pub values: Vec<Resolved>,
    /// The scanned argument vector.
    pub events: Vec<Event>,
    /// The value the selector resolved to, if the model has one.
    pub selected: Option<String>,
}

fn positionals_of(events: &Vec<Event>) -> (r: Vec<String>)
    ensures
        strings_view(r@) == positionals(events_view(events@)),
{
    let mut out: Vec<String> = Vec::new();
    let mut i: usize = 0;
    while i < events.len()
        invariant
            i <= events@.len(),
            strings_view(out@) == positionals(events_view(events@.take(i as int))),
        decreases events@.len() - i,
    {
        let ghost before = out@;
        proof {
            let t = events_view(events@.take(i + 1));
            assert(t.drop_last() =~= events_view(events@.take(i as int)));
            assert(t.last() == events@[i as int]@);
        }
        match &events[i] {
            Event::Positional(v) => {
                out.push(v.clone());
            },
            _ => {},
        }
        assert(strings_view(out@) =~= positionals(events_view(events@.take(i + 1))));
        i = i + 1;
    }
    assert(events@.take(events@.len() as int) =~= events@);
    out
}

fn named_values_of(events: &Vec<Event>, k: usize) -> (r: Vec<String>)
    ensures
        strings_view(r@) == named_values(events_view(events@), k as int),
{
    let mut out: Vec<String> = Vec::new();
    let mut i: usize = 0;
    while i < events.len()
        invariant
            i <= events@.len(),
            strings_view(out@) == named_values(events_view(events@.take(i as int)), k as int),
        decreases events@.len() - i,
    {
        proof {
            let t = events_view(events@.take(i + 1));
            assert(t.drop_last() =~= events_view(events@.take(i as int)));
            assert(t.last() == events@[i as int]@);
        }
        match &events[i] {
            Event::Named(j, v) => {
                if *j == k {
                    out.push(v.clone());
                }
            },
            _ => {},
        }
        assert(strings_view(out@) =~= named_values(events_view(events@.take(i + 1)), k as int));
        i = i + 1;
    }
    assert(events@.take(events@.len() as int) =~= events@);
    out
}

fn join_values(vals: &Vec<String>, sep: &str) -> (r: String)
    ensures
        r@ == join(strings_view(vals@), sep@),
{
    if vals.len() == 0 {
        return String::new();
    }
    let mut out = vals[0].clone();
    let mut i: usize = 1;
    proof {
        assert(strings_view(vals@).take(1) =~= seq![vals@[0]@]);
    }
    while i < vals.len()
        invariant
            1 <= i <= vals@.len(),
            out@ == join(strings_view(vals@).take(i as int), sep@),
        decreases vals@.len() - i,
    {
        proof {
            let t = strings_view(vals@).take(i + 1);
            assert(t.drop_last() =~= strings_view(vals@).take(i as int));
        }
        out.append(sep);
        out.append(vals[i].as_str());
        i = i + 1;
    }
    assert(strings_view(vals@).take(vals@.len() as int) =~= strings_view(vals@));
    out
}

#[verifier::loop_isolation(false)]
fn env_value_of(r: &Record, env: &EnvVars) -> (o: Option<String>)
    ensures
        opt_view(o) == first_set(*env, env_names(*r), 0),
{
    match &r.env {
        None => None,
        Some(e) => {
            let ghost names = env_names(*r);
            let first = env.get(e.name.as_str());
            if first.is_some() {
                return first;
            }
            let mut j: usize = 0;
            while j < e.aliases.len()
                invariant
                    j <= e.aliases@.len(),
                    names == seq![e.name@] + strings_view(e.aliases@),
                    first_set(*env, names, 0) == first_set(*env, names, (j + 1) as nat),
                decreases e.aliases@.len() - j,
            {
                assert(names[j + 1] == e.aliases@[j as int]@);
                let v = env.get(e.aliases[j].as_str());
                if v.is_some() {
                    assert(first_set(*env, names, (j + 1) as nat) == opt_view(v));
                    return v;
                }
                j = j + 1;
            }
            None
        },
    }
}

fn default_value_of(r: &Record) -> (o: Option<String>)
    ensures
        opt_view(o) == default_value(*r),
{
    match &r.default {
        Some(t) => json_text_token(t.as_str()),
        None => None,
    }
}

fn record_position(r: &Record) -> (o: Option<u16>)
    ensures
        o == position_of(*r),
{
    match &r.arg {
        Some(a) => a.position,
        None => None,
    }
}

fn separator_text(r: &Record) -> (s: String)
    ensures
        s@ == separator_of(*r),
{
    if r.separators.len() > 0 {
        r.separators[0].clone()
    } else {
        owned(",")
    }
}

fn arg_value_of(
    r: &Record,
    k: usize,
    events: &Vec<Event>,
    ps: &Vec<String>,
    offset: usize,
) -> (o: Option<String>)
    requires
        strings_view(ps@) == positionals(events_view(events@)),
        offset <= 65536,
    ensures
        opt_view(o) == arg_value(*r, k as int, events_view(events@), offset as int),
{
    let vals = named_values_of(events, k);
    if vals.len() > 0 {
        let repeatable = match &r.arg {
            Some(a) => a.repeatable,
            None => false,
        };
        if repeatable {
            let sep = separator_text(r);
            Some(join_values(&vals, sep.as_str()))
        } else {
            Some(vals[vals.len() - 1].clone())
        }
    } else {
        match record_position(r) {
            Some(q) => {
                let idx = offset + q as usize;
                if idx < ps.len() {
                    Some(ps[idx].clone())
                } else {
                    None
                }
            },
            None => None,
        }
    }
}

fn value_of_record(
    r: &Record,
    k: usize,
    events: &Vec<Event>,
    ps: &Vec<String>,
    env: &EnvVars,
    offset: usize,
) -> (o: Option<(String, Source)>)
    requires
        strings_view(ps@) == positionals(events_view(events@)),
        offset <= 65536,
    ensures
        match o {
            Some(vs) => value_of(*r, k as int, events_view(events@), *env, offset as int) == Some(
                (vs.0@, vs.1),
            ),
            None => value_of(*r, k as int, events_view(events@), *env, offset as int) is None,
        },
{
    match arg_value_of(r, k, events, ps, offset) {
        Some(v) => Some((v, Source::Arg)),
        None => match env_value_of(r, env) {
            Some(v) => Some((v, Source::Env)),
            None => match default_value_of(r) {
                Some(v) => Some((v, Source::Default)),
                None => None,
            },
        },
    }
}

pub(crate) fn record_is_gate(r: &Record) -> (b: bool)
    ensures
        b == is_gate(*r),
{
    r.gated_by.is_none() && r.subcommands.len() == 0 && str_eq(r.ty.as_str(), "enum")
        && record_position(r).is_some()
}

/// The first selector of the model.
pub fn gate_of(model: &[Record]) -> (r: Option<usize>)
    ensures
        match r {
            Some(g) => find_gate(model@, 0) == Some(g as int) && g < model@.len(),
            None => find_gate(model@, 0) is None,
        },
{
    let mut k: usize = 0;
    while k < model.len()
        invariant
            k <= model@.len(),
            find_gate(model@, 0) == find_gate(model@, k as nat),
        decreases model@.len() - k,
    {
        if record_is_gate(&model[k]) {
            return Some(k);
        }
        k = k + 1;
    }
    None
}

/// Whether record `r` takes part when the selector resolved to `gv`.
pub fn is_active_for(r: &Record, gv: &Option<String>) -> (b: bool)
    ensures
        b == active(*r, opt_view(*gv)),
{
    is_active(r, gv)
}

#[verifier::loop_isolation(false)]
fn is_active(r: &Record, gv: &Option<String>) -> (b: bool)
    ensures
        b == active(*r, opt_view(*gv)),
{
    let gate_ok = match &r.gated_by {
        Some(g) => match gv {
            Some(v) => str_eq(v.as_str(), g.value.as_str()),
            None => false,
        },
        None => true,
    };
    if !gate_ok {
        return false;
    }
    if r.subcommands.len() == 0 {
        return true;
    }
    match gv {
        None => false,
        Some(v) => {
            let mut j: usize = 0;
            while j < r.subcommands.len()
                invariant
                    j <= r.subcommands@.len(),
                    forall|i: int| 0 <= i < j ==> r.subcommands@[i]@ != v@,
                decreases r.subcommands@.len() - j,
            {
                if str_eq(r.subcommands[j].as_str(), v.as_str()) {
                    assert(strings_view(r.subcommands@)[j as int] == v@);
                    assert(strings_view(r.subcommands@).contains(v@));
                    return true;
                }
                j = j + 1;
            }
            assert(!strings_view(r.subcommands@).contains(v@));
            false
        },
    }
}

/// An invocation: the argument vector (without the program name) and the
/// environment it runs in.
pub struct Invocation<'a> {
    pub args: &'a [String],
    pub env: &'a EnvVars,
}

impl<'a> Invocation<'a> {
    /// Resolves `model` against this invocation: scans the arguments, finds
    /// the selector's value, and gives every record active on that branch its
    /// value by precedence (argument, then environment, then default).
    pub fn resolve(&self, model: &[Record]) -> (r: Resolution)
        ensures
            resolved_view(r.values@) == spec_resolve(model@, args_view(self.args@), *self.env),
            events_view(r.events@) == spec_scan(model@, args_view(self.args@)),
            opt_view(r.selected) == gate_value(
                model@,
                spec_scan(model@, args_view(self.args@)),
                *self.env,
            ),
    {
        let events = scan(model, self.args);
        let ghost ts = events_view(events@);
        let ps = positionals_of(&events);
        let (gv, off): (Option<String>, usize) = match gate_of(model) {
            Some(g) => {
                let v = match value_of_record(&model[g], g, &events, &ps, self.env, 0) {
                    Some(vs) => Some(vs.0),
                    None => None,
                };
                let o = match record_position(&model[g]) {
                    Some(q) => q as usize + 1,
                    None => 0,
                };
                (v, o)
            },
            None => (None, 0),
        };
        assert(opt_view(gv) == gate_value(model@, ts, *self.env));
        assert(off == gate_offset(model@));
        let mut out: Vec<Resolved> = Vec::new();
        let mut k: usize = 0;
        while k < model.len()
            invariant
                k <= model@.len(),
                ts == events_view(events@),
                strings_view(ps@) == positionals(ts),
                off <= 65536,
                resolved_view(out@) == entries(model@, ts, *self.env, opt_view(gv), off as int, k as nat),
            decreases model@.len() - k,
        {
            let r = &model[k];
            let ghost before = out@;
            if is_active(r, &gv) {
                let o = if r.gated_by.is_some() || r.subcommands.len() > 0 {
                    off
                } else {
                    0
                };
                match value_of_record(r, k, &events, &ps, self.env, o) {
                    Some(vs) => {
                        out.push(Resolved { key: r.key.clone(), raw: vs.0, source: vs.1 });
                    },
                    None => {},
                }
            }
            assert(resolved_view(out@) =~= resolved_view(before) + entry(
                model@,
                k as int,
                ts,
                *self.env,
                opt_view(gv),
                off as int,
            ));
            k = k + 1;
        }
        Resolution { values: out, events, selected: gv }
    }
}

impl Resolution {
    /// The value and source resolved for `key`.
    pub open spec fn spec_lookup(&self, key: Seq<char>) -> Option<(Seq<char>, Source)> {
        lookup_from(resolved_view(self.values@), key, 0)
    }

    fn find(&self, key: &str) -> (r: Option<usize>)
        ensures
            match r {
                Some(i) => i < self.values@.len() && self.spec_lookup(key@) == Some(
                    (self.values@[i as int].raw@, self.values@[i as int].source),
                ),
                None => self.spec_lookup(key@) is None,
            },
    {
        let mut i: usize = 0;
        while i < self.values.len()
            invariant
                i <= self.values@.len(),
                self.spec_lookup(key@) == lookup_from(
                    resolved_view(self.values@),
                    key@,
                    i as nat,
                ),
            decreases self.values@.len() - i,
        {
            if str_eq(self.values[i].key.as_str(), key) {
                return Some(i);
            }
            i = i + 1;
        }
        None
    }

    /// The raw, unparsed value resolved for `key`.
    pub fn raw(&self, key: &str) -> (r: Option<&str>)
        ensures
            match r {
                Some(s) => self.spec_lookup(key@) matches Some(vs) && vs.0 == s@,
                None => self.spec_lookup(key@) is None,
            },
    {
        match self.find(key) {
            Some(i) => Some(self.values[i].raw.as_str()),
            None => None,
        }
    }

    /// Where the value resolved for `key` came from.
    pub fn source(&self, key: &str) -> (r: Option<Source>)
        ensures
            match r {
                Some(s) => self.spec_lookup(key@) matches Some(vs) && vs.1 == s,
                None => self.spec_lookup(key@) is None,
            },
    {
        match self.find(key) {
            Some(i) => Some(self.values[i].source),
            None => None,
        }
    }
}

} // verus!
