//! What holds of every model and every invocation: branch scoping,
//! precedence, and the link between a clash-free model and distinct keys.
use vstd::prelude::*;
use crate::date::{date_after, date_wf, spec_next_day, ReviewDate};
use crate::from_raw::{log_level_tokens, tristate_tokens, FromRaw, LogLevel, Tristate};
use crate::ext::{any_set, binding_names, first_set_in};
use crate::input::{reviewed_problems, Input, Problem};
use crate::names::{first_outside, name_verdict, rule_allows, NameRule};
use crate::vocabulary::{Since, Stability, Type};
use crate::model::{model_clashes, pair_clashes, row_clashes, Clash};
use crate::lint::{severity_of, Finding, Severity};
use crate::problems::{spec_should_exit, spec_should_report, OnProblems};
use crate::record::{usage_text, Record};
use crate::resolve::{
    active, arg_value, default_value, entries, entry, env_names, first_set, gate_offset,
    gate_value, lookup_from, scoped, spec_resolve, value_of, EnvVars, Source,
};
use crate::scan::{
    find_long, find_short, index_of, long_of, scan_from, short_of, spec_scan, split_inline,
    takes_no_value, Token,
};

verus! {

/// No two records of the model share a key.
pub open spec fn keys_distinct(model: Seq<Record>) -> bool {
    forall|i: int, j: int| 0 <= i < j < model.len() ==> model[i].key@ != model[j].key@
}

proof fn lemma_lookup_tail(
    a: Seq<(Seq<char>, Seq<char>, Source)>,
    b: Seq<(Seq<char>, Seq<char>, Source)>,
    key: Seq<char>,
    j: nat,
)
    ensures
        lookup_from(a + b, key, a.len() + j) == lookup_from(b, key, j),
    decreases b.len() - j,
{
    if j < b.len() {
        assert((a + b)[(a.len() + j) as int] == b[j as int]);
        lemma_lookup_tail(a, b, key, j + 1);
        assert(a.len() + j + 1 == a.len() + (j + 1));
    }
}

proof fn lemma_lookup_concat_from(
    a: Seq<(Seq<char>, Seq<char>, Source)>,
    b: Seq<(Seq<char>, Seq<char>, Source)>,
    key: Seq<char>,
    i: nat,
)
    requires
        i <= a.len(),
    ensures
        lookup_from(a + b, key, i) == match lookup_from(a, key, i) {
            Some(x) => Some(x),
            None => lookup_from(b, key, 0),
        },
    decreases a.len() - i,
{
    if i < a.len() {
        assert((a + b)[i as int] == a[i as int]);
        lemma_lookup_concat_from(a, b, key, i + 1);
    } else {
        lemma_lookup_tail(a, b, key, 0);
    }
}

/// Looking a key up in `a + b` finds it in `a` first, else in `b`.
proof fn lemma_lookup_concat(
    a: Seq<(Seq<char>, Seq<char>, Source)>,
    b: Seq<(Seq<char>, Seq<char>, Source)>,
    key: Seq<char>,
)
    ensures
        lookup_from(a + b, key, 0) == match lookup_from(a, key, 0) {
            Some(x) => Some(x),
            None => lookup_from(b, key, 0),
        },
{
    lemma_lookup_concat_from(a, b, key, 0);
}

/// What the resolution holds for record `k` among the first `n` records.
proof fn lemma_entries_lookup(
    model: Seq<Record>,
    ts: Seq<crate::scan::Token>,
    env: EnvVars,
    gv: Option<Seq<char>>,
    off: int,
    n: nat,
    k: int,
)
    requires
        keys_distinct(model),
        0 <= k < model.len(),
        n <= model.len(),
    ensures
        k >= n ==> lookup_from(entries(model, ts, env, gv, off, n), model[k].key@, 0) is None,
        k < n ==> lookup_from(entries(model, ts, env, gv, off, n), model[k].key@, 0) == (
        if active(model[k], gv) {
            value_of(model[k], k, ts, env, if scoped(model[k]) {
                off
            } else {
                0
            })
        } else {
            None
        }),
    decreases n,
{
    if n > 0 {
        let prev = entries(model, ts, env, gv, off, (n - 1) as nat);
        let last = entry(model, n - 1, ts, env, gv, off);
        assert(entries(model, ts, env, gv, off, n) == prev + last);
        lemma_entries_lookup(model, ts, env, gv, off, (n - 1) as nat, k);
        lemma_lookup_concat(prev, last, model[k].key@);
        lemma_entry_lookup(model, n - 1, ts, env, gv, off, model[k].key@);
        if k != n - 1 {
            if k < n - 1 {
                assert(model[k].key@ != model[n - 1].key@);
            } else {
                assert(model[n - 1].key@ != model[k].key@);
            }
        }
    }
}

proof fn lemma_entry_lookup(
    model: Seq<Record>,
    j: int,
    ts: Seq<crate::scan::Token>,
    env: EnvVars,
    gv: Option<Seq<char>>,
    off: int,
    key: Seq<char>,
)
    requires
        0 <= j < model.len(),
    ensures
        lookup_from(entry(model, j, ts, env, gv, off), key, 0) == if key == model[j].key@ && active(
            model[j],
            gv,
        ) {
            value_of(model[j], j, ts, env, if scoped(model[j]) {
                off
            } else {
                0
            })
        } else {
            None
        },
{
    let e = entry(model, j, ts, env, gv, off);
    if e.len() > 0 {
        assert(lookup_from(e, key, 1) is None);
    }
}

/// Branch scoping: an input that the selected branch does not include —
/// gated to another value, or scoped to subcommands that were not chosen —
/// takes no value at all, from the argument vector, the environment or its
/// default, in any model whose keys are distinct.
pub proof fn law_inactive_input_is_absent(
    model: Seq<Record>,
    args: Seq<Seq<char>>,
    env: EnvVars,
    k: int,
)
    requires
        keys_distinct(model),
        0 <= k < model.len(),
        !active(model[k], gate_value(model, spec_scan(model, args), env)),
    ensures
        lookup_from(spec_resolve(model, args, env), model[k].key@, 0) is None,
{
    let ts = spec_scan(model, args);
    lemma_entries_lookup(
        model,
        ts,
        env,
        gate_value(model, ts, env),
        gate_offset(model),
        model.len(),
        k,
    );
}

/// Precedence: an input that the selected branch includes resolves to what
/// the argument vector gives it; failing that, to the first of its
/// environment names that is set; failing that, to its default; and each
/// value carries the source it came from.
pub proof fn law_precedence(model: Seq<Record>, args: Seq<Seq<char>>, env: EnvVars, k: int)
    requires
        keys_distinct(model),
        0 <= k < model.len(),
        active(model[k], gate_value(model, spec_scan(model, args), env)),
    ensures
        ({
            let ts = spec_scan(model, args);
            let off = if scoped(model[k]) {
                gate_offset(model)
            } else {
                0
            };
            let found = lookup_from(spec_resolve(model, args, env), model[k].key@, 0);
            &&& arg_value(model[k], k, ts, off) matches Some(v) ==> found == Some((v, Source::Arg))
            &&& arg_value(model[k], k, ts, off) is None ==> match first_set(
                env,
                env_names(model[k]),
                0,
            ) {
                Some(v) => found == Some((v, Source::Env)),
                None => match default_value(model[k]) {
                    Some(v) => found == Some((v, Source::Default)),
                    None => found is None,
                },
            }
        }),
{
    let ts = spec_scan(model, args);
    lemma_entries_lookup(
        model,
        ts,
        env,
        gate_value(model, ts, env),
        gate_offset(model),
        model.len(),
        k,
    );
}

/// Global inputs: an input with no branch scoping resolves the same way
/// whichever branch is selected — its value depends only on the argument
/// vector and the environment, read from the start of the positionals.
pub proof fn law_global_input_ignores_branch(
    model: Seq<Record>,
    args: Seq<Seq<char>>,
    env: EnvVars,
    k: int,
)
    requires
        keys_distinct(model),
        0 <= k < model.len(),
        !scoped(model[k]),
    ensures
        lookup_from(spec_resolve(model, args, env), model[k].key@, 0) == value_of(
            model[k],
            k,
            spec_scan(model, args),
            env,
            0,
        ),
{
    let ts = spec_scan(model, args);
    lemma_entries_lookup(
        model,
        ts,
        env,
        gate_value(model, ts, env),
        gate_offset(model),
        model.len(),
        k,
    );
}

proof fn lemma_no_eq_before(s: Seq<char>, i: nat)
    requires
        forall|j: int| i <= j < s.len() ==> s[j] != '=',
    ensures
        index_of(s, '=', i) is None,
    decreases s.len() - i,
{
    if i < s.len() {
        lemma_no_eq_before(s, i + 1);
    }
}

proof fn lemma_eq_after(l: Seq<char>, v: Seq<char>, i: nat)
    requires
        i <= l.len(),
        forall|j: int| 0 <= j < l.len() ==> l[j] != '=',
    ensures
        index_of(l + seq!['='] + v, '=', i) == Some(l.len() as int),
    decreases l.len() - i,
{
    let s = l + seq!['='] + v;
    if i < l.len() {
        assert(s[i as int] == l[i as int]);
        lemma_eq_after(l, v, i + 1);
    } else {
        assert(s[l.len() as int] == '=');
    }
}

/// The one idea: an input is one setting with two doors. A global input
/// with a long option that takes a value and an environment binding
/// resolves to the same raw value `v` whether it arrives as `--name v`, as
/// `--name=v`, or through its environment variable; only the recorded
/// source differs.
pub proof fn law_one_setting_two_doors(
    model: Seq<Record>,
    k: int,
    v: Seq<char>,
    no_env: EnvVars,
    with_env: EnvVars,
)
    requires
        keys_distinct(model),
        0 <= k < model.len(),
        !scoped(model[k]),
        !takes_no_value(model[k]),
        long_of(model[k]) matches Some(l) && l.len() > 0 && (forall|j: int|
            0 <= j < l.len() ==> l[j] != '=') && find_long(model, l, 0) == Some(k),
        model[k].env matches Some(e) && forall|m: Seq<char>|
            #[trigger] with_env.spec_get(m) == if m == e.name@ {
                Some(v)
            } else {
                None
            },
        forall|m: Seq<char>| #[trigger] no_env.spec_get(m) is None,
    ensures
        ({
            let l = long_of(model[k]).unwrap();
            let key = model[k].key@;
            &&& lookup_from(spec_resolve(model, seq![seq!['-', '-'] + l, v], no_env), key, 0)
                == Some((v, Source::Arg))
            &&& lookup_from(
                spec_resolve(model, seq![seq!['-', '-'] + l + seq!['='] + v], no_env),
                key,
                0,
            ) == Some((v, Source::Arg))
            &&& lookup_from(spec_resolve(model, seq![], with_env), key, 0) == Some(
                (v, Source::Env),
            )
        }),
{
    let l = long_of(model[k]).unwrap();
    let key = model[k].key@;
    reveal_strlit("--");
    // Space-separated form.
    let a1 = seq![seq!['-', '-'] + l, v];
    assert(a1[0].skip(2) =~= l);
    lemma_no_eq_before(l, 0);
    assert(split_inline(l) == (l, None::<Seq<char>>));
    let t1 = spec_scan(model, a1);
    assert(scan_from(model, a1, 2, false) == Seq::<Token>::empty());
    assert(t1 == seq![Token::Named(k, v)]);
    law_global_input_ignores_branch(model, a1, no_env, k);
    assert(t1.len() == 1);
    assert(t1.last() == Token::Named(k, v));
    assert(t1.drop_last() =~= Seq::<Token>::empty());
    assert(crate::resolve::named_values(t1.drop_last(), k) =~= Seq::<Seq<char>>::empty());
    assert(crate::resolve::named_values(t1, k) =~= seq![v]);
    assert(crate::resolve::join(seq![v], crate::resolve::separator_of(model[k])) == v);
    // Inline form.
    let body = l + seq!['='] + v;
    let a2 = seq![seq!['-', '-'] + l + seq!['='] + v];
    assert(a2[0].skip(2) =~= body);
    lemma_eq_after(l, v, 0);
    assert(body.take(l.len() as int) =~= l);
    assert(body.skip((l.len() + 1) as int) =~= v);
    let t2 = spec_scan(model, a2);
    assert(scan_from(model, a2, 1, false) == Seq::<Token>::empty());
    assert(t2 == seq![Token::Named(k, v)]);
    law_global_input_ignores_branch(model, a2, no_env, k);
    assert(t2.len() == 1);
    assert(t2.last() == Token::Named(k, v));
    assert(t2.drop_last() =~= Seq::<Token>::empty());
    assert(crate::resolve::named_values(t2.drop_last(), k) =~= Seq::<Seq<char>>::empty());
    assert(crate::resolve::named_values(t2, k) =~= seq![v]);
    // Environment form.
    let a3 = Seq::<Seq<char>>::empty();
    law_global_input_ignores_branch(model, a3, with_env, k);
    let t3 = spec_scan(model, a3);
    assert(t3 == Seq::<Token>::empty());
    assert(crate::resolve::named_values(t3, k) =~= Seq::<Seq<char>>::empty());
    assert(crate::resolve::positionals(t3) =~= Seq::<Seq<char>>::empty());
    let e = model[k].env.unwrap();
    assert(env_names(model[k])[0] == e.name@);
}

proof fn lemma_no_clash_in_row(model: Seq<Record>, i: int, n: nat)
    requires
        0 <= i,
        n <= model.len(),
        row_clashes(model, i, n).len() == 0,
    ensures
        forall|j: int| i < j < n ==> model[i].key@ != model[j].key@,
    decreases n,
{
    if n > 0 && n > i + 1 {
        lemma_no_clash_in_row(model, i, (n - 1) as nat);
        let pc = pair_clashes(model[i], model[n - 1]);
        assert(row_clashes(model, i, n) == row_clashes(model, i, (n - 1) as nat) + pc);
        if model[i].key@ == model[n - 1].key@ {
            assert(pc.len() > 0);
        }
    }
}

proof fn lemma_no_clash_distinct(model: Seq<Record>, m: nat)
    requires
        m <= model.len(),
        model_clashes(model, m).len() == 0,
    ensures
        forall|i: int, j: int| 0 <= i < m && i < j < model.len() ==> model[i].key@ != model[j].key@,
    decreases m,
{
    if m > 0 {
        let prev = model_clashes(model, (m - 1) as nat);
        let row = row_clashes(model, m - 1, model.len());
        assert(model_clashes(model, m) == prev + row);
        assert(prev.len() == 0);
        assert(row.len() == 0);
        lemma_no_clash_distinct(model, (m - 1) as nat);
        lemma_no_clash_in_row(model, m - 1, model.len());
    }
}

/// A model for which [`crate::check_unique`] reports nothing has distinct
/// keys, so the scoping and precedence laws apply to it.
pub proof fn law_unique_model_has_distinct_keys(model: Seq<Record>)
    requires
        model_clashes(model, model.len()).len() == 0,
    ensures
        keys_distinct(model),
{
    lemma_no_clash_distinct(model, model.len());
}

/// A declaration that carries no review date gets the same verdict from
/// [`Input::check_at`] on every day.
pub proof fn law_unreviewed_verdict_ignores_the_day<T, C>(
    input: Input<T, C>,
    d1: ReviewDate,
    d2: ReviewDate,
)
    requires
        input.reviewed is None,
    ensures
        input.spec_check(d1) == input.spec_check(d2),
{
    assert(input.spec_problems(d1) =~= input.spec_problems(d2));
}

/// Partial entries are first-class: a valid key, a type that needs no list
/// of tokens, and one plain binding (an environment name with no aliases, or
/// a bare long flag) with every other rule-bearing field as
/// [`Input::empty`] leaves it, make a declaration with no problems, on any
/// day.
pub proof fn law_partial_entry_is_valid<T, C>(input: Input<T, C>, today: ReviewDate)
    requires
        name_verdict(NameRule::Key, input.key@) is Ok,
        input.ty != Type::Enum,
        input.ty != Type::List,
        input.allowed@.len() == 0,
        input.separators@.len() == 0,
        input.stability == Stability::Unknown,
        input.since == Since::Unknown,
        input.deprecation is None,
        input.reviewed is None,
        input.gated_by is None,
        match (input.env, input.arg) {
            (Some(e), None) => name_verdict(NameRule::EnvName, e.name@) is Ok
                && e.aliases@.len() == 0,
            (None, Some(a)) => a.long matches Some(l) && name_verdict(NameRule::Long, l@) is Ok
                && a.short is None && !a.negatable && !a.repeatable && a.value_name@.len() == 0
                && a.position is None,
            _ => false,
        },
    ensures
        input.spec_problems(today) == Seq::<Problem>::empty(),
{
    assert(input.spec_problems(today) =~= Seq::<Problem>::empty());
}

/// One source for parser and contract: a text reads as a [`LogLevel`]
/// exactly when it is one of the tokens [`LogLevel::tokens`] lists, and
/// distinct tokens read as distinct levels.
pub proof fn law_log_level_reads_exactly_its_tokens(s: Seq<char>, t: Seq<char>, a: LogLevel, b: LogLevel)
    ensures
        LogLevel::spec_accepts(s) <==> log_level_tokens().contains(s),
        LogLevel::spec_accepts(s) && LogLevel::spec_accepts(t) && LogLevel::spec_parses_to(s, a)
            && LogLevel::spec_parses_to(t, b) && s != t ==> a != b,
{
    reveal_strlit("trace");
    reveal_strlit("debug");
    reveal_strlit("info");
    reveal_strlit("warn");
    reveal_strlit("error");
    let toks = log_level_tokens();
    if LogLevel::spec_accepts(s) {
        if s == "trace"@ {
            assert(toks[0] == s);
        } else if s == "debug"@ {
            assert(toks[1] == s);
        } else if s == "info"@ {
            assert(toks[2] == s);
        } else if s == "warn"@ {
            assert(toks[3] == s);
        } else {
            assert(toks[4] == s);
        }
    }
}

/// One source for parser and contract: a text reads as a [`Tristate`]
/// exactly when it is one of the tokens [`Tristate::tokens`] lists, and
/// distinct tokens read as distinct positions.
pub proof fn law_tristate_reads_exactly_its_tokens(s: Seq<char>, t: Seq<char>, a: Tristate, b: Tristate)
    ensures
        Tristate::spec_accepts(s) <==> tristate_tokens().contains(s),
        Tristate::spec_accepts(s) && Tristate::spec_accepts(t) && Tristate::spec_parses_to(s, a)
            && Tristate::spec_parses_to(t, b) && s != t ==> a != b,
{
    reveal_strlit("auto");
    reveal_strlit("on");
    reveal_strlit("off");
    let toks = tristate_tokens();
    if Tristate::spec_accepts(s) {
        if s == "auto"@ {
            assert(toks[0] == s);
        } else if s == "on"@ {
            assert(toks[1] == s);
        } else {
            assert(toks[2] == s);
        }
    }
}

/// A review date of today or of tomorrow (the clock may lag a time zone
/// behind) is never reported as lying in the future, and the next day of a
/// real day that is not the last one is strictly later.
pub proof fn law_review_today_or_tomorrow_is_accepted(today: ReviewDate)
    requires
        date_wf(today),
    ensures
        reviewed_problems(Some(today), today) == Seq::<Problem>::empty(),
        reviewed_problems(Some(spec_next_day(today)), today) == Seq::<Problem>::empty(),
        today != (ReviewDate { year: 9999, month: 12, day: 31 }) ==> date_after(
            spec_next_day(today),
            today,
        ),
{
    assert(!date_after(today, spec_next_day(today)));
}

proof fn lemma_first_set_from(env: EnvVars, names: Seq<Seq<char>>, j: nat)
    ensures
        first_set_in(env, names, j) is Some <==> exists|i: int|
            j <= i < names.len() && (#[trigger] env.spec_get(names[i])) is Some,
    decreases names.len() - j,
{
    if j < names.len() {
        lemma_first_set_from(env, names, j + 1);
        if env.spec_get(names[j as int]) is None {
            assert forall|i: int| j <= i < names.len() && (#[trigger] env.spec_get(names[i])) is Some
                implies j + 1 <= i by {}
        }
    }
}

/// An input is set in an environment exactly when a raw value can be read
/// for it there: [`crate::InputResolveExt::is_set_in`] holds exactly when
/// [`crate::InputResolveExt::raw_in`] gives `Some`.
pub proof fn law_is_set_iff_raw_present<T, C>(input: Input<T, C>, env: EnvVars)
    ensures
        any_set(env, binding_names(input.env)) <==> first_set_in(
            env,
            binding_names(input.env),
            0,
        ) is Some,
{
    lemma_first_set_from(env, binding_names(input.env), 0);
}

/// Reading is a function of the text: two values a text parses to are the
/// same value (for `String`, the same characters). So the typed readers
/// (`get_in`, `get_from`, `get_from_or_default`) give the one value that a
/// second parse of the same raw text gives.
pub proof fn law_reading_is_a_function(
    s: Seq<char>,
    b1: bool,
    b2: bool,
    n1: u64,
    n2: u64,
    w1: u32,
    w2: u32,
    h1: u16,
    h2: u16,
    y1: u8,
    y2: u8,
    l1: LogLevel,
    l2: LogLevel,
    t1: Tristate,
    t2: Tristate,
    x1: String,
    x2: String,
)
    ensures
        <bool as FromRaw>::spec_parses_to(s, b1) && <bool as FromRaw>::spec_parses_to(s, b2)
            ==> b1 == b2,
        <u64 as FromRaw>::spec_parses_to(s, n1) && <u64 as FromRaw>::spec_parses_to(s, n2)
            ==> n1 == n2,
        <u32 as FromRaw>::spec_parses_to(s, w1) && <u32 as FromRaw>::spec_parses_to(s, w2)
            ==> w1 == w2,
        <u16 as FromRaw>::spec_parses_to(s, h1) && <u16 as FromRaw>::spec_parses_to(s, h2)
            ==> h1 == h2,
        <u8 as FromRaw>::spec_parses_to(s, y1) && <u8 as FromRaw>::spec_parses_to(s, y2)
            ==> y1 == y2,
        LogLevel::spec_parses_to(s, l1) && LogLevel::spec_parses_to(s, l2) ==> l1 == l2,
        Tristate::spec_parses_to(s, t1) && Tristate::spec_parses_to(s, t2) ==> t1 == t2,
        <String as FromRaw>::spec_parses_to(s, x1) && <String as FromRaw>::spec_parses_to(s, x2)
            ==> x1@ == x2@,
{
}

/// What the argument vector gives record `k` when the scan yields exactly
/// one token, `Named(k, v)`: the value `v`.
proof fn lemma_single_named(r: Record, k: int, v: Seq<char>, off: int)
    ensures
        arg_value(r, k, seq![Token::Named(k, v)], off) == Some(v),
{
    let ts = seq![Token::Named(k, v)];
    assert(ts.drop_last() =~= Seq::<Token>::empty());
    assert(crate::resolve::named_values(ts.drop_last(), k) =~= Seq::<Seq<char>>::empty());
    assert(crate::resolve::named_values(ts, k) =~= seq![v]);
    assert(crate::resolve::join(seq![v], crate::resolve::separator_of(r)) == v);
}

/// A boolean flag is switched on by either of its forms: for a record whose
/// option takes no value, a lone `-c` naming its short form and a lone
/// `--name` naming its long form both scan as that record with the value
/// `true`, and, wherever the record takes part, both resolve to the raw
/// value `true` from the argument vector.
pub proof fn law_flag_forms_switch_on(
    model: Seq<Record>,
    k: int,
    c: char,
    l: Seq<char>,
    env: EnvVars,
)
    requires
        keys_distinct(model),
        0 <= k < model.len(),
        takes_no_value(model[k]),
    ensures
        c != '-' && find_short(model, c, 0) == Some(k) ==> {
            let args = seq![seq!['-', c]];
            &&& spec_scan(model, args) == seq![Token::Named(k, seq!['t', 'r', 'u', 'e'])]
            &&& active(model[k], gate_value(model, spec_scan(model, args), env)) ==> lookup_from(
                spec_resolve(model, args, env),
                model[k].key@,
                0,
            ) == Some((seq!['t', 'r', 'u', 'e'], Source::Arg))
        },
        l.len() > 0 && (forall|j: int| 0 <= j < l.len() ==> l[j] != '=') && find_long(model, l, 0)
            == Some(k) ==> {
            let args = seq![seq!['-', '-'] + l];
            &&& spec_scan(model, args) == seq![Token::Named(k, seq!['t', 'r', 'u', 'e'])]
            &&& active(model[k], gate_value(model, spec_scan(model, args), env)) ==> lookup_from(
                spec_resolve(model, args, env),
                model[k].key@,
                0,
            ) == Some((seq!['t', 'r', 'u', 'e'], Source::Arg))
        },
{
    reveal_strlit("--");
    reveal_strlit("true");
    let yes = seq!['t', 'r', 'u', 'e'];
    assert("true"@ =~= yes);
    if c != '-' && find_short(model, c, 0) == Some(k) {
        let args = seq![seq!['-', c]];
        assert(args[0] != "--"@);
        assert(args[0].skip(2) =~= Seq::<char>::empty());
        assert(scan_from(model, args, 1, false) == Seq::<Token>::empty());
        let ts = spec_scan(model, args);
        assert(ts =~= seq![Token::Named(k, yes)]);
        if active(model[k], gate_value(model, ts, env)) {
            law_precedence(model, args, env, k);
            lemma_single_named(model[k], k, yes, if scoped(model[k]) {
                gate_offset(model)
            } else {
                0
            });
        }
    }
    if l.len() > 0 && (forall|j: int| 0 <= j < l.len() ==> l[j] != '=') && find_long(model, l, 0)
        == Some(k) {
        let args = seq![seq!['-', '-'] + l];
        assert(args[0].skip(2) =~= l);
        lemma_no_eq_before(l, 0);
        assert(split_inline(l) == (l, None::<Seq<char>>));
        assert(scan_from(model, args, 1, false) == Seq::<Token>::empty());
        let ts = spec_scan(model, args);
        assert(ts =~= seq![Token::Named(k, yes)]);
        if active(model[k], gate_value(model, ts, env)) {
            law_precedence(model, args, env, k);
            lemma_single_named(model[k], k, yes, if scoped(model[k]) {
                gate_offset(model)
            } else {
                0
            });
        }
    }
}

proof fn lemma_first_outside_none(s: Seq<char>, i: nat, rule: NameRule)
    ensures
        first_outside(s, i, rule) is None <==> forall|j: int|
            i <= j < s.len() ==> #[trigger] rule_allows(rule, s[j]),
    decreases s.len() - i,
{
    if i < s.len() {
        lemma_first_outside_none(s, i + 1, rule);
        if rule_allows(rule, s[i as int]) && forall|j: int|
            i + 1 <= j < s.len() ==> #[trigger] rule_allows(rule, s[j]) {
            assert forall|j: int| i <= j < s.len() implies #[trigger] rule_allows(rule, s[j]) by {
                if j > i {
                }
            }
        }
    }
}

/// A character of a long flag: a lowercase ASCII letter, a digit or a dash.
pub open spec fn long_char(c: char) -> bool {
    ('a' <= c && c <= 'z') || ('0' <= c && c <= '9') || c == '-'
}

/// A character of a key: a lowercase ASCII letter, a digit or an underscore.
pub open spec fn key_char(c: char) -> bool {
    ('a' <= c && c <= 'z') || ('0' <= c && c <= '9') || c == '_'
}

/// A character of a portable environment name: an ASCII letter, a digit or
/// an underscore.
pub open spec fn env_char(c: char) -> bool {
    ('a' <= c && c <= 'z') || ('A' <= c && c <= 'Z') || ('0' <= c && c <= '9') || c == '_'
}

/// The naming rules, character by character: a long flag is accepted
/// exactly when it is non-empty, starts with a lowercase ASCII letter and has
/// only lowercase ASCII letters, digits and dashes (so `no-pager` is a valid
/// long flag and `logLevel` is not); a key exactly when it is non-empty,
/// starts with a lowercase letter and has only lowercase letters, digits and
/// underscores; an environment name exactly when it is non-empty, starts
/// with a letter or an underscore and has only letters, digits and
/// underscores.
pub proof fn law_name_rules(s: Seq<char>)
    ensures
        name_verdict(NameRule::Long, s) is Ok <==> s.len() > 0 && 'a' <= s[0] && s[0] <= 'z' && (
        forall|i: int| 0 <= i < s.len() ==> #[trigger] long_char(s[i])),
        name_verdict(NameRule::Key, s) is Ok <==> s.len() > 0 && 'a' <= s[0] && s[0] <= 'z' && (
        forall|i: int| 0 <= i < s.len() ==> #[trigger] key_char(s[i])),
        name_verdict(NameRule::EnvName, s) is Ok <==> s.len() > 0 && (('a' <= s[0] && s[0] <= 'z')
            || ('A' <= s[0] && s[0] <= 'Z') || s[0] == '_') && (forall|i: int|
            0 <= i < s.len() ==> #[trigger] env_char(s[i])),
{
    lemma_first_outside_none(s, 1, NameRule::Long);
    lemma_first_outside_none(s, 1, NameRule::Key);
    lemma_first_outside_none(s, 1, NameRule::EnvName);
    if name_verdict(NameRule::Long, s) is Ok {
        assert forall|i: int| 0 <= i < s.len() implies #[trigger] long_char(s[i]) by {
            if i > 0 {
                assert(rule_allows(NameRule::Long, s[i]));
            }
        }
    }
    if s.len() > 0 && 'a' <= s[0] && s[0] <= 'z' && (forall|i: int|
        0 <= i < s.len() ==> #[trigger] long_char(s[i])) {
        assert forall|j: int| 1 <= j < s.len() implies #[trigger] rule_allows(NameRule::Long, s[j]) by {
            assert(long_char(s[j]));
        }
    }
    if name_verdict(NameRule::Key, s) is Ok {
        assert forall|i: int| 0 <= i < s.len() implies #[trigger] key_char(s[i]) by {
            if i > 0 {
                assert(rule_allows(NameRule::Key, s[i]));
            }
        }
    }
    if s.len() > 0 && 'a' <= s[0] && s[0] <= 'z' && (forall|i: int|
        0 <= i < s.len() ==> #[trigger] key_char(s[i])) {
        assert forall|j: int| 1 <= j < s.len() implies #[trigger] rule_allows(NameRule::Key, s[j]) by {
            assert(key_char(s[j]));
        }
    }
    if name_verdict(NameRule::EnvName, s) is Ok {
        assert forall|i: int| 0 <= i < s.len() implies #[trigger] env_char(s[i]) by {
            if i > 0 {
                assert(rule_allows(NameRule::EnvName, s[i]));
            }
        }
    }
    if s.len() > 0 && (('a' <= s[0] && s[0] <= 'z') || ('A' <= s[0] && s[0] <= 'Z') || s[0] == '_')
        && (forall|i: int| 0 <= i < s.len() ==> #[trigger] env_char(s[i])) {
        assert forall|j: int| 1 <= j < s.len() implies #[trigger] rule_allows(NameRule::EnvName, s[j]) by {
            assert(env_char(s[j]));
        }
    }
}

/// The problem policies: under `FailOnError` the program stops exactly when
/// some finding, wherever it stands, is an error, so warnings alone never
/// stop it; under `FailOnAny` it stops on any finding; `WarnOnly` and
/// `Ignore` never stop it. Adding findings never turns a stop into a go,
/// and whatever stops the program is also reported.
pub proof fn law_problem_policies(a: Seq<Finding>, b: Seq<Finding>, policy: OnProblems, i: int)
    ensures
        0 <= i < a.len() && severity_of(a[i]@) == Severity::Error ==> spec_should_exit(
            a,
            OnProblems::FailOnError,
        ),
        (forall|j: int| 0 <= j < a.len() ==> severity_of(#[trigger] a[j]@) == Severity::Warning)
            ==> !spec_should_exit(a, OnProblems::FailOnError),
        spec_should_exit(a, OnProblems::FailOnAny) <==> a.len() > 0,
        !spec_should_exit(a, OnProblems::WarnOnly),
        !spec_should_exit(a, OnProblems::Ignore),
        spec_should_exit(a, policy) ==> spec_should_exit(a + b, policy) && spec_should_exit(
            b + a,
            policy,
        ),
        spec_should_exit(a, policy) ==> spec_should_report(a, policy),
{
    if spec_should_exit(a, policy) && policy == OnProblems::FailOnError {
        let w = choose|j: int| 0 <= j < a.len() && severity_of(#[trigger] a[j]@) == Severity::Error;
        assert((a + b)[w] == a[w]);
        assert((b + a)[b.len() + w] == a[w]);
    }
    if (forall|j: int| 0 <= j < a.len() ==> severity_of(#[trigger] a[j]@) == Severity::Warning)
        && spec_should_exit(a, OnProblems::FailOnError) {
        let w = choose|j: int| 0 <= j < a.len() && severity_of(#[trigger] a[j]@) == Severity::Error;
        assert(severity_of(a[w]@) == Severity::Warning);
    }
}

proof fn lemma_first_set_in_is_first(env: EnvVars, names: Seq<Seq<char>>, j: nat, v: Seq<char>)
    ensures
        first_set_in(env, names, j) == Some(v) <==> exists|m: int|
            j <= m < names.len() && env.spec_get(names[m]) == Some(v) && forall|i: int|
                j <= i < m ==> (#[trigger] env.spec_get(names[i])) is None,
    decreases names.len() - j,
{
    if j < names.len() {
        lemma_first_set_in_is_first(env, names, j + 1, v);
        if env.spec_get(names[j as int]) is Some {
            if first_set_in(env, names, j) != Some(v) && exists|m: int|
                j <= m < names.len() && env.spec_get(names[m]) == Some(v) && forall|i: int|
                    j <= i < m ==> (#[trigger] env.spec_get(names[i])) is None {
                let m = choose|m: int|
                    j <= m < names.len() && env.spec_get(names[m]) == Some(v) && forall|i: int|
                        j <= i < m ==> (#[trigger] env.spec_get(names[i])) is None;
                if m > j {
                    assert(env.spec_get(names[j as int]) is None);
                }
            }
        } else {
            if first_set_in(env, names, j) == Some(v) {
                let m = choose|m: int|
                    j + 1 <= m < names.len() && env.spec_get(names[m]) == Some(v) && forall|i: int|
                        j + 1 <= i < m ==> (#[trigger] env.spec_get(names[i])) is None;
                assert forall|i: int| j <= i < m implies (#[trigger] env.spec_get(names[i])) is None by {
                    if i > j {
                    }
                }
            } else {
                if exists|m: int|
                    j <= m < names.len() && env.spec_get(names[m]) == Some(v) && forall|i: int|
                        j <= i < m ==> (#[trigger] env.spec_get(names[i])) is None {
                    let m = choose|m: int|
                        j <= m < names.len() && env.spec_get(names[m]) == Some(v) && forall|i: int|
                            j <= i < m ==> (#[trigger] env.spec_get(names[i])) is None;
                    assert(m != j);
                    assert forall|i: int| j + 1 <= i < m implies (#[trigger] env.spec_get(names[i])) is None by {
                        assert(j <= i);
                    }
                }
            }
        }
    }
}

proof fn lemma_first_set_same(env: EnvVars, names: Seq<Seq<char>>, j: nat)
    ensures
        first_set(env, names, j) == first_set_in(env, names, j),
    decreases names.len() - j,
{
    if j < names.len() {
        lemma_first_set_same(env, names, j + 1);
    }
}

/// Aliases yield to the primary name: an input reads, from an environment,
/// the value of the first of its names (the primary name, then its aliases
/// in order) that the environment sets. In particular, when the primary name
/// is set its value is the one read, whatever the aliases hold; and the
/// resolver reads the environment door of a record the same way.
pub proof fn law_primary_env_name_wins<T, C>(input: Input<T, C>, r: Record, env: EnvVars, v: Seq<char>)
    ensures
        first_set_in(env, binding_names(input.env), 0) == Some(v) <==> exists|m: int|
            0 <= m < binding_names(input.env).len() && env.spec_get(binding_names(input.env)[m])
                == Some(v) && forall|i: int|
                0 <= i < m ==> (#[trigger] env.spec_get(binding_names(input.env)[i])) is None,
        input.env matches Some(e) && env.spec_get(e.name@) == Some(v) ==> first_set_in(
            env,
            binding_names(input.env),
            0,
        ) == Some(v),
        r.env matches Some(e) && env.spec_get(e.name@) == Some(v) ==> first_set(
            env,
            env_names(r),
            0,
        ) == Some(v),
        first_set(env, env_names(r), 0) == Some(v) <==> exists|m: int|
            0 <= m < env_names(r).len() && env.spec_get(env_names(r)[m]) == Some(v) && forall|i: int|
                0 <= i < m ==> (#[trigger] env.spec_get(env_names(r)[i])) is None,
{
    lemma_first_set_in_is_first(env, binding_names(input.env), 0, v);
    lemma_first_set_in_is_first(env, env_names(r), 0, v);
    lemma_first_set_same(env, env_names(r), 0);
    if input.env is Some {
        assert(binding_names(input.env)[0] == input.env.unwrap().name@);
    }
    if r.env is Some {
        assert(env_names(r)[0] == r.env.unwrap().name@);
    }
}

/// How a named option reads in usage text: a short form alone is one dash
/// and its letter, a long form alone two dashes and its name, both are
/// `-s, --long`; an option that takes a value adds ` <PLACEHOLDER>` after
/// them, a flag that takes none adds nothing.
pub proof fn law_usage_of_named_options(rec: Record)
    requires
        rec.arg matches Some(a) && a.position is None,
    ensures
        ({
            let a = rec.arg.unwrap();
            let forms = match (a.short, a.long) {
                (Some(s), None) => seq!['-'] + s@,
                (None, Some(l)) => seq!['-', '-'] + l@,
                (Some(s), Some(l)) => seq!['-'] + s@ + seq![',', ' ', '-', '-'] + l@,
                (None, None) => Seq::<char>::empty(),
            };
            &&& a.arity == 0 ==> usage_text(rec) == forms
            &&& a.arity != 0 ==> usage_text(rec) == forms + seq![' ', '<']
                + crate::record::placeholder(rec) + seq!['>']
        }),
{
    reveal_strlit("-");
    reveal_strlit("--");
    reveal_strlit(", --");
    reveal_strlit(" <");
    reveal_strlit(">");
    let a = rec.arg.unwrap();
    assert("-"@ =~= seq!['-']);
    assert("--"@ =~= seq!['-', '-']);
    assert(", --"@ =~= seq![',', ' ', '-', '-']);
    assert(" <"@ =~= seq![' ', '<']);
    assert(">"@ =~= seq!['>']);
}

/// The short door of an option that takes a value: wherever the input takes
/// part, `-c v` and `-cv` (for a non-empty `v`) both resolve to the raw
/// value `v` from the argument vector, as `--name v` does.
pub proof fn law_short_option_forms(
    model: Seq<Record>,
    k: int,
    c: char,
    v: Seq<char>,
    env: EnvVars,
)
    requires
        keys_distinct(model),
        0 <= k < model.len(),
        !takes_no_value(model[k]),
        c != '-',
        find_short(model, c, 0) == Some(k),
    ensures
        ({
            let args = seq![seq!['-', c], v];
            &&& spec_scan(model, args) == seq![Token::Named(k, v)]
            &&& active(model[k], gate_value(model, spec_scan(model, args), env)) ==> lookup_from(
                spec_resolve(model, args, env),
                model[k].key@,
                0,
            ) == Some((v, Source::Arg))
        }),
        v.len() > 0 ==> {
            let args = seq![seq!['-', c] + v];
            &&& spec_scan(model, args) == seq![Token::Named(k, v)]
            &&& active(model[k], gate_value(model, spec_scan(model, args), env)) ==> lookup_from(
                spec_resolve(model, args, env),
                model[k].key@,
                0,
            ) == Some((v, Source::Arg))
        },
{
    reveal_strlit("--");
    let a1 = seq![seq!['-', c], v];
    assert(a1[0] != "--"@);
    assert(a1[0].skip(2) =~= Seq::<char>::empty());
    assert(scan_from(model, a1, 2, false) == Seq::<Token>::empty());
    let t1 = spec_scan(model, a1);
    assert(t1 =~= seq![Token::Named(k, v)]);
    if active(model[k], gate_value(model, t1, env)) {
        law_precedence(model, a1, env, k);
        lemma_single_named(model[k], k, v, if scoped(model[k]) {
            gate_offset(model)
        } else {
            0
        });
    }
    if v.len() > 0 {
        let a2 = seq![seq!['-', c] + v];
        assert(a2[0][0] == '-');
        assert(a2[0][1] == c);
        assert(a2[0].skip(2) =~= v);
        if a2[0] == "--"@ {
            assert(a2[0][1] == '-');
        }
        if a2[0].len() > 2 && a2[0][1] == '-' {
            assert(false);
        }
        assert(scan_from(model, a2, 1, false) == Seq::<Token>::empty());
        let t2 = spec_scan(model, a2);
        assert(t2 =~= seq![Token::Named(k, v)]);
        if active(model[k], gate_value(model, t2, env)) {
            law_precedence(model, a2, env, k);
            lemma_single_named(model[k], k, v, if scoped(model[k]) {
                gate_offset(model)
            } else {
                0
            });
        }
    }
}

} // verus!
