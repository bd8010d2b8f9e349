//! Rules that hold across a whole model rather than within one declaration:
//! nothing is claimed twice ([`check_unique`]) and branches hang off one selector
//! ([`check_gates`]).
use vstd::prelude::*;
use crate::record::{opt_view, strings_view, Record};
use crate::resolve::{env_names, find_gate, gate_of, is_gate, position_of, scoped};
use crate::scan::{long_of, short_of};
use crate::text::{chars_eq, chars_of, owned, push_decimal, str_eq, decimal};

verus! {

/// Two records share a branch: both global, both gated to the same value,
/// or scoped to a common subcommand.
pub open spec fn same_branch(a: Record, b: Record) -> bool {
    ||| !scoped(a) && !scoped(b)
    ||| (a.gated_by matches Some(x) && b.gated_by matches Some(y) && x.value@ == y.value@)
    ||| exists|i: int, j: int|
        0 <= i < a.subcommands@.len() && 0 <= j < b.subcommands@.len() && a.subcommands@[i]@
            == b.subcommands@[j]@
}

/// The first of `xs[i..]` that also occurs in `ys`.
pub open spec fn first_common(xs: Seq<Seq<char>>, ys: Seq<Seq<char>>, i: nat) -> Option<
    Seq<char>,
>
    decreases xs.len() - i,
{
    if i >= xs.len() {
        None
    } else if ys.contains(xs[i as int]) {
        Some(xs[i as int])
    } else {
        first_common(xs, ys, i + 1)
    }
}

/// One clash between two records of a model.
pub enum Clash {
    /// Both records have this key.
    Key(Seq<char>),
    /// Both answer to this environment name.
    EnvName(Seq<char>, Seq<char>, Seq<char>),
    /// Both use this long flag.
    Long(Seq<char>, Seq<char>, Seq<char>),
    /// Both use this short flag.
    Short(Seq<char>, Seq<char>, Seq<char>),
    /// Both take this positional slot in a common branch.
    Position(Seq<char>, Seq<char>, u16),
}

/// The clashes between records `a` and `b`, in the order the rules are
/// listed.
pub open spec fn pair_clashes(a: Record, b: Record) -> Seq<Clash> {
    (if a.key@ == b.key@ {
        seq![Clash::Key(a.key@)]
    } else {
        seq![]
    }) + (match first_common(env_names(a), env_names(b), 0) {
        Some(n) => seq![Clash::EnvName(a.key@, b.key@, n)],
        None => seq![],
    }) + (match (long_of(a), long_of(b)) {
        (Some(x), Some(y)) => if x == y {
            seq![Clash::Long(a.key@, b.key@, x)]
        } else {
            seq![]
        },
        _ => seq![],
    }) + (match (short_of(a), short_of(b)) {
        (Some(x), Some(y)) => if x == y {
            seq![Clash::Short(a.key@, b.key@, x)]
        } else {
            seq![]
        },
        _ => seq![],
    }) + (match (position_of(a), position_of(b)) {
        (Some(p), Some(q)) => if p == q && same_branch(a, b) {
            seq![Clash::Position(a.key@, b.key@, p)]
        } else {
            seq![]
        },
        _ => seq![],
    })
}

/// The clashes of record `i` with records `j..n` after it... up to `n`.
pub open spec fn row_clashes(model: Seq<Record>, i: int, n: nat) -> Seq<Clash>
    decreases n,
{
    if n == 0 || n <= i + 1 {
        seq![]
    } else {
        row_clashes(model, i, (n - 1) as nat) + pair_clashes(model[i], model[n - 1])
    }
}

/// Every clash between two records among the first `m`, pair by pair in
/// order.
pub open spec fn model_clashes(model: Seq<Record>, m: nat) -> Seq<Clash>
    decreases m,
{
    if m == 0 {
        seq![]
    } else {
        model_clashes(model, (m - 1) as nat) + row_clashes(model, (m - 1) as int, model.len())
    }
}

/// The text reported for a clash.
pub open spec fn clash_text(c: Clash) -> Seq<char> {
    match c {
        Clash::Key(k) => "key `"@ + k + "` is declared more than once"@,
        Clash::EnvName(a, b, n) => "`"@ + a + "` and `"@ + b + "` both answer to env name `"@ + n
            + "`"@,
        Clash::Long(a, b, l) => "`"@ + a + "` and `"@ + b + "` both use `--"@ + l + "`"@,
        Clash::Short(a, b, s) => "`"@ + a + "` and `"@ + b + "` both use `-"@ + s + "`"@,
        Clash::Position(a, b, p) => "`"@ + a + "` and `"@ + b + "` both take positional slot "@
            + decimal(p as nat) + " in the same branch"@,
    }
}

fn contains_text(ys: &Vec<String>, x: &str) -> (r: bool)
    ensures
        r == strings_view(ys@).contains(x@),
{
    let mut j: usize = 0;
    while j < ys.len()
        invariant
            j <= ys@.len(),
            forall|i: int| 0 <= i < j ==> ys@[i]@ != x@,
        decreases ys@.len() - j,
    {
        if str_eq(ys[j].as_str(), x) {
            assert(strings_view(ys@)[j as int] == x@);
            return true;
        }
        j = j + 1;
    }
    assert(!strings_view(ys@).contains(x@)) by {
        assert forall|i: int| 0 <= i < ys@.len() implies strings_view(ys@)[i] != x@ by {}
    }
    false
}

fn names_of(r: &Record) -> (v: Vec<String>)
    ensures
        strings_view(v@) == env_names(*r),
{
    let mut out: Vec<String> = Vec::new();
    match &r.env {
        None => {},
        Some(e) => {
            out.push(e.name.clone());
            let mut i: usize = 0;
            while i < e.aliases.len()
                invariant
                    i <= e.aliases@.len(),
                    strings_view(out@) == seq![e.name@] + strings_view(e.aliases@.take(i as int)),
                decreases e.aliases@.len() - i,
            {
                let ghost before = out@;
                out.push(e.aliases[i].clone());
                assert(strings_view(out@) =~= strings_view(before).push(e.aliases@[i as int]@));
                assert(strings_view(e.aliases@.take(i + 1)) =~= strings_view(
                    e.aliases@.take(i as int),
                ).push(e.aliases@[i as int]@));
                i = i + 1;
            }
            assert(e.aliases@.take(e.aliases@.len() as int) =~= e.aliases@);
        },
    }
    assert(strings_view(out@) =~= env_names(*r));
    out
}

fn common_name(xs: &Vec<String>, ys: &Vec<String>) -> (r: Option<String>)
    ensures
        opt_view(r) == first_common(strings_view(xs@), strings_view(ys@), 0),
{
    let mut i: usize = 0;
    while i < xs.len()
        invariant
            i <= xs@.len(),
            first_common(strings_view(xs@), strings_view(ys@), 0) == first_common(
                strings_view(xs@),
                strings_view(ys@),
                i as nat,
            ),
        decreases xs@.len() - i,
    {
        if contains_text(ys, xs[i].as_str()) {
            return Some(xs[i].clone());
        }
        i = i + 1;
    }
    None
}

fn share_subcommand(a: &Record, b: &Record) -> (r: bool)
    ensures
        r == exists|i: int, j: int|
            0 <= i < a.subcommands@.len() && 0 <= j < b.subcommands@.len() && a.subcommands@[i]@
                == b.subcommands@[j]@,
{
    let mut i: usize = 0;
    while i < a.subcommands.len()
        invariant
            i <= a.subcommands@.len(),
            forall|x: int, y: int|
                0 <= x < i && 0 <= y < b.subcommands@.len() ==> a.subcommands@[x]@
                    != b.subcommands@[y]@,
        decreases a.subcommands@.len() - i,
    {
        if contains_text(&b.subcommands, a.subcommands[i].as_str()) {
            let ghost y = choose|y: int|
                0 <= y < b.subcommands@.len() && strings_view(b.subcommands@)[y]
                    == a.subcommands@[i as int]@;
            assert(a.subcommands@[i as int]@ == b.subcommands@[y]@);
            return true;
        }
        proof {
            assert forall|y: int| 0 <= y < b.subcommands@.len() implies a.subcommands@[i as int]@
                != b.subcommands@[y]@ by {
                if a.subcommands@[i as int]@ == b.subcommands@[y]@ {
                    assert(strings_view(b.subcommands@)[y] == a.subcommands@[i as int]@);
                }
            }
        }
        i = i + 1;
    }
    false
}

fn branches_meet(a: &Record, b: &Record) -> (r: bool)
    ensures
        r == same_branch(*a, *b),
{
    let sa = a.gated_by.is_some() || a.subcommands.len() > 0;
    let sb = b.gated_by.is_some() || b.subcommands.len() > 0;
    if !sa && !sb {
        return true;
    }
    let gated_same = match (&a.gated_by, &b.gated_by) {
        (Some(x), Some(y)) => str_eq(x.value.as_str(), y.value.as_str()),
        _ => false,
    };
    gated_same || share_subcommand(a, b)
}

fn opt_text_eq(x: &Option<String>, y: &Option<String>) -> (r: Option<String>)
    ensures
        match r {
            Some(s) => opt_view(*x) matches Some(a) && opt_view(*y) == Some(a) && s@ == a,
            None => !(opt_view(*x) matches Some(a) && opt_view(*y) == Some(a)),
        },
{
    match (x, y) {
        (Some(a), Some(b)) => if str_eq(a.as_str(), b.as_str()) {
            Some(a.clone())
        } else {
            None
        },
        _ => None,
    }
}

fn long_text(r: &Record) -> (o: Option<String>)
    ensures
        opt_view(o) == long_of(*r),
{
    match &r.arg {
        Some(a) => a.long.clone(),
        None => None,
    }
}

fn short_text(r: &Record) -> (o: Option<String>)
    ensures
        opt_view(o) == short_of(*r),
{
    match &r.arg {
        Some(a) => a.short.clone(),
        None => None,
    }
}

fn record_pos(r: &Record) -> (o: Option<u16>)
    ensures
        o == position_of(*r),
{
    match &r.arg {
        Some(a) => a.position,
        None => None,
    }
}

fn quoted_pair(a: &String, b: &String) -> (s: String)
    ensures
        s@ == "`"@ + a@ + "` and `"@ + b@,
{
    let mut s = owned("`");
    s.append(a.as_str());
    s.append("` and `");
    s.append(b.as_str());
    s
}

fn push_pair_clashes(out: &mut Vec<String>, a: &Record, b: &Record)
    ensures
        strings_view(final(out)@) == strings_view(old(out)@) + pair_clashes(*a, *b).map_values(
            |c: Clash| clash_text(c),
        ),
{
    let ghost start = out@;
    let mut added: Vec<String> = Vec::new();
    let ghost want = pair_clashes(*a, *b).map_values(|c: Clash| clash_text(c));
    if str_eq(a.key.as_str(), b.key.as_str()) {
        let mut s = owned("key `");
        s.append(a.key.as_str());
        s.append("` is declared more than once");
        added.push(s);
    }
    let na = names_of(a);
    let nb = names_of(b);
    match common_name(&na, &nb) {
        Some(n) => {
            let mut s = quoted_pair(&a.key, &b.key);
            s.append("` both answer to env name `");
            s.append(n.as_str());
            s.append("`");
            added.push(s);
        },
        None => {},
    }
    match opt_text_eq(&long_text(a), &long_text(b)) {
        Some(l) => {
            let mut s = quoted_pair(&a.key, &b.key);
            s.append("` both use `--");
            s.append(l.as_str());
            s.append("`");
            added.push(s);
        },
        None => {},
    }
    match opt_text_eq(&short_text(a), &short_text(b)) {
        Some(l) => {
            let mut s = quoted_pair(&a.key, &b.key);
            s.append("` both use `-");
            s.append(l.as_str());
            s.append("`");
            added.push(s);
        },
        None => {},
    }
    match (record_pos(a), record_pos(b)) {
        (Some(p), Some(q)) => {
            if p == q && branches_meet(a, b) {
                let mut s = quoted_pair(&a.key, &b.key);
                s.append("` both take positional slot ");
                push_decimal(&mut s, p as u64);
                s.append(" in the same branch");
                added.push(s);
            }
        },
        _ => {},
    }
    assert(strings_view(added@) =~= want);
    let mut i: usize = 0;
    while i < added.len()
        invariant
            i <= added@.len(),
            strings_view(out@) == strings_view(start) + strings_view(added@).take(i as int),
        decreases added@.len() - i,
    {
        let ghost before = out@;
        out.push(added[i].clone());
        assert(strings_view(out@) =~= strings_view(before).push(added@[i as int]@));
        assert(strings_view(added@).take(i + 1) =~= strings_view(added@).take(i as int).push(
            added@[i as int]@,
        ));
        i = i + 1;
    }
    assert(strings_view(added@).take(added@.len() as int) =~= strings_view(added@));
}

/// Every clash between two records of `model`: a key declared twice, an
/// environment name, long flag or short flag that two records share, and a
/// positional slot that two records of a common branch both take. One
/// message per clash, pair by pair in model order; empty means none.
pub fn check_unique(model: &[Record]) -> (r: Vec<String>)
    ensures
        strings_view(r@) == model_clashes(model@, model@.len()).map_values(
            |c: Clash| clash_text(c),
        ),
{
    let mut out: Vec<String> = Vec::new();
    let n = model.len();
    let mut i: usize = 0;
    while i < n
        invariant
            n == model@.len(),
            i <= n,
            strings_view(out@) == model_clashes(model@, i as nat).map_values(
                |c: Clash| clash_text(c),
            ),
        decreases n - i,
    {
        let mut j: usize = i + 1;
        let ghost row_start = out@;
        while j < n
            invariant
                n == model@.len(),
                i < n,
                i + 1 <= j <= n,
                strings_view(out@) == strings_view(row_start) + row_clashes(
                    model@,
                    i as int,
                    j as nat,
                ).map_values(|c: Clash| clash_text(c)),
            decreases n - j,
        {
            let ghost before = out@;
            push_pair_clashes(&mut out, &model[i], &model[j]);
            assert(row_clashes(model@, i as int, (j + 1) as nat).map_values(
                |c: Clash| clash_text(c),
            ) =~= row_clashes(model@, i as int, j as nat).map_values(|c: Clash| clash_text(c))
                + pair_clashes(model@[i as int], model@[j as int]).map_values(
                |c: Clash| clash_text(c),
            ));
            j = j + 1;
        }
        assert(model_clashes(model@, (i + 1) as nat).map_values(|c: Clash| clash_text(c))
            =~= model_clashes(model@, i as nat).map_values(|c: Clash| clash_text(c))
            + row_clashes(model@, i as int, n as nat).map_values(|c: Clash| clash_text(c)));
        i = i + 1;
    }
    out
}

/// One way a model's branches fail to hang off its selector.
pub enum GateFault {
    /// A second selector, after the first.
    SecondGate(Seq<char>, Seq<char>),
    /// A gated record in a model without a selector.
    NoGate(Seq<char>, Seq<char>),
    /// A gated record whose value the selector never takes.
    GatedNotAllowed(Seq<char>, Seq<char>, Seq<char>),
    /// A subcommand-scoped record in a model without a selector.
    SubcommandsWithoutGate(Seq<char>),
    /// A subcommand token the selector never takes.
    SubcommandNotAllowed(Seq<char>, Seq<char>, Seq<char>),
}

/// The tokens of `subs[..n]` that `allowed` lacks, for record `key` under the
/// selector `selector`.
pub open spec fn subcommand_faults(
    subs: Seq<Seq<char>>,
    allowed: Seq<Seq<char>>,
    key: Seq<char>,
    selector: Seq<char>,
    n: nat,
) -> Seq<GateFault>
    decreases n,
{
    if n == 0 || n > subs.len() {
        seq![]
    } else {
        subcommand_faults(subs, allowed, key, selector, (n - 1) as nat) + if allowed.contains(
            subs[n - 1],
        ) {
            seq![]
        } else {
            seq![GateFault::SubcommandNotAllowed(key, subs[n - 1], selector)]
        }
    }
}

/// The selector faults of record `k`.
pub open spec fn record_gate_faults(model: Seq<Record>, k: int) -> Seq<GateFault> {
    let r = model[k];
    let g = find_gate(model, 0);
    (if is_gate(r) && g != Some(k) {
        match g {
            Some(g0) => seq![GateFault::SecondGate(model[g0].key@, r.key@)],
            None => seq![],
        }
    } else {
        seq![]
    }) + (match r.gated_by {
        Some(b) => match g {
            None => seq![GateFault::NoGate(r.key@, b.value@)],
            Some(g0) => if strings_view(model[g0].allowed@).contains(b.value@) {
                seq![]
            } else {
                seq![GateFault::GatedNotAllowed(r.key@, b.value@, model[g0].key@)]
            },
        },
        None => seq![],
    }) + (if r.subcommands@.len() == 0 {
        seq![]
    } else {
        match g {
            None => seq![GateFault::SubcommandsWithoutGate(r.key@)],
            Some(g0) => subcommand_faults(
                strings_view(r.subcommands@),
                strings_view(model[g0].allowed@),
                r.key@,
                model[g0].key@,
                r.subcommands@.len(),
            ),
        }
    })
}

/// The selector faults of the first `n` records.
pub open spec fn gate_faults(model: Seq<Record>, n: nat) -> Seq<GateFault>
    decreases n,
{
    if n == 0 {
        seq![]
    } else {
        gate_faults(model, (n - 1) as nat) + record_gate_faults(model, n - 1)
    }
}

/// The text reported for a selector fault.
pub open spec fn gate_fault_text(f: GateFault) -> Seq<char> {
    match f {
        GateFault::SecondGate(a, b) => "more than one selector: `"@ + a + "` and `"@ + b
            + "` are both ungated enum positionals; a model has at most one"@,
        GateFault::NoGate(k, v) => "`"@ + k + "` is gated_by `"@ + v
            + "` but the model declares no selector (an ungated enum positional)"@,
        GateFault::GatedNotAllowed(k, v, g) => "`"@ + k + "` is gated_by `"@ + v
            + "`, which is not among the allowed tokens of the selector `"@ + g + "`"@,
        GateFault::SubcommandsWithoutGate(k) => "`"@ + k
            + "` is scoped to subcommands but the model declares no selector (an ungated enum positional)"@,
        GateFault::SubcommandNotAllowed(k, t, g) => "`"@ + k + "` is scoped to subcommand `"@ + t
            + "`, which is not among the allowed tokens of the selector `"@ + g + "`"@,
    }
}

fn push_text(out: &mut Vec<String>, s: String)
    ensures
        strings_view(final(out)@) == strings_view(old(out)@).push(s@),
{
    out.push(s);
    assert(strings_view(out@) =~= strings_view(old(out)@).push(s@));
}

fn push_subcommand_faults(out: &mut Vec<String>, r: &Record, selector: &Record)
    ensures
        strings_view(final(out)@) == strings_view(old(out)@) + subcommand_faults(
            strings_view(r.subcommands@),
            strings_view(selector.allowed@),
            r.key@,
            selector.key@,
            r.subcommands@.len(),
        ).map_values(|f: GateFault| gate_fault_text(f)),
{
    let ghost start = out@;
    let mut i: usize = 0;
    while i < r.subcommands.len()
        invariant
            i <= r.subcommands@.len(),
            strings_view(out@) == strings_view(start) + subcommand_faults(
                strings_view(r.subcommands@),
                strings_view(selector.allowed@),
                r.key@,
                selector.key@,
                i as nat,
            ).map_values(|f: GateFault| gate_fault_text(f)),
        decreases r.subcommands@.len() - i,
    {
        let ghost before = out@;
        if !contains_text(&selector.allowed, r.subcommands[i].as_str()) {
            let mut s = owned("`");
            s.append(r.key.as_str());
            s.append("` is scoped to subcommand `");
            s.append(r.subcommands[i].as_str());
            s.append("`, which is not among the allowed tokens of the selector `");
            s.append(selector.key.as_str());
            s.append("`");
            push_text(out, s);
        }
        assert(strings_view(out@) =~= strings_view(start) + subcommand_faults(
            strings_view(r.subcommands@),
            strings_view(selector.allowed@),
            r.key@,
            selector.key@,
            (i + 1) as nat,
        ).map_values(|f: GateFault| gate_fault_text(f)));
        i = i + 1;
    }
}

fn push_record_gate_faults(out: &mut Vec<String>, model: &[Record], g: Option<usize>, k: usize)
    requires
        k < model@.len(),
        match g {
            Some(g0) => find_gate(model@, 0) == Some(g0 as int) && g0 < model@.len(),
            None => find_gate(model@, 0) is None,
        },
    ensures
        strings_view(final(out)@) == strings_view(old(out)@) + record_gate_faults(
            model@,
            k as int,
        ).map_values(|f: GateFault| gate_fault_text(f)),
{
    let r = &model[k];
    let ghost s0 = out@;
    match g {
        Some(g0) => {
            if g0 != k && crate::resolve::record_is_gate(r) {
                let mut s = owned("more than one selector: `");
                s.append(model[g0].key.as_str());
                s.append("` and `");
                s.append(r.key.as_str());
                s.append("` are both ungated enum positionals; a model has at most one");
                push_text(out, s);
            }
        },
        None => {},
    }
    let ghost s1 = out@;
    match &r.gated_by {
        Some(b) => match g {
            None => {
                let mut s = owned("`");
                s.append(r.key.as_str());
                s.append("` is gated_by `");
                s.append(b.value.as_str());
                s.append("` but the model declares no selector (an ungated enum positional)");
                push_text(out, s);
            },
            Some(g0) => {
                if !contains_text(&model[g0].allowed, b.value.as_str()) {
                    let mut s = owned("`");
                    s.append(r.key.as_str());
                    s.append("` is gated_by `");
                    s.append(b.value.as_str());
                    s.append("`, which is not among the allowed tokens of the selector `");
                    s.append(model[g0].key.as_str());
                    s.append("`");
                    push_text(out, s);
                }
            },
        },
        None => {},
    }
    let ghost s2 = out@;
    if r.subcommands.len() > 0 {
        match g {
            None => {
                let mut s = owned("`");
                s.append(r.key.as_str());
                s.append(
                    "` is scoped to subcommands but the model declares no selector (an ungated enum positional)",
                );
                push_text(out, s);
            },
            Some(g0) => {
                push_subcommand_faults(out, r, &model[g0]);
            },
        }
    }
    assert(strings_view(out@) =~= strings_view(s0) + record_gate_faults(model@, k as int).map_values(
        |f: GateFault| gate_fault_text(f),
    ));
}

/// Every way the model's branches fail to hang off a single selector: a second
/// selector, a gated or subcommand-scoped record without a selector, and a branch
/// value the selector's `allowed` tokens never include. One message per fault,
/// record by record; empty means the branches are sound.
pub fn check_gates(model: &[Record]) -> (r: Vec<String>)
    ensures
        strings_view(r@) == gate_faults(model@, model@.len()).map_values(
            |f: GateFault| gate_fault_text(f),
        ),
{
    let g = gate_of(model);
    let mut out: Vec<String> = Vec::new();
    let mut k: usize = 0;
    while k < model.len()
        invariant
            k <= model@.len(),
            match g {
                Some(g0) => find_gate(model@, 0) == Some(g0 as int) && g0 < model@.len(),
                None => find_gate(model@, 0) is None,
            },
            strings_view(out@) == gate_faults(model@, k as nat).map_values(
                |f: GateFault| gate_fault_text(f),
            ),
        decreases model@.len() - k,
    {
        push_record_gate_faults(&mut out, model, g, k);
        assert(gate_faults(model@, (k + 1) as nat).map_values(|f: GateFault| gate_fault_text(f))
            =~= gate_faults(model@, k as nat).map_values(|f: GateFault| gate_fault_text(f))
            + record_gate_faults(model@, k as int).map_values(|f: GateFault| gate_fault_text(f)));
        k = k + 1;
    }
    out
}

} // verus!
