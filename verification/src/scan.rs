//! Reading an argument vector against a model: which tokens are named
//! options and their values, which are positionals, which are unknown.
//!
//! Forms accepted: `--name value`, `--name=value`, `-n value`, `-nvalue`,
//! `--flag` and `-f` for booleans (which take no value), `--no-flag` for a
//! negatable boolean, and `--`, after which every token is a positional.
use vstd::prelude::*;
use crate::record::{opt_view, Record};
use crate::text::{chars_eq, chars_of, has_prefix, owned, string_of};

verus! {

/// What one step of the scan found.
#[derive(Clone, Debug)]
pub enum Event {
    /// The option of model record `.0` with value `.1`.
    Named(usize, String),
    /// The option of model record `.0`, which takes a value, ended the
    /// argument vector without one.
    Missing(usize),
    /// A positional token.
    Positional(String),
    /// A token that looks like an option but names none in the model.
    Unknown(String),
    /// The `--` that ends option parsing.
    EndOfOptions,
}

/// The abstract form of an [`Event`].
pub enum Token {
    Named(int, Seq<char>),
    Missing(int),
    Positional(Seq<char>),
    Unknown(Seq<char>),
    EndOfOptions,
}

impl View for Event {
    type V = Token;

    open spec fn view(&self) -> Token {
        match self {
            Event::Named(k, v) => Token::Named(*k as int, v@),
            Event::Missing(k) => Token::Missing(*k as int),
            Event::Positional(v) => Token::Positional(v@),
            Event::Unknown(v) => Token::Unknown(v@),
            Event::EndOfOptions => Token::EndOfOptions,
        }
    }
}

/// The views of a list of events.
pub open spec fn events_view(v: Seq<Event>) -> Seq<Token> {
    v.map_values(|e: Event| e@)
}

/// The views of an argument vector.
pub open spec fn args_view(v: Seq<String>) -> Seq<Seq<char>> {
    v.map_values(|s: String| s@)
}

/// The long form of a record's binding.
pub open spec fn long_of(r: Record) -> Option<Seq<char>> {
    match r.arg {
        Some(a) => opt_view(a.long),
        None => None,
    }
}

/// The short form of a record's binding.
pub open spec fn short_of(r: Record) -> Option<Seq<char>> {
    match r.arg {
        Some(a) => opt_view(a.short),
        None => None,
    }
}

/// Whether a record's option takes no value.
pub open spec fn takes_no_value(r: Record) -> bool {
    r.arg matches Some(a) && a.arity == 0
}

pub open spec fn negatable_of(r: Record) -> bool {
    r.arg matches Some(a) && a.negatable
}

/// The first record at or after `k` whose long form is `name`.
pub open spec fn find_long(model: Seq<Record>, name: Seq<char>, k: nat) -> Option<int>
    decreases model.len() - k,
{
    if k >= model.len() {
        None
    } else if long_of(model[k as int]) == Some(name) {
        Some(k as int)
    } else {
        find_long(model, name, k + 1)
    }
}

/// The first record at or after `k` whose short form is `c`.
pub open spec fn find_short(model: Seq<Record>, c: char, k: nat) -> Option<int>
    decreases model.len() - k,
{
    if k >= model.len() {
        None
    } else if short_of(model[k as int]) == Some(seq![c]) {
        Some(k as int)
    } else {
        find_short(model, c, k + 1)
    }
}

/// The first negatable record at or after `k` whose long form is `name`.
pub open spec fn find_negatable(model: Seq<Record>, name: Seq<char>, k: nat) -> Option<int>
    decreases model.len() - k,
{
    if k >= model.len() {
        None
    } else if long_of(model[k as int]) == Some(name) && negatable_of(model[k as int]) {
        Some(k as int)
    } else {
        find_negatable(model, name, k + 1)
    }
}

/// The index of the first `c` in `s` at or after `i`.
pub open spec fn index_of(s: Seq<char>, c: char, i: nat) -> Option<int>
    decreases s.len() - i,
{
    if i >= s.len() {
        None
    } else if s[i as int] == c {
        Some(i as int)
    } else {
        index_of(s, c, i + 1)
    }
}

/// `name=value` split at its first `=`; no `=` means no inline value.
pub open spec fn split_inline(body: Seq<char>) -> (Seq<char>, Option<Seq<char>>) {
    match index_of(body, '=', 0) {
        Some(j) => (body.take(j), Some(body.skip(j + 1))),
        None => (body, None),
    }
}

/// The token for a `--body` at index `i`, and how many tokens it uses.
pub open spec fn long_step(model: Seq<Record>, args: Seq<Seq<char>>, i: int, body: Seq<char>) -> (
    Token,
    int,
) {
    let (name, inline) = split_inline(body);
    match find_long(model, name, 0) {
        Some(k) => if takes_no_value(model[k]) {
            (
                Token::Named(
                    k,
                    match inline {
                        Some(v) => v,
                        None => "true"@,
                    },
                ),
                1,
            )
        } else {
            match inline {
                Some(v) => (Token::Named(k, v), 1),
                None => if i < args.len() - 1 {
                    (Token::Named(k, args[i + 1]), 2)
                } else {
                    (Token::Missing(k), 1)
                },
            }
        },
        None => if inline is None && has_prefix(name, "no-"@) {
            match find_negatable(model, name.skip(3), 0) {
                Some(k) => (Token::Named(k, "false"@), 1),
                None => (Token::Unknown(args[i]), 1),
            }
        } else {
            (Token::Unknown(args[i]), 1)
        },
    }
}

/// The token for a `-c rest` at index `i`, and how many tokens it uses.
pub open spec fn short_step(
    model: Seq<Record>,
    args: Seq<Seq<char>>,
    i: int,
    c: char,
    rest: Seq<char>,
) -> (Token, int) {
    match find_short(model, c, 0) {
        Some(k) => if takes_no_value(model[k]) {
            if rest.len() == 0 {
                (Token::Named(k, "true"@), 1)
            } else {
                (Token::Unknown(args[i]), 1)
            }
        } else if rest.len() > 0 {
            (Token::Named(k, rest), 1)
        } else if i < args.len() - 1 {
            (Token::Named(k, args[i + 1]), 2)
        } else {
            (Token::Missing(k), 1)
        },
        None => (Token::Unknown(args[i]), 1),
    }
}

/// The token at index `i`, how many tokens it uses, and whether options
/// have ended after it.
pub open spec fn step(model: Seq<Record>, args: Seq<Seq<char>>, i: int, ended: bool) -> (
    Token,
    int,
    bool,
) {
    let t = args[i];
    if ended {
        (Token::Positional(t), 1, true)
    } else if t == "--"@ {
        (Token::EndOfOptions, 1, true)
    } else if t.len() > 2 && t[0] == '-' && t[1] == '-' {
        let (tok, n) = long_step(model, args, i, t.skip(2));
        (tok, n, false)
    } else if t.len() >= 2 && t[0] == '-' {
        let (tok, n) = short_step(model, args, i, t[1], t.skip(2));
        (tok, n, false)
    } else {
        (Token::Positional(t), 1, false)
    }
}

/// The tokens of `args` from index `i` on.
pub open spec fn scan_from(model: Seq<Record>, args: Seq<Seq<char>>, i: nat, ended: bool) -> Seq<
    Token,
>
    decreases args.len() - i,
{
    if i >= args.len() {
        seq![]
    } else {
        let (tok, n, e) = step(model, args, i as int, ended);
        if n >= 1 {
            seq![tok] + scan_from(model, args, (i + n) as nat, e)
        } else {
            seq![tok]
        }
    }
}

/// The tokens of a whole argument vector.
pub open spec fn spec_scan(model: Seq<Record>, args: Seq<Seq<char>>) -> Seq<Token> {
    scan_from(model, args, 0, false)
}

fn record_long_is(r: &Record, name: &[char]) -> (b: bool)
    ensures
        b == (long_of(*r) == Some(name@)),
{
    match &r.arg {
        Some(a) => match &a.long {
            Some(l) => {
                let cs = chars_of(l.as_str());
                chars_eq(&cs, name)
            },
            None => false,
        },
        None => false,
    }
}

fn record_short_is(r: &Record, c: char) -> (b: bool)
    ensures
        b == (short_of(*r) == Some(seq![c])),
{
    match &r.arg {
        Some(a) => match &a.short {
            Some(s) => {
                let cs = chars_of(s.as_str());
                let one: Vec<char> = vec![c];
                assert(one@ =~= seq![c]);
                chars_eq(&cs, &one)
            },
            None => false,
        },
        None => false,
    }
}

fn record_takes_no_value(r: &Record) -> (b: bool)
    ensures
        b == takes_no_value(*r),
{
    match &r.arg {
        Some(a) => a.arity == 0,
        None => false,
    }
}

fn record_negatable(r: &Record) -> (b: bool)
    ensures
        b == negatable_of(*r),
{
    match &r.arg {
        Some(a) => a.negatable,
        None => false,
    }
}

/// The first record whose long form is `name`.
pub fn lookup_long(model: &[Record], name: &[char]) -> (r: Option<usize>)
    ensures
        match r {
            Some(k) => find_long(model@, name@, 0) == Some(k as int) && k < model@.len(),
            None => find_long(model@, name@, 0) is None,
        },
{
    let mut k: usize = 0;
    while k < model.len()
        invariant
            k <= model@.len(),
            find_long(model@, name@, 0) == find_long(model@, name@, k as nat),
        decreases model@.len() - k,
    {
        if record_long_is(&model[k], name) {
            return Some(k);
        }
        k = k + 1;
    }
    None
}

/// The first record whose short form is `c`.
pub fn lookup_short(model: &[Record], c: char) -> (r: Option<usize>)
    ensures
        match r {
            Some(k) => find_short(model@, c, 0) == Some(k as int) && k < model@.len(),
            None => find_short(model@, c, 0) is None,
        },
{
    let mut k: usize = 0;
    while k < model.len()
        invariant
            k <= model@.len(),
            find_short(model@, c, 0) == find_short(model@, c, k as nat),
        decreases model@.len() - k,
    {
        if record_short_is(&model[k], c) {
            return Some(k);
        }
        k = k + 1;
    }
    None
}

/// The first negatable record whose long form is `name`.
pub fn lookup_negatable(model: &[Record], name: &[char]) -> (r: Option<usize>)
    ensures
        match r {
            Some(k) => find_negatable(model@, name@, 0) == Some(k as int) && k < model@.len(),
            None => find_negatable(model@, name@, 0) is None,
        },
{
    let mut k: usize = 0;
    while k < model.len()
        invariant
            k <= model@.len(),
            find_negatable(model@, name@, 0) == find_negatable(model@, name@, k as nat),
        decreases model@.len() - k,
    {
        if record_long_is(&model[k], name) && record_negatable(&model[k]) {
            return Some(k);
        }
        k = k + 1;
    }
    None
}

/// Splits `name=value` at the first `=`.
fn split_at_eq(body: &[char]) -> (r: (Vec<char>, Option<Vec<char>>))
    ensures
        r.0@ == split_inline(body@).0,
        match r.1 {
            Some(v) => split_inline(body@).1 == Some(v@),
            None => split_inline(body@).1 is None,
        },
{
    let mut j: usize = 0;
    while j < body.len()
        invariant
            j <= body@.len(),
            index_of(body@, '=', 0) == index_of(body@, '=', j as nat),
        decreases body@.len() - j,
    {
        if body[j] == '=' {
            let name = slice_chars(body, 0, j);
            let value = slice_chars(body, j + 1, body.len());
            assert(name@ =~= body@.take(j as int));
            assert(value@ =~= body@.skip(j + 1));
            return (name, Some(value));
        }
        j = j + 1;
    }
    let all = slice_chars(body, 0, body.len());
    assert(all@ =~= body@);
    (all, None)
}

/// The characters `s[from..to]`.
pub fn slice_chars(s: &[char], from: usize, to: usize) -> (r: Vec<char>)
    requires
        from <= to <= s@.len(),
    ensures
        r@ == s@.subrange(from as int, to as int),
{
    let mut v: Vec<char> = Vec::new();
    let mut i: usize = from;
    while i < to
        invariant
            from <= i <= to,
            to <= s@.len(),
            v@ == s@.subrange(from as int, i as int),
        decreases to - i,
    {
        v.push(s[i]);
        i = i + 1;
        assert(v@ =~= s@.subrange(from as int, i as int));
    }
    v
}

fn literal_chars(lit: &str) -> (r: Vec<char>)
    ensures
        r@ == lit@,
{
    chars_of(lit)
}

fn long_event(model: &[Record], args: &[String], i: usize, body: &[char]) -> (r: (Event, usize))
    requires
        i < args@.len(),
    ensures
        (r.0@, r.1 as int) == long_step(model@, args_view(args@), i as int, body@),
        1 <= r.1 <= 2,
{
    let ghost av = args_view(args@);
    let (name, inline) = split_at_eq(body);
    match lookup_long(model, &name) {
        Some(k) => {
            if record_takes_no_value(&model[k]) {
                let v = match inline {
                    Some(v) => string_of(&v),
                    None => owned("true"),
                };
                (Event::Named(k, v), 1)
            } else {
                match inline {
                    Some(v) => (Event::Named(k, string_of(&v)), 1),
                    None => {
                        if i < args.len() - 1 {
                            (Event::Named(k, args[i + 1].clone()), 2)
                        } else {
                            (Event::Missing(k), 1)
                        }
                    },
                }
            }
        },
        None => {
            let no = literal_chars("no-");
            proof {
                reveal_strlit("no-");
            }
            if inline.is_none() && crate::text::chars_have_prefix(&name, &no) {
                let rest = slice_chars(&name, 3, name.len());
                assert(rest@ =~= name@.skip(3));
                match lookup_negatable(model, &rest) {
                    Some(k) => (Event::Named(k, owned("false")), 1),
                    None => (Event::Unknown(args[i].clone()), 1),
                }
            } else {
                (Event::Unknown(args[i].clone()), 1)
            }
        },
    }
}

fn short_event(model: &[Record], args: &[String], i: usize, c: char, rest: &[char]) -> (r: (
    Event,
    usize,
))
    requires
        i < args@.len(),
    ensures
        (r.0@, r.1 as int) == short_step(model@, args_view(args@), i as int, c, rest@),
        1 <= r.1 <= 2,
{
    match lookup_short(model, c) {
        Some(k) => {
            if record_takes_no_value(&model[k]) {
                if rest.len() == 0 {
                    (Event::Named(k, owned("true")), 1)
                } else {
                    (Event::Unknown(args[i].clone()), 1)
                }
            } else if rest.len() > 0 {
                (Event::Named(k, string_of(rest)), 1)
            } else if i < args.len() - 1 {
                (Event::Named(k, args[i + 1].clone()), 2)
            } else {
                (Event::Missing(k), 1)
            }
        },
        None => (Event::Unknown(args[i].clone()), 1),
    }
}

fn step_event(model: &[Record], args: &[String], i: usize, ended: bool) -> (r: (Event, usize, bool))
    requires
        i < args@.len(),
    ensures
        (r.0@, r.1 as int, r.2) == step(model@, args_view(args@), i as int, ended),
        1 <= r.1 <= 2,
{
    let t = chars_of(args[i].as_str());
    let dd = literal_chars("--");
    if ended {
        (Event::Positional(args[i].clone()), 1, true)
    } else if chars_eq(&t, &dd) {
        (Event::EndOfOptions, 1, true)
    } else if t.len() > 2 && t[0] == '-' && t[1] == '-' {
        let body = slice_chars(&t, 2, t.len());
        assert(body@ =~= t@.skip(2));
        let (e, n) = long_event(model, args, i, &body);
        (e, n, false)
    } else if t.len() >= 2 && t[0] == '-' {
        let rest = slice_chars(&t, 2, t.len());
        assert(rest@ =~= t@.skip(2));
        let (e, n) = short_event(model, args, i, t[1], &rest);
        (e, n, false)
    } else {
        (Event::Positional(args[i].clone()), 1, false)
    }
}

/// Reads `args` against `model`, token by token.
pub fn scan(model: &[Record], args: &[String]) -> (r: Vec<Event>)
    ensures
        events_view(r@) == spec_scan(model@, args_view(args@)),
{
    let mut out: Vec<Event> = Vec::new();
    let mut i: usize = 0;
    let mut ended = false;
    while i < args.len()
        invariant
            i <= args@.len(),
            spec_scan(model@, args_view(args@)) == events_view(out@) + scan_from(
                model@,
                args_view(args@),
                i as nat,
                ended,
            ),
        decreases args@.len() - i,
    {
        let ghost before = out@;
        let (e, n, next) = step_event(model, args, i, ended);
        out.push(e);
        proof {
            assert(events_view(out@) =~= events_view(before).push(e@));
        }
        if n >= args.len() - i {
            i = args.len();
        } else {
            i = i + n;
        }
        ended = next;
    }
    assert(events_view(out@) =~= spec_scan(model@, args_view(args@)));
    out
}

} // verus!
