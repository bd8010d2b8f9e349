//! [`Record`]: the portable projection of an [`crate::Input`], the shape in
//! which a contract is published and resolved.
use vstd::prelude::*;
use crate::text::{is_lower, lower, push_char};

verus! {

/// The environment binding of a record.
#[derive(Clone, Debug)]
pub struct EnvBinding {
    pub name: String,
    pub aliases: Vec<String>,
}

/// The argument-vector binding of a record, with its arity written out.
#[derive(Clone, Debug)]
pub struct ArgBinding {
    pub long: Option<String>,
    pub short: Option<String>,
    /// `0` for a boolean flag, `1` for every other type.
    pub arity: u8,
    pub value_name: Option<String>,
    pub negatable: bool,
    pub repeatable: bool,
    pub position: Option<u16>,
}

/// The branch a record belongs to.
#[derive(Clone, Debug)]
pub struct GateBinding {
    pub value: String,
    pub env_prefix: String,
}

/// Deprecation details of a record.
#[derive(Clone, Debug)]
pub struct DeprecationRecord {
    pub since: String,
    pub replacement: Option<String>,
    pub note: Option<String>,
}

/// One input of a contract in portable form: every field is plain text, a
/// number or a flag, so any language can read it.
#[derive(Clone, Debug)]
pub struct Record {
    pub key: String,
    /// The type's name, e.g. `"bool"`.
    pub ty: String,
    /// The default, written as JSON text.
    pub default: Option<String>,
    pub allowed: Vec<String>,
    pub separators: Vec<String>,
    pub required: bool,
    pub stability: String,
    /// The release that introduced the input, if recorded.
    pub since: Option<String>,
    pub deprecation: Option<DeprecationRecord>,
    pub group: Option<String>,
    pub maps_to: Option<String>,
    pub example: Option<String>,
    pub observe: Option<String>,
    pub reviewed: Option<String>,
    pub summary: Option<String>,
    /// Filled in by tooling, never by a declaration.
    pub modified: Option<String>,
    /// Filled in by tooling, never by a declaration.
    pub source: Option<String>,
    pub env: Option<EnvBinding>,
    pub arg: Option<ArgBinding>,
    pub gated_by: Option<GateBinding>,
    /// The subcommand tokens the input is scoped to; empty means global.
    pub subcommands: Vec<String>,
}

/// The views of a list of strings.
pub open spec fn strings_view(v: Seq<String>) -> Seq<Seq<char>> {
    v.map_values(|s: String| s@)
}

/// The view of an optional string.
pub open spec fn opt_view(o: Option<String>) -> Option<Seq<char>> {
    match o {
        Some(s) => Some(s@),
        None => None,
    }
}

/// The ASCII upper-case form of `c`; every other character is unchanged.
pub open spec fn upper_char(c: char) -> char {
    if is_lower(c) {
        ((c as u32) - 32) as char
    } else {
        c
    }
}

/// The ASCII upper-case form of `c`, as `char::to_ascii_uppercase` gives it.
fn ascii_upper(c: char) -> (r: char)
    ensures
        r == upper_char(c),
{
    if lower(c) {
        let b: u8 = c as u8;
        (b - 32) as char
    } else {
        c
    }
}

/// The name shown for a record's value in usage text: its `value_name`, or
/// its key in upper case.
pub open spec fn placeholder(rec: Record) -> Seq<char> {
    match rec.arg {
        Some(a) => match a.value_name {
            Some(v) => v@,
            None => rec.key@.map_values(|c: char| upper_char(c)),
        },
        None => rec.key@.map_values(|c: char| upper_char(c)),
    }
}

/// The flag forms of a binding: `-s`, `--long`, or `-s, --long`.
pub open spec fn flag_forms(a: ArgBinding) -> Seq<char> {
    match (a.short, a.long) {
        (Some(s), Some(l)) => "-"@ + s@ + ", --"@ + l@,
        (Some(s), None) => "-"@ + s@,
        (None, Some(l)) => "--"@ + l@,
        (None, None) => seq![],
    }
}

/// The one-line usage of a record, e.g. `-l, --log-level <LEVEL>` or
/// `<COMMAND>`; empty for a record without an argument binding.
pub open spec fn usage_text(rec: Record) -> Seq<char> {
    match rec.arg {
        None => seq![],
        Some(a) => if a.position is Some {
            "<"@ + placeholder(rec) + ">"@
        } else if a.arity == 0 {
            flag_forms(a)
        } else {
            flag_forms(a) + " <"@ + placeholder(rec) + ">"@
        },
    }
}

fn push_upper(out: &mut String, s: &String)
    ensures
        final(out)@ == old(out)@ + s@.map_values(|c: char| upper_char(c)),
{
    let cs = crate::text::chars_of(s.as_str());
    let mut i: usize = 0;
    let ghost start = out@;
    while i < cs.len()
        invariant
            i <= cs@.len(),
            cs@ == s@,
            out@ == start + s@.take(i as int).map_values(|c: char| upper_char(c)),
        decreases cs@.len() - i,
    {
        push_char(out, ascii_upper(cs[i]));
        i = i + 1;
        assert(s@.take(i as int).map_values(|c: char| upper_char(c)) =~= s@.take(
            (i - 1) as int,
        ).map_values(|c: char| upper_char(c)).push(upper_char(s@[i - 1])));
    }
    assert(s@.take(cs@.len() as int) =~= s@);
}

fn push_placeholder(out: &mut String, rec: &Record)
    ensures
        final(out)@ == old(out)@ + placeholder(*rec),
{
    match &rec.arg {
        Some(a) => match &a.value_name {
            Some(v) => out.append(v.as_str()),
            None => push_upper(out, &rec.key),
        },
        None => push_upper(out, &rec.key),
    }
}

fn push_flag_forms(out: &mut String, a: &ArgBinding)
    ensures
        final(out)@ == old(out)@ + flag_forms(*a),
{
    match (&a.short, &a.long) {
        (Some(s), Some(l)) => {
            out.append("-");
            out.append(s.as_str());
            out.append(", --");
            out.append(l.as_str());
        },
        (Some(s), None) => {
            out.append("-");
            out.append(s.as_str());
        },
        (None, Some(l)) => {
            out.append("--");
            out.append(l.as_str());
        },
        (None, None) => {},
    }
    assert(final(out)@ =~= old(out)@ + flag_forms(*a));
}

impl Record {
    /// The one-line usage of this record, e.g. `-l, --log-level <LEVEL>` for
    /// a named option or `<COMMAND>` for a positional.
    pub fn usage(&self) -> (r: String)
        ensures
            r@ == usage_text(*self),
    {
        let mut out = String::new();
        match &self.arg {
            None => {},
            Some(a) => {
                if a.position.is_some() {
                    out.append("<");
                    push_placeholder(&mut out, self);
                    out.append(">");
                } else if a.arity == 0 {
                    push_flag_forms(&mut out, a);
                } else {
                    push_flag_forms(&mut out, a);
                    out.append(" <");
                    push_placeholder(&mut out, self);
                    out.append(">");
                }
            },
        }
        assert(out@ =~= usage_text(*self));
        out
    }
}

} // verus!
