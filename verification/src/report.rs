//! The words in which a [`Problem`] with a declaration is reported.
use vstd::prelude::*;
use crate::date::date_text;
use crate::input::Problem;
use crate::names::{fault_text, push_fault_text, NameRule};
use crate::text::{owned, push_char};
use crate::version::{spec_this_version, this_version, version_text};

verus! {

/// What the report says of `p`, after the input's name and a colon.
pub open spec fn problem_detail(p: Problem) -> Seq<char> {
    match p {
        Problem::EmptyKey => "has an empty key"@,
        Problem::Key(f) => "key "@ + fault_text(NameRule::Key, f),
        Problem::NoBinding => "declares neither an env nor an arg binding, so nothing can ever set it"@,
        Problem::EnvName(n, f) => "env name `"@ + n@ + "` "@ + fault_text(NameRule::EnvName, f),
        Problem::EnvAlias(a, f) => "env alias `"@ + a@ + "` "@ + fault_text(NameRule::EnvName, f),
        Problem::AliasRepeatsName => "env alias repeats the primary name"@,
        Problem::EnvOutsideGate(n, pre) => "env name `"@ + n@ + "` must start with the selector's env_prefix `"@ + pre@ + "`"@,
        Problem::ArgUnaddressed => "arg binding has neither a long/short form nor a position — it must be one or the other"@,
        Problem::ArgNamedAndPositional => "arg binding has both a long/short form and a position — a flag is one or the other, never both"@,
        Problem::PositionalBool => "a positional cannot be Type::Bool — a positional's presence already                      means a value was given, so there is no separate on/off state for a bool to                      express; use a named flag for a switch instead"@,
        Problem::PositionalNegatable => "`negatable` produces --no-… which only makes sense for a named flag"@,
        Problem::PositionalRepeatable => "`repeatable` accumulates repeated occurrences of a named flag; a positional occurs at most once by construction"@,
        Problem::Long(l, f) => "long `--"@ + l@ + "` "@ + fault_text(NameRule::Long, f),
        Problem::Short(c) => "short `-"@ + seq![c] + "` must be an ASCII letter or digit"@,
        Problem::NegatableNotBool(t) => "`negatable` produces --no-… and is meaningful only for bool, but type is "@ + t.spec_name(),
        Problem::NegatableWithoutLong => "`negatable` needs a long form to negate"@,
        Problem::RepeatableNotList(t) => "`repeatable` accumulates values and is meaningful only for list, but type is "@ + t.spec_name(),
        Problem::BoolValueName => "a bool flag takes no value, so `value_name` is meaningless"@,
        Problem::SinceInFuture(v) => "`since` "@ + version_text(v) + " is newer than the current version "@ + version_text(spec_this_version()),
        Problem::ReviewedInFuture(r) => "`reviewed` date "@ + date_text(r) + " is in the future"@,
        Problem::DeprecatedWithoutDetails => "stability is Deprecated but no Deprecation details are given"@,
        Problem::DetailsWithoutDeprecation(s) => "has Deprecation details but stability is "@ + s.spec_name(),
        Problem::DeprecatedSinceInFuture(v) => "deprecated-since "@ + version_text(v) + " is newer than the current version "@ + version_text(spec_this_version()),
        Problem::AllowedEmpty(t) => "type is "@ + t.spec_name() + " but `allowed` is empty"@,
        Problem::AllowedNotListy(t) => "`allowed` is only meaningful for enum/list, but type is "@ + t.spec_name(),
        Problem::ListWithoutSeparators => "type is list but no `separators` are declared, so a value cannot be split"@,
        Problem::SeparatorsNotList(t) => "`separators` are only meaningful for list, but type is "@ + t.spec_name(),
    }
}

/// The full message for `p` about the input named `at`.
pub open spec fn problem_text(p: Problem, at: Seq<char>) -> Seq<char> {
    match p {
        Problem::EmptyKey => "an input has an empty key"@,
        _ => at + ": "@ + problem_detail(p),
    }
}

fn push_name_detail(out: &mut String, p: Problem)
    requires
        p is Key || p is EnvName || p is EnvAlias || p is EnvOutsideGate || p is Long || p is Short,
    ensures
        final(out)@ == old(out)@ + problem_detail(p),
{
    match p {
        Problem::Key(f) => {
            out.append("key ");
            push_fault_text(out, NameRule::Key, f);
        },
        Problem::EnvName(n, f) => {
            out.append("env name `");
            out.append(n);
            out.append("` ");
            push_fault_text(out, NameRule::EnvName, f);
        },
        Problem::EnvAlias(a, f) => {
            out.append("env alias `");
            out.append(a);
            out.append("` ");
            push_fault_text(out, NameRule::EnvName, f);
        },
        Problem::EnvOutsideGate(n, pre) => {
            out.append("env name `");
            out.append(n);
            out.append("` must start with the selector's env_prefix `");
            out.append(pre);
            out.append("`");
        },
        Problem::Long(l, f) => {
            out.append("long `--");
            out.append(l);
            out.append("` ");
            push_fault_text(out, NameRule::Long, f);
        },
        Problem::Short(c) => {
            out.append("short `-");
            push_char(out, c);
            out.append("` must be an ASCII letter or digit");
        },
        _ => {},
    }
    assert(final(out)@ =~= old(out)@ + problem_detail(p));
}

fn push_arg_detail(out: &mut String, p: Problem)
    requires
        p is ArgUnaddressed || p is ArgNamedAndPositional || p is PositionalBool
            || p is PositionalNegatable || p is PositionalRepeatable || p is NegatableNotBool
            || p is NegatableWithoutLong || p is RepeatableNotList || p is BoolValueName,
    ensures
        final(out)@ == old(out)@ + problem_detail(p),
{
    match p {
        Problem::ArgUnaddressed => out.append(
            "arg binding has neither a long/short form nor a position — it must be one or the other",
        ),
        Problem::ArgNamedAndPositional => out.append(
            "arg binding has both a long/short form and a position — a flag is one or the other, never both",
        ),
        Problem::PositionalBool => out.append(
            "a positional cannot be Type::Bool — a positional's presence already                      means a value was given, so there is no separate on/off state for a bool to                      express; use a named flag for a switch instead",
        ),
        Problem::PositionalNegatable => out.append(
            "`negatable` produces --no-… which only makes sense for a named flag",
        ),
        Problem::PositionalRepeatable => out.append(
            "`repeatable` accumulates repeated occurrences of a named flag; a positional occurs at most once by construction",
        ),
        Problem::NegatableNotBool(t) => {
            out.append(
                "`negatable` produces --no-… and is meaningful only for bool, but type is ",
            );
            out.append(t.as_str());
        },
        Problem::NegatableWithoutLong => out.append("`negatable` needs a long form to negate"),
        Problem::RepeatableNotList(t) => {
            out.append(
                "`repeatable` accumulates values and is meaningful only for list, but type is ",
            );
            out.append(t.as_str());
        },
        Problem::BoolValueName => out.append(
            "a bool flag takes no value, so `value_name` is meaningless",
        ),
        _ => {},
    }
    assert(final(out)@ =~= old(out)@ + problem_detail(p));
}

fn push_other_detail(out: &mut String, p: Problem)
    requires
        !(p is Key || p is EnvName || p is EnvAlias || p is EnvOutsideGate || p is Long
            || p is Short),
        !(p is ArgUnaddressed || p is ArgNamedAndPositional || p is PositionalBool
            || p is PositionalNegatable || p is PositionalRepeatable || p is NegatableNotBool
            || p is NegatableWithoutLong || p is RepeatableNotList || p is BoolValueName),
    ensures
        final(out)@ == old(out)@ + problem_detail(p),
{
    match p {
        Problem::EmptyKey => out.append("has an empty key"),
        Problem::NoBinding => out.append(
            "declares neither an env nor an arg binding, so nothing can ever set it",
        ),
        Problem::AliasRepeatsName => out.append("env alias repeats the primary name"),
        Problem::SinceInFuture(v) => {
            out.append("`since` ");
            v.push_text(out);
            out.append(" is newer than the current version ");
            this_version().push_text(out);
        },
        Problem::ReviewedInFuture(r) => {
            out.append("`reviewed` date ");
            r.push_text(out);
            out.append(" is in the future");
        },
        Problem::DeprecatedWithoutDetails => out.append(
            "stability is Deprecated but no Deprecation details are given",
        ),
        Problem::DetailsWithoutDeprecation(s) => {
            out.append("has Deprecation details but stability is ");
            out.append(s.as_str());
        },
        Problem::DeprecatedSinceInFuture(v) => {
            out.append("deprecated-since ");
            v.push_text(out);
            out.append(" is newer than the current version ");
            this_version().push_text(out);
        },
        Problem::AllowedEmpty(t) => {
            out.append("type is ");
            out.append(t.as_str());
            out.append(" but `allowed` is empty");
        },
        Problem::AllowedNotListy(t) => {
            out.append("`allowed` is only meaningful for enum/list, but type is ");
            out.append(t.as_str());
        },
        Problem::ListWithoutSeparators => out.append(
            "type is list but no `separators` are declared, so a value cannot be split",
        ),
        Problem::SeparatorsNotList(t) => {
            out.append("`separators` are only meaningful for list, but type is ");
            out.append(t.as_str());
        },
        _ => {},
    }
    assert(final(out)@ =~= old(out)@ + problem_detail(p));
}

/// The message for `p` about the input named `at`.
pub fn problem_message(p: Problem, at: &str) -> (r: String)
    ensures
        r@ == problem_text(p, at@),
{
    if let Problem::EmptyKey = p {
        return owned("an input has an empty key");
    }
    let mut out = owned(at);
    out.append(": ");
    match p {
        Problem::Key(..) | Problem::EnvName(..) | Problem::EnvAlias(..)
        | Problem::EnvOutsideGate(..) | Problem::Long(..) | Problem::Short(..) => {
            push_name_detail(&mut out, p);
        },
        Problem::ArgUnaddressed | Problem::ArgNamedAndPositional | Problem::PositionalBool
        | Problem::PositionalNegatable | Problem::PositionalRepeatable
        | Problem::NegatableNotBool(..) | Problem::NegatableWithoutLong
        | Problem::RepeatableNotList(..) | Problem::BoolValueName => {
            push_arg_detail(&mut out, p);
        },
        _ => {
            push_other_detail(&mut out, p);
        },
    }
    out
}

} // verus!
