//! The naming rules for keys, environment names and long flags, and the words
//! in which a broken name is reported.
use vstd::prelude::*;
use crate::text::{
    chars_of, is_alnum, is_alpha, is_digit, is_lower, lower,
    alnum, digit, push_char,
};

verus! {

/// Which naming rule a name is held to.
#[derive(Clone, Copy, Debug, PartialEq, Eq, Structural)]
pub enum NameRule {
    /// An input key: `snake_case`.
    Key,
    /// An environment variable name: `[A-Za-z_][A-Za-z0-9_]*`.
    EnvName,
    /// A long flag without its dashes: `kebab-case`.
    Long,
}

/// What is wrong with a name.
#[derive(Clone, Copy, Debug, PartialEq, Eq, Structural)]
pub enum NameFault {
    /// The name has no characters.
    Empty,
    /// A long flag was written with its leading dashes.
    LeadingDash,
    /// The first character is not allowed there.
    BadStart(char),
    /// A later character is not allowed.
    BadChar(char),
}

/// A character allowed after the first one under `rule`.
pub open spec fn rule_allows(rule: NameRule, c: char) -> bool {
    match rule {
        NameRule::Key => is_lower(c) || is_digit(c) || c == '_',
        NameRule::EnvName => is_alnum(c) || c == '_',
        NameRule::Long => is_lower(c) || is_digit(c) || c == '-',
    }
}

/// A character allowed first under `rule`.
pub open spec fn rule_starts(rule: NameRule, c: char) -> bool {
    match rule {
        NameRule::EnvName => is_alpha(c) || c == '_',
        _ => is_lower(c),
    }
}

/// The first character of `s` at or after index `i` that `rule` does not
/// allow.
pub open spec fn first_outside(s: Seq<char>, i: nat, rule: NameRule) -> Option<char>
    decreases s.len() - i,
{
    if i >= s.len() {
        None
    } else if !rule_allows(rule, s[i as int]) {
        Some(s[i as int])
    } else {
        first_outside(s, i + 1, rule)
    }
}

/// The verdict of `rule` on the name `s`.
pub open spec fn name_verdict(rule: NameRule, s: Seq<char>) -> Result<(), NameFault> {
    if rule == NameRule::Long && s.len() > 0 && s[0] == '-' {
        Err(NameFault::LeadingDash)
    } else if s.len() == 0 {
        Err(NameFault::Empty)
    } else if !rule_starts(rule, s[0]) {
        Err(NameFault::BadStart(s[0]))
    } else {
        match first_outside(s, 1, rule) {
            Some(c) => Err(NameFault::BadChar(c)),
            None => Ok(()),
        }
    }
}

/// The explanation of `fault` under `rule`, as it follows the offending name
/// in a problem message.
pub open spec fn fault_text(rule: NameRule, fault: NameFault) -> Seq<char> {
    match fault {
        NameFault::Empty => "is empty"@,
        NameFault::LeadingDash => "must be written without leading dashes"@,
        NameFault::BadStart(c) => "starts with `"@ + seq![c] + match rule {
            NameRule::EnvName => "`; must start with a letter or underscore"@,
            _ => "`; must start with a lowercase letter"@,
        },
        NameFault::BadChar(c) => "contains `"@ + seq![c] + match rule {
            NameRule::Key => "`; keys are snake_case (lowercase, digits, underscore)"@,
            NameRule::EnvName => "`; only letters, digits and underscore are portable"@,
            NameRule::Long => "`; long flags are kebab-case (lowercase, digits, dashes)"@,
        },
    }
}

fn allows(rule: NameRule, c: char) -> (r: bool)
    ensures
        r == rule_allows(rule, c),
{
    match rule {
        NameRule::Key => lower(c) || digit(c) || c == '_',
        NameRule::EnvName => alnum(c) || c == '_',
        NameRule::Long => lower(c) || digit(c) || c == '-',
    }
}

fn starts(rule: NameRule, c: char) -> (r: bool)
    ensures
        r == rule_starts(rule, c),
{
    match rule {
        NameRule::EnvName => alnum(c) && !digit(c) || c == '_',
        _ => lower(c),
    }
}

/// Judges the name `s` by `rule`.
pub fn judge_name(rule: NameRule, s: &str) -> (r: Result<(), NameFault>)
    ensures
        r == name_verdict(rule, s@),
{
    let cs = chars_of(s);
    let n = cs.len();
    if rule == NameRule::Long && n > 0 && cs[0] == '-' {
        return Err(NameFault::LeadingDash);
    }
    if n == 0 {
        return Err(NameFault::Empty);
    }
    if !starts(rule, cs[0]) {
        return Err(NameFault::BadStart(cs[0]));
    }
    let mut i: usize = 1;
    while i < n
        invariant
            n == cs@.len(),
            cs@ == s@,
            1 <= i <= n,
            first_outside(s@, 1, rule) == first_outside(s@, i as nat, rule),
            rule_starts(rule, s@[0]),
            !(rule == NameRule::Long && s@[0] == '-'),
        decreases n - i,
    {
        if !allows(rule, cs[i]) {
            return Err(NameFault::BadChar(cs[i]));
        }
        i = i + 1;
    }
    Ok(())
}

/// Appends [`fault_text`] to `out`.
pub fn push_fault_text(out: &mut String, rule: NameRule, fault: NameFault)
    ensures
        final(out)@ == old(out)@ + fault_text(rule, fault),
{
    match fault {
        NameFault::Empty => out.append("is empty"),
        NameFault::LeadingDash => out.append("must be written without leading dashes"),
        NameFault::BadStart(c) => {
            out.append("starts with `");
            push_char(out, c);
            match rule {
                NameRule::EnvName => out.append("`; must start with a letter or underscore"),
                _ => out.append("`; must start with a lowercase letter"),
            }
        },
        NameFault::BadChar(c) => {
            out.append("contains `");
            push_char(out, c);
            match rule {
                NameRule::Key => out.append(
                    "`; keys are snake_case (lowercase, digits, underscore)",
                ),
                NameRule::EnvName => out.append(
                    "`; only letters, digits and underscore are portable",
                ),
                NameRule::Long => out.append(
                    "`; long flags are kebab-case (lowercase, digits, dashes)",
                ),
            }
        },
    }
    assert(final(out)@ =~= old(out)@ + fault_text(rule, fault));
}

} // verus!
