//! The two doors a value can arrive through: [`Arg`] and [`Env`].
//!
//! An input's identity (its `key`) is separate from how it is addressed, so
//! argv and envp share one model: everything except addressing is common to
//! both.
use vstd::prelude::*;

verus! {

/// The environment binding: the variable name a value may arrive under.
#[derive(Clone, Copy, Debug)]
pub struct Env {
    /// The variable name, e.g. `"APP_LOG_LEVEL"`.
    pub name: &'static str,
    /// Other names still honoured, so a legacy name is recognised rather than
    /// reported as a mistake.
    pub aliases: &'static [&'static str],
}

impl Env {
    /// A binding with nothing set: `Env { name: "APP_X", ..Env::empty() }`.
    pub fn empty() -> (r: Env)
        ensures
            r.name@ == Seq::<char>::empty(),
            r.aliases@ == Seq::<&'static str>::empty(),
    {
        proof {
            reveal_strlit("");
        }
        Env { name: "", aliases: &[] }
    }

    /// A plain binding with no aliases.
    pub fn new(name: &'static str) -> (r: Env)
        ensures
            r.name == name,
            r.aliases@ == Seq::<&'static str>::empty(),
    {
        Env { name, aliases: &[] }
    }
}

/// The argument-vector binding: the flag or the positional slot a value may
/// arrive under.
///
/// How many values a flag takes is not declared here: it follows from the
/// input's [`crate::Type`] (none for a boolean, one otherwise).
#[derive(Clone, Copy, Debug)]
pub struct Arg {
    /// The long form without dashes, e.g. `"log-level"` for `--log-level`.
    pub long: Option<&'static str>,
    /// The short form without its dash, e.g. `'l'` for `-l`.
    pub short: Option<char>,
    /// Whether `--no-<long>` is accepted to force the value off. Booleans only.
    pub negatable: bool,
    /// Whether the flag may be repeated, accumulating values. Lists only.
    pub repeatable: bool,
    /// The placeholder shown in help for the value, e.g. `"LEVEL"`.
    pub value_name: &'static str,
    /// A bare positional slot instead of a `--flag`.
    ///
    /// For an ungated input this is the position among all positionals; for
    /// an input scoped to a branch it is the position after the selector token.
    pub position: Option<u16>,
}

impl Arg {
    /// A binding with nothing set: `Arg { long: Some("x"), ..Arg::empty() }`.
    pub fn empty() -> (r: Arg)
        ensures
            r.long is None,
            r.short is None,
            !r.negatable,
            !r.repeatable,
            r.value_name@ == Seq::<char>::empty(),
            r.position is None,
    {
        proof {
            reveal_strlit("");
        }
        Arg {
            long: None,
            short: None,
            negatable: false,
            repeatable: false,
            value_name: "",
            position: None,
        }
    }

    /// A long flag, e.g. `Arg::long("log-level")` for `--log-level`.
    pub fn long(long: &'static str) -> (r: Arg)
        ensures
            r.long == Some(long),
            r.short is None,
            !r.negatable,
            !r.repeatable,
            r.value_name@ == Seq::<char>::empty(),
            r.position is None,
    {
        Arg { long: Some(long), ..Arg::empty() }
    }

    /// A short flag, e.g. `Arg::short('l')` for `-l`.
    pub fn short(short: char) -> (r: Arg)
        ensures
            r.long is None,
            r.short == Some(short),
            !r.negatable,
            !r.repeatable,
            r.value_name@ == Seq::<char>::empty(),
            r.position is None,
    {
        Arg { short: Some(short), ..Arg::empty() }
    }

    /// Both forms, e.g. `Arg::pair("log-level", 'l')`.
    pub fn pair(long: &'static str, short: char) -> (r: Arg)
        ensures
            r.long == Some(long),
            r.short == Some(short),
            !r.negatable,
            !r.repeatable,
            r.value_name@ == Seq::<char>::empty(),
            r.position is None,
    {
        Arg { long: Some(long), short: Some(short), ..Arg::empty() }
    }

    /// A bare positional, e.g. `Arg::positional(0)` for the first one.
    pub fn positional(position: u16) -> (r: Arg)
        ensures
            r.long is None,
            r.short is None,
            !r.negatable,
            !r.repeatable,
            r.value_name@ == Seq::<char>::empty(),
            r.position == Some(position),
    {
        Arg { position: Some(position), ..Arg::empty() }
    }
}

} // verus!
