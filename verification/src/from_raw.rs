//! [`FromRaw`]: how a type parses itself from the raw text of an argument or
//! an environment variable, so that declarations carry no parser.
use vstd::prelude::*;
use crate::text::{chars_of, chars_eq, digit, digit_value_of, is_digit, numeral_value, owned};

verus! {

/// A value that can be read from raw invocation text.
///
/// `spec_accepts` says which texts parse at all and `spec_parses_to` which
/// value a text stands for; `from_raw` is held to both.
pub trait FromRaw: Sized {
    /// Whether `s` is the text of some value.
    spec fn spec_accepts(s: Seq<char>) -> bool;

    /// Whether `s` is the text of `v`.
    spec fn spec_parses_to(s: Seq<char>, v: Self) -> bool;

    /// Parses `s`; `None` means the text is not a value of this type.
    fn from_raw(s: &str) -> (r: Option<Self>)
        ensures
            r is Some <==> Self::spec_accepts(s@),
            r matches Some(v) ==> Self::spec_parses_to(s@, v),
    ;
}

impl FromRaw for String {
    open spec fn spec_accepts(s: Seq<char>) -> bool {
        true
    }

    open spec fn spec_parses_to(s: Seq<char>, v: String) -> bool {
        v@ == s
    }

    /// Every text is a string.
    fn from_raw(s: &str) -> (r: Option<String>) {
        Some(owned(s))
    }
}

/// The texts that read as `true`.
pub open spec fn truthy(s: Seq<char>) -> bool {
    s == "true"@ || s == "1"@ || s == "yes"@ || s == "on"@
}

/// The texts that read as `false`.
pub open spec fn falsy(s: Seq<char>) -> bool {
    s == "false"@ || s == "0"@ || s == "no"@ || s == "off"@
}

fn text_is(cs: &Vec<char>, lit: &str) -> (r: bool)
    ensures
        r == (cs@ == lit@),
{
    let l = chars_of(lit);
    chars_eq(cs, &l)
}

impl FromRaw for bool {
    open spec fn spec_accepts(s: Seq<char>) -> bool {
        truthy(s) || falsy(s)
    }

    open spec fn spec_parses_to(s: Seq<char>, v: bool) -> bool {
        v == truthy(s)
    }

    /// `true`, `1`, `yes`, `on` read as true; `false`, `0`, `no`, `off` as
    /// false; nothing else is a boolean.
    fn from_raw(s: &str) -> (r: Option<bool>) {
        let cs = chars_of(s);
        if text_is(&cs, "true") || text_is(&cs, "1") || text_is(&cs, "yes") || text_is(&cs, "on") {
            Some(true)
        } else if text_is(&cs, "false") || text_is(&cs, "0") || text_is(&cs, "no") || text_is(
            &cs,
            "off",
        ) {
            Some(false)
        } else {
            None
        }
    }
}

/// Every character of `s` is a decimal digit.
pub open spec fn all_digits(s: Seq<char>) -> bool {
    forall|i: int| 0 <= i < s.len() ==> #[trigger] is_digit(s[i])
}

/// `s` is a decimal numeral of a number no larger than `max`.
pub open spec fn numeral_within(s: Seq<char>, max: nat) -> bool {
    s.len() > 0 && all_digits(s) && numeral_value(s) <= max
}

proof fn lemma_numeral_grows(s: Seq<char>, i: int)
    requires
        0 <= i <= s.len(),
    ensures
        numeral_value(s.take(i)) <= numeral_value(s),
    decreases s.len() - i,
{
    if i < s.len() {
        lemma_numeral_grows(s, i + 1);
        assert(s.take(i + 1).drop_last() =~= s.take(i));
    } else {
        assert(s.take(i) =~= s);
    }
}

/// Parses a decimal numeral no larger than `max`.
pub fn parse_numeral(s: &str, max: u64) -> (r: Option<u64>)
    ensures
        r is Some <==> numeral_within(s@, max as nat),
        r matches Some(v) ==> v == numeral_value(s@),
{
    let cs = chars_of(s);
    if cs.len() == 0 {
        return None;
    }
    let mut value: u64 = 0;
    let mut i: usize = 0;
    while i < cs.len()
        invariant
            cs@ == s@,
            i <= cs@.len(),
            value == numeral_value(s@.take(i as int)),
            value <= max,
            all_digits(s@.take(i as int)),
        decreases cs@.len() - i,
    {
        let c = cs[i];
        proof {
            assert(s@.take(i + 1).drop_last() =~= s@.take(i as int));
            assert(s@.take(i + 1).last() == c);
        }
        if !digit(c) {
            assert(!all_digits(s@)) by {
                assert(!is_digit(s@[i as int]));
            }
            return None;
        }
        let d = digit_value_of(c);
        if d > max || value > (max - d) / 10 {
            proof {
                assert(numeral_value(s@.take(i + 1)) == value * 10 + d);
                assert(value * 10 + d > max) by (nonlinear_arith)
                    requires
                        d > max || value > (max - d) / 10,
                        value >= 0,
                        d < 10,
                ;
                lemma_numeral_grows(s@, i + 1);
            }
            return None;
        }
        proof {
            assert(value * 10 + d <= max) by (nonlinear_arith)
                requires
                    value <= (max - d) / 10,
                    d <= max,
            ;
        }
        value = value * 10 + d;
        i = i + 1;
        assert(all_digits(s@.take(i as int)));
    }
    assert(s@.take(cs@.len() as int) =~= s@);
    Some(value)
}

impl FromRaw for u64 {
    open spec fn spec_accepts(s: Seq<char>) -> bool {
        numeral_within(s, u64::MAX as nat)
    }

    open spec fn spec_parses_to(s: Seq<char>, v: u64) -> bool {
        v == numeral_value(s)
    }

    /// A decimal numeral that fits.
    fn from_raw(s: &str) -> (r: Option<u64>) {
        parse_numeral(s, u64::MAX)
    }
}

impl FromRaw for u32 {
    open spec fn spec_accepts(s: Seq<char>) -> bool {
        numeral_within(s, u32::MAX as nat)
    }

    open spec fn spec_parses_to(s: Seq<char>, v: u32) -> bool {
        v == numeral_value(s)
    }

    /// A decimal numeral that fits.
    fn from_raw(s: &str) -> (r: Option<u32>) {
        match parse_numeral(s, u32::MAX as u64) {
            Some(v) => Some(v as u32),
            None => None,
        }
    }
}

impl FromRaw for u16 {
    open spec fn spec_accepts(s: Seq<char>) -> bool {
        numeral_within(s, u16::MAX as nat)
    }

    open spec fn spec_parses_to(s: Seq<char>, v: u16) -> bool {
        v == numeral_value(s)
    }

    /// A decimal numeral that fits.
    fn from_raw(s: &str) -> (r: Option<u16>) {
        match parse_numeral(s, u16::MAX as u64) {
            Some(v) => Some(v as u16),
            None => None,
        }
    }
}

impl FromRaw for u8 {
    open spec fn spec_accepts(s: Seq<char>) -> bool {
        numeral_within(s, u8::MAX as nat)
    }

    open spec fn spec_parses_to(s: Seq<char>, v: u8) -> bool {
        v == numeral_value(s)
    }

    /// A decimal numeral that fits.
    fn from_raw(s: &str) -> (r: Option<u8>) {
        match parse_numeral(s, u8::MAX as u64) {
            Some(v) => Some(v as u8),
            None => None,
        }
    }
}

/// The tokens of [`LogLevel`], in order of increasing severity.
pub open spec fn log_level_tokens() -> Seq<Seq<char>> {
    seq!["trace"@, "debug"@, "info"@, "warn"@, "error"@]
}

/// The tokens of [`Tristate`].
pub open spec fn tristate_tokens() -> Seq<Seq<char>> {
    seq!["auto"@, "on"@, "off"@]
}

/// Log verbosity, the most common closed set a program takes.
#[derive(Clone, Copy, Debug, PartialEq, Eq, Structural)]
pub enum LogLevel {
    Trace,
    Debug,
    Info,
    Warn,
    Error,
}

impl LogLevel {
    /// The accepted tokens, in order of increasing severity.
    pub fn tokens() -> (r: &'static [&'static str])
        ensures
            r@.len() == 5,
            r@[0]@ == "trace"@,
            r@[1]@ == "debug"@,
            r@[2]@ == "info"@,
            r@[3]@ == "warn"@,
            r@[4]@ == "error"@,
            r@.map_values(|t: &'static str| t@) == log_level_tokens(),
    {
        let t: &'static [&'static str] = &["trace", "debug", "info", "warn", "error"];
        t
    }
}

impl FromRaw for LogLevel {
    open spec fn spec_accepts(s: Seq<char>) -> bool {
        s == "trace"@ || s == "debug"@ || s == "info"@ || s == "warn"@ || s == "error"@
    }

    open spec fn spec_parses_to(s: Seq<char>, v: LogLevel) -> bool {
        v == (if s == "trace"@ {
            LogLevel::Trace
        } else if s == "debug"@ {
            LogLevel::Debug
        } else if s == "info"@ {
            LogLevel::Info
        } else if s == "warn"@ {
            LogLevel::Warn
        } else {
            LogLevel::Error
        })
    }

    /// One of the five tokens, exactly.
    fn from_raw(s: &str) -> (r: Option<LogLevel>) {
        let cs = chars_of(s);
        if text_is(&cs, "trace") {
            Some(LogLevel::Trace)
        } else if text_is(&cs, "debug") {
            Some(LogLevel::Debug)
        } else if text_is(&cs, "info") {
            Some(LogLevel::Info)
        } else if text_is(&cs, "warn") {
            Some(LogLevel::Warn)
        } else if text_is(&cs, "error") {
            Some(LogLevel::Error)
        } else {
            None
        }
    }
}

/// A switch with a third, automatic position.
#[derive(Clone, Copy, Debug, PartialEq, Eq, Structural)]
pub enum Tristate {
    Auto,
    On,
    Off,
}

impl Tristate {
    /// The accepted tokens.
    pub fn tokens() -> (r: &'static [&'static str])
        ensures
            r@.len() == 3,
            r@[0]@ == "auto"@,
            r@[1]@ == "on"@,
            r@[2]@ == "off"@,
            r@.map_values(|t: &'static str| t@) == tristate_tokens(),
    {
        let t: &'static [&'static str] = &["auto", "on", "off"];
        t
    }
}

impl FromRaw for Tristate {
    open spec fn spec_accepts(s: Seq<char>) -> bool {
        s == "auto"@ || s == "on"@ || s == "off"@
    }

    open spec fn spec_parses_to(s: Seq<char>, v: Tristate) -> bool {
        v == (if s == "auto"@ {
            Tristate::Auto
        } else if s == "on"@ {
            Tristate::On
        } else {
            Tristate::Off
        })
    }

    /// One of the three tokens, exactly.
    fn from_raw(s: &str) -> (r: Option<Tristate>) {
        let cs = chars_of(s);
        if text_is(&cs, "auto") {
            Some(Tristate::Auto)
        } else if text_is(&cs, "on") {
            Some(Tristate::On)
        } else if text_is(&cs, "off") {
            Some(Tristate::Off)
        } else {
            None
        }
    }
}

} // verus!
