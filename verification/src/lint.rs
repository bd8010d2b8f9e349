//! [`lint`]: what an invocation gets wrong, graded by [`Severity`].
use vstd::prelude::*;
use crate::from_raw::{falsy, numeral_within, truthy};
use crate::record::{opt_view, strings_view, Record};
use crate::resolve::{active, lookup_from, resolved_view, Resolution};
use crate::scan::{events_view, Event, Token};
use crate::text::{chars_of, owned, str_eq};

verus! {

/// How serious a finding is.
#[derive(Clone, Copy, Debug, PartialEq, Eq, Structural)]
pub enum Severity {
    /// The invocation cannot be used as given.
    Error,
    /// Worth surfacing; the invocation may still be usable.
    Warning,
}

/// One thing an invocation gets wrong.
#[derive(Clone, Debug)]
pub enum Finding {
    /// A token that looks like an option but names none: a warning.
    UnknownArg(String),
    /// An option that takes a value ended the argument vector: an error.
    MissingValue(String),
    /// An option of an input that the selected branch does not include: a
    /// warning.
    OutOfBranch(String),
    /// A value that is not of the input's type, or not among its allowed
    /// tokens: an error. Holds the key and the value.
    InvalidValue(String, String),
    /// A required input with no value: an error.
    MissingRequired(String),
}

/// The abstract form of a [`Finding`].
pub enum FindingView {
    UnknownArg(Seq<char>),
    MissingValue(Seq<char>),
    OutOfBranch(Seq<char>),
    InvalidValue(Seq<char>, Seq<char>),
    MissingRequired(Seq<char>),
}

impl View for Finding {
    type V = FindingView;

    open spec fn view(&self) -> FindingView {
        match self {
            Finding::UnknownArg(t) => FindingView::UnknownArg(t@),
            Finding::MissingValue(k) => FindingView::MissingValue(k@),
            Finding::OutOfBranch(k) => FindingView::OutOfBranch(k@),
            Finding::InvalidValue(k, v) => FindingView::InvalidValue(k@, v@),
            Finding::MissingRequired(k) => FindingView::MissingRequired(k@),
        }
    }
}

/// The views of a list of findings.
pub open spec fn findings_view(v: Seq<Finding>) -> Seq<FindingView> {
    v.map_values(|f: Finding| f@)
}

/// How serious a finding is.
pub open spec fn severity_of(f: FindingView) -> Severity {
    match f {
        FindingView::UnknownArg(_) => Severity::Warning,
        FindingView::OutOfBranch(_) => Severity::Warning,
        _ => Severity::Error,
    }
}

/// The message of a finding.
pub open spec fn finding_text(f: FindingView) -> Seq<char> {
    match f {
        FindingView::UnknownArg(t) => "unknown argument `"@ + t + "`"@,
        FindingView::MissingValue(k) => "`"@ + k + "` expects a value but the arguments ended"@,
        FindingView::OutOfBranch(k) => "`"@ + k + "` was given but does not apply to the selected subcommand"@,
        FindingView::InvalidValue(k, v) => "invalid value `"@ + v + "` for `"@ + k + "`"@,
        FindingView::MissingRequired(k) => "`"@ + k + "` is required but has no value"@,
    }
}

/// What a token of the argument vector shows wrong.
pub open spec fn token_findings(model: Seq<Record>, t: Token, gv: Option<Seq<char>>) -> Seq<
    FindingView,
> {
    match t {
        Token::Unknown(s) => seq![FindingView::UnknownArg(s)],
        Token::Missing(k) => if 0 <= k < model.len() {
            seq![FindingView::MissingValue(model[k].key@)]
        } else {
            seq![]
        },
        Token::Named(k, _) => if 0 <= k < model.len() && !active(model[k], gv) {
            seq![FindingView::OutOfBranch(model[k].key@)]
        } else {
            seq![]
        },
        _ => seq![],
    }
}

/// What the first `n` tokens show wrong.
pub open spec fn event_findings(
    model: Seq<Record>,
    ts: Seq<Token>,
    gv: Option<Seq<char>>,
    n: nat,
) -> Seq<FindingView>
    decreases n,
{
    if n == 0 || n > ts.len() {
        seq![]
    } else {
        event_findings(model, ts, gv, (n - 1) as nat) + token_findings(model, ts[n - 1], gv)
    }
}

/// Whether `raw` is a value of record `r`'s type: a boolean word for
/// `bool`, a decimal numeral for `uint` and (with an optional minus) `int`,
/// one of the allowed tokens for an `enum` that lists any. Other types take
/// any text.
pub open spec fn value_fits(r: Record, raw: Seq<char>) -> bool {
    if r.ty@ == "bool"@ {
        truthy(raw) || falsy(raw)
    } else if r.ty@ == "uint"@ {
        numeral_within(raw, u64::MAX as nat)
    } else if r.ty@ == "int"@ {
        numeral_within(raw, i64::MAX as nat) || (raw.len() > 0 && raw[0] == '-' && numeral_within(
            raw.skip(1),
            i64::MAX as nat + 1,
        ))
    } else if r.ty@ == "enum"@ {
        r.allowed@.len() == 0 || strings_view(r.allowed@).contains(raw)
    } else {
        true
    }
}

/// What record `r` shows wrong in the resolved `vals`.
pub open spec fn record_findings(
    r: Record,
    vals: Seq<(Seq<char>, Seq<char>, crate::resolve::Source)>,
    gv: Option<Seq<char>>,
) -> Seq<FindingView> {
    if active(r, gv) {
        match lookup_from(vals, r.key@, 0) {
            Some(vs) => if value_fits(r, vs.0) {
                seq![]
            } else {
                seq![FindingView::InvalidValue(r.key@, vs.0)]
            },
            None => if r.required {
                seq![FindingView::MissingRequired(r.key@)]
            } else {
                seq![]
            },
        }
    } else {
        seq![]
    }
}

/// What the first `n` records show wrong.
pub open spec fn model_findings(
    model: Seq<Record>,
    vals: Seq<(Seq<char>, Seq<char>, crate::resolve::Source)>,
    gv: Option<Seq<char>>,
    n: nat,
) -> Seq<FindingView>
    decreases n,
{
    if n == 0 || n > model.len() {
        seq![]
    } else {
        model_findings(model, vals, gv, (n - 1) as nat) + record_findings(model[n - 1], vals, gv)
    }
}

/// Everything `lint` reports for `res` against `model`: the tokens first,
/// in order, then the records, in model order.
pub open spec fn spec_lint(model: Seq<Record>, res: Resolution) -> Seq<FindingView> {
    let ts = events_view(res.events@);
    let gv = opt_view(res.selected);
    event_findings(model, ts, gv, ts.len()) + model_findings(
        model,
        resolved_view(res.values@),
        gv,
        model.len(),
    )
}

impl Finding {
    /// How serious this finding is.
    pub fn severity(&self) -> (r: Severity)
        ensures
            r == severity_of(self@),
    {
        match self {
            Finding::UnknownArg(_) => Severity::Warning,
            Finding::OutOfBranch(_) => Severity::Warning,
            _ => Severity::Error,
        }
    }

    /// The human-readable message.
    pub fn message(&self) -> (r: String)
        ensures
            r@ == finding_text(self@),
    {
        let mut s = String::new();
        match self {
            Finding::UnknownArg(t) => {
                s.append("unknown argument `");
                s.append(t.as_str());
                s.append("`");
            },
            Finding::MissingValue(k) => {
                s.append("`");
                s.append(k.as_str());
                s.append("` expects a value but the arguments ended");
            },
            Finding::OutOfBranch(k) => {
                s.append("`");
                s.append(k.as_str());
                s.append("` was given but does not apply to the selected subcommand");
            },
            Finding::InvalidValue(k, v) => {
                s.append("invalid value `");
                s.append(v.as_str());
                s.append("` for `");
                s.append(k.as_str());
                s.append("`");
            },
            Finding::MissingRequired(k) => {
                s.append("`");
                s.append(k.as_str());
                s.append("` is required but has no value");
            },
        }
        assert(s@ =~= finding_text(self@));
        s
    }
}

/// The word a report line starts with for a finding of `s`.
pub open spec fn severity_label(s: Severity) -> Seq<char> {
    match s {
        Severity::Error => "error"@,
        Severity::Warning => "warning"@,
    }
}

/// The line a report prints for a finding: its severity, a colon, and its
/// message.
pub open spec fn report_text(f: FindingView) -> Seq<char> {
    severity_label(severity_of(f)) + ": "@ + finding_text(f)
}

impl Finding {
    /// The line to print for this finding, e.g. `warning: unknown argument
    /// `--bogus``.
    pub fn report_line(&self) -> (r: String)
        ensures
            r@ == report_text(self@),
    {
        let mut s = String::new();
        match self.severity() {
            Severity::Error => s.append("error"),
            Severity::Warning => s.append("warning"),
        }
        s.append(": ");
        let m = self.message();
        s.append(m.as_str());
        assert(s@ =~= report_text(self@));
        s
    }
}

#[verifier::loop_isolation(false)]
fn fits(r: &Record, raw: &str) -> (b: bool)
    ensures
        b == value_fits(*r, raw@),
{
    let ty = r.ty.as_str();
    if str_eq(ty, "bool") {
        <bool as crate::from_raw::FromRaw>::from_raw(raw).is_some()
    } else if str_eq(ty, "uint") {
        crate::from_raw::parse_numeral(raw, u64::MAX).is_some()
    } else if str_eq(ty, "int") {
        if crate::from_raw::parse_numeral(raw, i64::MAX as u64).is_some() {
            return true;
        }
        let cs = chars_of(raw);
        if cs.len() > 0 && cs[0] == '-' {
            let rest = crate::scan::slice_chars(&cs, 1, cs.len());
            let text = crate::text::string_of(&rest);
            assert(text@ =~= raw@.skip(1));
            crate::from_raw::parse_numeral(text.as_str(), i64::MAX as u64 + 1).is_some()
        } else {
            false
        }
    } else if str_eq(ty, "enum") {
        if r.allowed.len() == 0 {
            return true;
        }
        let mut j: usize = 0;
        while j < r.allowed.len()
            invariant
                j <= r.allowed@.len(),
                r.ty@ == "enum"@,
                forall|i: int| 0 <= i < j ==> r.allowed@[i]@ != raw@,
            decreases r.allowed@.len() - j,
        {
            if str_eq(r.allowed[j].as_str(), raw) {
                assert(strings_view(r.allowed@)[j as int] == raw@);
                return true;
            }
            j = j + 1;
        }
        assert(!strings_view(r.allowed@).contains(raw@)) by {
            assert forall|i: int| 0 <= i < r.allowed@.len() implies strings_view(r.allowed@)[i]
                != raw@ by {}
        }
        false
    } else {
        true
    }
}

/// What an invocation gets wrong, as resolved against `model`: unknown
/// options, options missing their value, options of another branch, values
/// that are not of their input's type, and required inputs left without a
/// value.
pub fn lint(model: &[Record], res: &Resolution) -> (r: Vec<Finding>)
    ensures
        findings_view(r@) == spec_lint(model@, *res),
{
    let ghost ts = events_view(res.events@);
    let ghost gv = opt_view(res.selected);
    let mut out: Vec<Finding> = Vec::new();
    let mut i: usize = 0;
    while i < res.events.len()
        invariant
            i <= res.events@.len(),
            ts == events_view(res.events@),
            gv == opt_view(res.selected),
            findings_view(out@) == event_findings(model@, ts, gv, i as nat),
        decreases res.events@.len() - i,
    {
        let ghost before = out@;
        match &res.events[i] {
            Event::Unknown(t) => {
                out.push(Finding::UnknownArg(t.clone()));
            },
            Event::Missing(k) => {
                if *k < model.len() {
                    out.push(Finding::MissingValue(model[*k].key.clone()));
                }
            },
            Event::Named(k, _) => {
                if *k < model.len() && !crate::resolve::is_active_for(&model[*k], &res.selected) {
                    out.push(Finding::OutOfBranch(model[*k].key.clone()));
                }
            },
            _ => {},
        }
        assert(findings_view(out@) =~= findings_view(before) + token_findings(
            model@,
            ts[i as int],
            gv,
        ));
        i = i + 1;
    }
    let ghost mid = out@;
    let mut k: usize = 0;
    while k < model.len()
        invariant
            k <= model@.len(),
            findings_view(out@) == findings_view(mid) + model_findings(
                model@,
                resolved_view(res.values@),
                opt_view(res.selected),
                k as nat,
            ),
        decreases model@.len() - k,
    {
        let r = &model[k];
        let ghost before = out@;
        if crate::resolve::is_active_for(r, &res.selected) {
            match res.raw(r.key.as_str()) {
                Some(raw) => {
                    if !fits(r, raw) {
                        out.push(Finding::InvalidValue(r.key.clone(), owned(raw)));
                    }
                },
                None => {
                    if r.required {
                        out.push(Finding::MissingRequired(r.key.clone()));
                    }
                },
            }
        }
        assert(findings_view(out@) =~= findings_view(before) + record_findings(
            model@[k as int],
            resolved_view(res.values@),
            opt_view(res.selected),
        ));
        k = k + 1;
    }
    out
}

} // verus!
