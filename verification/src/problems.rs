//! Problem-handling policy: what to do when [`crate::lint`] finds something.
use vstd::prelude::*;
use crate::lint::{findings_view, severity_of, Finding, Severity};

verus! {

/// What to do when [`crate::lint`] returns findings.
#[derive(Clone, Copy, Debug, PartialEq, Eq, Structural)]
pub enum OnProblems {
    /// Report errors and warnings; stop on any error. Warnings alone do not
    /// stop the program.
    FailOnError,
    /// Report everything; stop if there is anything at all.
    FailOnAny,
    /// Report everything; never stop because of findings.
    WarnOnly,
    /// Discard all findings silently.
    Ignore,
}

/// Whether `policy` stops the program on `findings`.
pub open spec fn spec_should_exit(findings: Seq<Finding>, policy: OnProblems) -> bool {
    match policy {
        OnProblems::FailOnError => exists|i: int|
            0 <= i < findings.len() && severity_of(#[trigger] findings[i]@) == Severity::Error,
        OnProblems::FailOnAny => findings.len() > 0,
        OnProblems::WarnOnly | OnProblems::Ignore => false,
    }
}

/// Whether `policy` reports `findings` at all.
pub open spec fn spec_should_report(findings: Seq<Finding>, policy: OnProblems) -> bool {
    findings.len() > 0 && policy != OnProblems::Ignore
}

/// Whether the findings are to be reported under `policy`.
pub fn should_report(findings: &[Finding], policy: OnProblems) -> (r: bool)
    ensures
        r == spec_should_report(findings@, policy),
{
    !(findings.len() == 0 || policy == OnProblems::Ignore)
}

/// Whether `policy` stops the program on `findings`: any error under
/// `FailOnError`, anything at all under `FailOnAny`, never otherwise.
#[verifier::loop_isolation(false)]
pub fn should_exit(findings: &[Finding], policy: OnProblems) -> (r: bool)
    ensures
        r == spec_should_exit(findings@, policy),
{
    match policy {
        OnProblems::FailOnError => {
            let mut i: usize = 0;
            while i < findings.len()
                invariant
                    i <= findings@.len(),
                    forall|j: int| 0 <= j < i ==> severity_of(#[trigger] findings@[j]@) != Severity::Error,
                decreases findings@.len() - i,
            {
                if findings[i].severity() == Severity::Error {
                    return true;
                }
                i = i + 1;
            }
            false
        },
        OnProblems::FailOnAny => findings.len() > 0,
        OnProblems::WarnOnly | OnProblems::Ignore => false,
    }
}

} // verus!
