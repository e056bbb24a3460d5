use vstd::prelude::*;

verus! {

/// Outcome of comparing an issuer claim with an observation.
#[derive(Clone, Copy, Debug, PartialEq, Eq, Structural)]
pub enum Verdict {
    Verified,
    Mismatch,
    Incomplete,
    Demo,
}

/// Process exit status that a verdict maps to.
#[derive(Clone, Copy, Debug, PartialEq, Eq, Structural)]
pub struct ExitCode(pub i32);

/// The stable exit status of each verdict.
pub open spec fn spec_exit_status(v: Verdict) -> i32 {
    match v {
        Verdict::Verified => 0,
        Verdict::Mismatch => 1,
        Verdict::Incomplete => 2,
        Verdict::Demo => 3,
    }
}

/// The upper-case label under which a verdict is printed and serialised.
pub open spec fn spec_verdict_label(v: Verdict) -> Seq<char> {
    match v {
        Verdict::Verified => "VERIFIED"@,
        Verdict::Mismatch => "MISMATCH"@,
        Verdict::Incomplete => "INCOMPLETE"@,
        Verdict::Demo => "DEMO"@,
    }
}

impl Verdict {
    pub fn exit_code(&self) -> (code: ExitCode)
        ensures
            code.0 == spec_exit_status(*self),
    {
        match self {
            Verdict::Verified => ExitCode(0),
            Verdict::Mismatch => ExitCode(1),
            Verdict::Incomplete => ExitCode(2),
            Verdict::Demo => ExitCode(3),
        }
    }

    /// The label the verdict is displayed as.
    pub fn label(&self) -> (s: &'static str)
        ensures
            s@ == spec_verdict_label(*self),
    {
        match self {
            Verdict::Verified => "VERIFIED",
            Verdict::Mismatch => "MISMATCH",
            Verdict::Incomplete => "INCOMPLETE",
            Verdict::Demo => "DEMO",
        }
    }
}

/// Distinct verdicts never share an exit status, and only a verified
/// outcome exits with status zero.
pub proof fn lemma_exit_status_distinguishes_verdicts(a: Verdict, b: Verdict)
    ensures
        spec_exit_status(a) == spec_exit_status(b) <==> a == b,
        spec_exit_status(a) == 0 <==> a == Verdict::Verified,
        0 <= spec_exit_status(a) <= 3,
{
}

} // verus!
