//! The faults that end a compilation.
use vstd::prelude::*;
use vstd::string::StringExecFns;

verus! {

/// A fault found while a pass rewrites a program. No pass recovers from one:
/// the first fault met ends the pass, and nothing of the program is returned.
#[derive(PartialEq, Eq, Debug)]
pub enum PassError {
    /// A reference to a name that no enclosing scope declares.
    UnresolvedVariable(String),
    /// A pass met a tree of a shape that the passes before it rule out.
    InvariantViolation,
}

/// What a `PassError` stands for.
pub enum PassErrorView {
    UnresolvedVariable(Seq<char>),
    InvariantViolation,
}

impl View for PassError {
    type V = PassErrorView;

    open spec fn view(&self) -> PassErrorView {
        match self {
            PassError::UnresolvedVariable(name) => PassErrorView::UnresolvedVariable(name@),
            PassError::InvariantViolation => PassErrorView::InvariantViolation,
        }
    }
}

impl PassError {
    /// A line of text that describes the fault.
    pub open spec fn message_spec(self) -> Seq<char> {
        match self {
            PassError::UnresolvedVariable(name) => "unresolved variable: "@ + name@,
            PassError::InvariantViolation => "invariant violation"@,
        }
    }

    /// A line of text that describes the fault.
    pub fn message(&self) -> (r: String)
        ensures
            r@ == self.message_spec(),
    {
        match self {
            PassError::UnresolvedVariable(name) => {
                let mut s = "unresolved variable: ".to_owned();
                s.append(name.as_str());
                s
            },
            PassError::InvariantViolation => "invariant violation".to_owned(),
        }
    }
}

} // verus!
