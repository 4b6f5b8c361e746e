//! Why an evaluation failed.

use vstd::prelude::*;

verus! {

/// The kinds of evaluation failure.
#[derive(Debug, Clone, Copy, PartialEq, Eq, Structural)]
pub enum ErrorKind {
    /// A name that the scope does not hold.
    UnknownVariable,
    /// A call of a function other than `find`.
    UnknownFunction,
    /// A call of a method other than `replace`.
    UnknownMethod,
    /// A field access on a match that bound no capture of that name.
    MissingCapture,
    /// A call with fewer arguments than the callee reads.
    MissingArgument,
    /// An operand of the wrong kind of value.
    WrongOperand,
    /// The pattern has no acceptable match.
    NotFound,
    /// A construct that parses but does not run (loops, imports, a pattern
    /// used as a value, a value used as a pattern).
    Unsupported,
    /// The range to replace does not contain the selection.
    Unanchored,
    /// A capture whose bytes are not UTF-8 text.
    NotText,
}

/// An evaluation failure: its kind, and the name it concerns (empty for the
/// kinds that concern no name).
#[derive(Debug, Clone)]
pub struct EvalError {
    pub kind: ErrorKind,
    pub subject: String,
}

/// The mathematical form of an [`EvalError`].
pub struct Failure {
    pub kind: ErrorKind,
    pub subject: Seq<char>,
}

impl View for EvalError {
    type V = Failure;

    open spec fn view(&self) -> Failure {
        Failure { kind: self.kind, subject: self.subject@ }
    }
}

pub open spec fn failure(kind: ErrorKind, subject: Seq<char>) -> Failure {
    Failure { kind, subject }
}

pub open spec fn plain_failure(kind: ErrorKind) -> Failure {
    Failure { kind, subject: Seq::empty() }
}

/// An executable result agrees with a mathematical one: both succeed with
/// the same value, or both fail in the same way.
pub open spec fn agrees<T: View>(r: Result<T, EvalError>, s: Result<T::V, Failure>) -> bool {
    match r {
        Ok(v) => s is Ok && v@ == s->Ok_0,
        Err(e) => s is Err && e@ == s->Err_0,
    }
}

impl EvalError {
    pub fn named(kind: ErrorKind, subject: &String) -> (r: EvalError)
        ensures
            r@ == failure(kind, subject@),
    {
        EvalError { kind, subject: subject.clone() }
    }

    pub fn plain(kind: ErrorKind) -> (r: EvalError)
        ensures
            r@ == plain_failure(kind),
    {
        EvalError { kind, subject: String::new() }
    }
}

} // verus!
