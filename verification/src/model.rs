//! The data the interpreter works on: symbols, head movements, transition
//! rules, and the errors a run can end with.

use vstd::prelude::*;

verus! {

/// A named atomic label, used both as a machine state identifier and as the
/// content of a tape cell.  Symbols are compared by textual equality.
#[derive(Debug)]
pub struct Symbol {
    pub name: String,
}

impl View for Symbol {
    type V = Seq<char>;

    open spec fn view(&self) -> Seq<char> {
        self.name@
    }
}

impl DeepView for Symbol {
    type V = Seq<char>;

    open spec fn deep_view(&self) -> Seq<char> {
        self@
    }
}

impl Symbol {
    pub fn new(name: &str) -> (s: Symbol)
        ensures
            s@ == name@,
    {
        Symbol { name: name.to_owned() }
    }

    pub fn text(&self) -> (r: &str)
        ensures
            r@ == self@,
    {
        self.name.as_str()
    }
}

impl Clone for Symbol {
    fn clone(&self) -> (s: Symbol)
        ensures
            s@ == self@,
    {
        Symbol { name: self.name.clone() }
    }
}

impl PartialEq for Symbol {
    fn eq(&self, other: &Symbol) -> (r: bool) {
        self.name == other.name
    }
}

impl vstd::std_specs::cmp::PartialEqSpecImpl for Symbol {
    open spec fn obeys_eq_spec() -> bool {
        true
    }

    open spec fn eq_spec(&self, other: &Symbol) -> bool {
        self@ == other@
    }
}

/// The direction the head moves when a rule is applied.
#[derive(Clone, Copy, Debug, PartialEq, Eq, Structural)]
pub enum Step {
    Left,
    Right,
}

/// A transition rule: in state `state`, reading `read` under the head, write
/// `write`, move the head by `step`, and switch to state `next`.
#[derive(Debug)]
pub struct Case {
    pub state: Symbol,
    pub read: Symbol,
    pub write: Symbol,
    pub step: Step,
    pub next: Symbol,
}

/// The mathematical value of a [`Case`]: the same five components with each
/// symbol taken as its character sequence.
pub struct CaseV {
    pub state: Seq<char>,
    pub read: Seq<char>,
    pub write: Seq<char>,
    pub step: Step,
    pub next: Seq<char>,
}

impl View for Case {
    type V = CaseV;

    open spec fn view(&self) -> CaseV {
        CaseV {
            state: self.state@,
            read: self.read@,
            write: self.write@,
            step: self.step,
            next: self.next@,
        }
    }
}

impl DeepView for Case {
    type V = CaseV;

    open spec fn deep_view(&self) -> CaseV {
        self@
    }
}

/// The conditions that abort a run: the token stream ended inside a
/// construct, a token in step position was neither `->` nor `<-`, the tape
/// file held no symbol, or the head would have moved below cell zero.
#[derive(Debug)]
pub enum Error {
    UnexpectedEnd,
    InvalidStep(Symbol),
    EmptyTape,
    TapeUnderflow,
}

/// The mathematical value of an [`Error`], with the offending token of
/// `InvalidStep` taken as its character sequence.
pub enum ErrorV {
    UnexpectedEnd,
    InvalidStep(Seq<char>),
    EmptyTape,
    TapeUnderflow,
}

impl View for Error {
    type V = ErrorV;

    open spec fn view(&self) -> ErrorV {
        match self {
            Error::UnexpectedEnd => ErrorV::UnexpectedEnd,
            Error::InvalidStep(got) => ErrorV::InvalidStep(got@),
            Error::EmptyTape => ErrorV::EmptyTape,
            Error::TapeUnderflow => ErrorV::TapeUnderflow,
        }
    }
}

impl PartialEq for Error {
    fn eq(&self, other: &Error) -> (r: bool) {
        match (self, other) {
            (Error::UnexpectedEnd, Error::UnexpectedEnd) => true,
            (Error::InvalidStep(a), Error::InvalidStep(b)) => a == b,
            (Error::EmptyTape, Error::EmptyTape) => true,
            (Error::TapeUnderflow, Error::TapeUnderflow) => true,
            _ => false,
        }
    }
}

impl vstd::std_specs::cmp::PartialEqSpecImpl for Error {
    open spec fn obeys_eq_spec() -> bool {
        true
    }

    open spec fn eq_spec(&self, other: &Error) -> bool {
        self@ == other@
    }
}

/// The text of the diagnostic reported for an error.
pub open spec fn spec_message(e: ErrorV) -> Seq<char> {
    match e {
        ErrorV::UnexpectedEnd => "expected symbol but reached end of input"@,
        ErrorV::InvalidStep(got) => "expected '->' or '<-' but got "@ + got,
        ErrorV::EmptyTape => "tape file may not be empty."@,
        ErrorV::TapeUnderflow => "tape underflow."@,
    }
}

impl Error {
    /// The human-readable message for this error, without any prefix.
    pub fn message(&self) -> (r: String)
        ensures
            r@ == spec_message(self@),
    {
        match self {
            Error::UnexpectedEnd => String::from_str("expected symbol but reached end of input"),
            Error::InvalidStep(got) => {
                String::from_str("expected '->' or '<-' but got ").concat(got.name.as_str())
            },
            Error::EmptyTape => String::from_str("tape file may not be empty."),
            Error::TapeUnderflow => String::from_str("tape underflow."),
        }
    }
}

} // verus!
