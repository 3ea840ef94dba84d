use vstd::prelude::*;

verus! {

/// The errors that evaluation can report.
#[derive(Debug, PartialEq, Clone)]
pub enum AsaErrorKind {
    UndefinedFunction,
    VariableNotDefined(String),
    TypeError,
    DivisionByZero,
    NumberOverflow,
    NumberUnderflow,
    StackError,
    UndefinedVariable,
    NoRun,
    Generic(String),
}

/// The model of an error: the same kinds, with messages as character sequences.
pub enum Fault {
    UndefinedFunction,
    VariableNotDefined(Seq<char>),
    TypeError,
    DivisionByZero,
    NumberOverflow,
    NumberUnderflow,
    StackError,
    UndefinedVariable,
    NoRun,
    Generic(Seq<char>),
}

impl AsaErrorKind {
    pub open spec fn model(&self) -> Fault {
        match self {
            AsaErrorKind::UndefinedFunction => Fault::UndefinedFunction,
            AsaErrorKind::VariableNotDefined(s) => Fault::VariableNotDefined(s@),
            AsaErrorKind::TypeError => Fault::TypeError,
            AsaErrorKind::DivisionByZero => Fault::DivisionByZero,
            AsaErrorKind::NumberOverflow => Fault::NumberOverflow,
            AsaErrorKind::NumberUnderflow => Fault::NumberUnderflow,
            AsaErrorKind::StackError => Fault::StackError,
            AsaErrorKind::UndefinedVariable => Fault::UndefinedVariable,
            AsaErrorKind::NoRun => Fault::NoRun,
            AsaErrorKind::Generic(s) => Fault::Generic(s@),
        }
    }
}

} // verus!
