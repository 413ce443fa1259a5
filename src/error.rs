use vstd::prelude::*;
use crate::ast::{AST, Term};

verus! {

/// Why an evaluation or a native primitive failed.
#[derive(Debug)]
pub enum EvalError {
    /// The operands of a primitive have shapes it does not accept.
    TypeError,
    /// A primitive got the wrong number of arguments: expected, got.
    WrongArity(usize, usize),
    /// The integer result of a primitive does not fit in 64 bits.
    Overflow,
    /// The left side of an application reduced to this value, which is no function.
    NotAFunction(AST),
    /// No primitive is registered under this name.
    UndefinedNative(String),
    /// An application would nest deeper than the frame counter can count.
    FrameLimit,
    /// Evaluation nested deeper than the budget it was given.
    NestingLimit,
}

/// The model of an [`EvalError`].
pub enum Fault {
    TypeError,
    WrongArity(nat, nat),
    Overflow,
    NotAFunction(Term),
    UndefinedNative(Seq<char>),
    FrameLimit,
    NestingLimit,
}

impl View for EvalError {
    type V = Fault;

    open spec fn view(&self) -> Fault {
        match self {
            EvalError::TypeError => Fault::TypeError,
            EvalError::WrongArity(e, g) => Fault::WrongArity(*e as nat, *g as nat),
            EvalError::Overflow => Fault::Overflow,
            EvalError::NotAFunction(a) => Fault::NotAFunction(a@),
            EvalError::UndefinedNative(n) => Fault::UndefinedNative(n@),
            EvalError::FrameLimit => Fault::FrameLimit,
            EvalError::NestingLimit => Fault::NestingLimit,
        }
    }
}

/// The model of a result: a value or a fault.
pub type Outcome = Result<Term, Fault>;

pub open spec fn outcome_of(r: Result<AST, EvalError>) -> Outcome {
    match r {
        Ok(a) => Ok(a@),
        Err(e) => Err(e@),
    }
}

} // verus!
