use vstd::prelude::*;
use crate::ast::{AST, Term, terms, bool_term};
use crate::error::{EvalError, Fault, Outcome, outcome_of};
use crate::text::{chars_lt, str_lt};

verus! {

/// The primitives that the host provides to programs.
#[derive(Clone, Copy, Debug, PartialEq, Eq, Structural)]
pub enum Native {
    Print,
    Add,
    Sub,
    Mul,
    Eq,
    Lt,
    Gt,
}

/// The single argument of a unary primitive.
pub open spec fn unpack1_spec(args: Seq<Term>) -> Result<Term, Fault> {
    if args.len() == 1 {
        Ok(args[0])
    } else {
        Err(Fault::WrongArity(1, args.len()))
    }
}

/// The two arguments of a binary primitive, in order.
pub open spec fn unpack2_spec(args: Seq<Term>) -> Result<(Term, Term), Fault> {
    if args.len() == 2 {
        Ok((args[0], args[1]))
    } else {
        Err(Fault::WrongArity(2, args.len()))
    }
}

/// The integer operation of an arithmetic primitive.
pub open spec fn int_op(op: Native, a: int, b: int) -> int {
    match op {
        Native::Sub => a - b,
        Native::Mul => a * b,
        _ => a + b,
    }
}

pub open spec fn is_arith(op: Native) -> bool {
    op == Native::Add || op == Native::Sub || op == Native::Mul
}

/// An arithmetic primitive on two values: both must be integers, and the
/// exact result must fit in 64 bits.
pub open spec fn numeric_spec(op: Native, l: Term, r: Term) -> Outcome {
    match (l, r) {
        (Term::Const(a), Term::Const(b)) => {
            let v = int_op(op, a as int, b as int);
            if i64::MIN <= v <= i64::MAX {
                Ok(Term::Const(v as i64))
            } else {
                Err(Fault::Overflow)
            }
        },
        _ => Err(Fault::TypeError),
    }
}

/// Whether `l` orders before `r`: integers by value, symbols lexicographically;
/// any other pair is a type error.
pub open spec fn less_spec(l: Term, r: Term) -> Result<bool, Fault> {
    match (l, r) {
        (Term::Const(a), Term::Const(b)) => Ok(a < b),
        (Term::Lit(a), Term::Lit(b)) => Ok(chars_lt(a, b)),
        _ => Err(Fault::TypeError),
    }
}

/// What a primitive returns on already evaluated arguments.
pub open spec fn native_result(n: Native, args: Seq<Term>) -> Outcome {
    match n {
        Native::Print => match unpack1_spec(args) {
            Ok(_) => Ok(Term::Nil),
            Err(f) => Err(f),
        },
        Native::Eq => match unpack2_spec(args) {
            Ok((l, r)) => Ok(bool_term(l == r)),
            Err(f) => Err(f),
        },
        Native::Lt => match unpack2_spec(args) {
            Ok((l, r)) => match less_spec(l, r) {
                Ok(b) => Ok(bool_term(b)),
                Err(f) => Err(f),
            },
            Err(f) => Err(f),
        },
        Native::Gt => match unpack2_spec(args) {
            Ok((l, r)) => match less_spec(r, l) {
                Ok(b) => Ok(bool_term(b)),
                Err(f) => Err(f),
            },
            Err(f) => Err(f),
        },
        _ => match unpack2_spec(args) {
            Ok((l, r)) => numeric_spec(n, l, r),
            Err(f) => Err(f),
        },
    }
}

/// The values a primitive prints: `print` prints its one argument.
pub open spec fn native_output(n: Native, args: Seq<Term>) -> Seq<Term> {
    if n == Native::Print && args.len() == 1 {
        seq![args[0]]
    } else {
        seq![]
    }
}

fn numeric_op(lhs: AST, rhs: AST, op: Native) -> (r: Result<AST, EvalError>)
    requires
        is_arith(op),
    ensures
        outcome_of(r) == numeric_spec(op, lhs@, rhs@),
{
    match (lhs, rhs) {
        (AST::Const(l), AST::Const(r)) => {
            let v = match op {
                Native::Sub => l.checked_sub(r),
                Native::Mul => l.checked_mul(r),
                _ => l.checked_add(r),
            };
            match v {
                Some(v) => Ok(AST::Const(v)),
                None => Err(EvalError::Overflow),
            }
        },
        (_, _) => Err(EvalError::TypeError),
    }
}

fn unpack2(args: Vec<AST>) -> (r: Result<(AST, AST), EvalError>)
    ensures
        match (r, unpack2_spec(terms(args@))) {
            (Ok((a, b)), Ok((x, y))) => a@ == x && b@ == y,
            (Err(e), Err(f)) => e@ == f,
            _ => false,
        },
{
    let mut args = args;
    if args.len() == 2 {
        let arg1 = args.pop().unwrap();
        let arg0 = args.pop().unwrap();
        Ok((arg0, arg1))
    } else {
        Err(EvalError::WrongArity(2, args.len()))
    }
}

fn unpack1(args: Vec<AST>) -> (r: Result<AST, EvalError>)
    ensures
        outcome_of(r) == unpack1_spec(terms(args@)),
{
    let mut args = args;
    if args.len() == 1 {
        let arg0 = args.pop().unwrap();
        Ok(arg0)
    } else {
        Err(EvalError::WrongArity(1, args.len()))
    }
}

/// Prints its one argument, by appending it to `out`, and returns `Nil`.
pub fn print(args: Vec<AST>, out: &mut Vec<AST>) -> (r: Result<AST, EvalError>)
    ensures
        outcome_of(r) == native_result(Native::Print, terms(args@)),
        terms(final(out)@) == terms(old(out)@) + native_output(Native::Print, terms(args@)),
{
    let ghost a = terms(args@);
    let value = unpack1(args)?;
    out.push(value);
    proof {
        assert(terms(out@) =~= terms(old(out)@) + native_output(Native::Print, a));
    }
    Ok(AST::Nil)
}

pub fn add(args: Vec<AST>) -> (r: Result<AST, EvalError>)
    ensures
        outcome_of(r) == native_result(Native::Add, terms(args@)),
{
    let (lhs, rhs) = unpack2(args)?;
    numeric_op(lhs, rhs, Native::Add)
}

pub fn sub(args: Vec<AST>) -> (r: Result<AST, EvalError>)
    ensures
        outcome_of(r) == native_result(Native::Sub, terms(args@)),
{
    let (lhs, rhs) = unpack2(args)?;
    numeric_op(lhs, rhs, Native::Sub)
}

pub fn mul(args: Vec<AST>) -> (r: Result<AST, EvalError>)
    ensures
        outcome_of(r) == native_result(Native::Mul, terms(args@)),
{
    let (lhs, rhs) = unpack2(args)?;
    numeric_op(lhs, rhs, Native::Mul)
}

pub fn eq(args: Vec<AST>) -> (r: Result<AST, EvalError>)
    ensures
        outcome_of(r) == native_result(Native::Eq, terms(args@)),
{
    let (lhs, rhs) = unpack2(args)?;
    if lhs.equals(&rhs) {
        Ok(AST::lit_true())
    } else {
        Ok(AST::lit_false())
    }
}

/// Whether `l` orders before `r`, or a type error.
fn less(l: &AST, r: &AST) -> (res: Result<bool, EvalError>)
    ensures
        match (res, less_spec(l@, r@)) {
            (Ok(a), Ok(b)) => a == b,
            (Err(e), Err(f)) => e@ == f,
            _ => false,
        },
{
    match (l, r) {
        (AST::Const(a), AST::Const(b)) => Ok(*a < *b),
        (AST::Lit(a), AST::Lit(b)) => Ok(str_lt(a.as_str(), b.as_str())),
        (_, _) => Err(EvalError::TypeError),
    }
}

pub fn gt(args: Vec<AST>) -> (r: Result<AST, EvalError>)
    ensures
        outcome_of(r) == native_result(Native::Gt, terms(args@)),
{
    let (lhs, rhs) = unpack2(args)?;
    if less(&rhs, &lhs)? {
        Ok(AST::lit_true())
    } else {
        Ok(AST::lit_false())
    }
}

pub fn lt(args: Vec<AST>) -> (r: Result<AST, EvalError>)
    ensures
        outcome_of(r) == native_result(Native::Lt, terms(args@)),
{
    let (lhs, rhs) = unpack2(args)?;
    if less(&lhs, &rhs)? {
        Ok(AST::lit_true())
    } else {
        Ok(AST::lit_false())
    }
}

/// Runs primitive `n` on already evaluated arguments.
pub fn call_native(n: Native, args: Vec<AST>, out: &mut Vec<AST>) -> (r: Result<AST, EvalError>)
    ensures
        outcome_of(r) == native_result(n, terms(args@)),
        terms(final(out)@) == terms(old(out)@) + native_output(n, terms(args@)),
{
    proof {
        assert(terms(old(out)@) + seq![] =~= terms(old(out)@));
    }
    match n {
        Native::Print => print(args, out),
        Native::Add => crate::functions::add(args),
        Native::Sub => crate::functions::sub(args),
        Native::Mul => crate::functions::mul(args),
        Native::Eq => crate::functions::eq(args),
        Native::Lt => crate::functions::lt(args),
        Native::Gt => crate::functions::gt(args),
    }
}

} // verus!
