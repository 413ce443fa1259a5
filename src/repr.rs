use vstd::prelude::*;
use vstd::string::StrSliceExecFns;
use crate::ast::{AST, Term};
use crate::error::{EvalError, Fault};
use crate::text::string_of_chars;

verus! {

/// The decimal digits of `n`, most significant first.
pub open spec fn nat_digits(n: nat) -> Seq<char>
    decreases n,
{
    if n < 10 {
        seq!["0123456789"@[n as int]]
    } else {
        nat_digits(n / 10).push("0123456789"@[(n % 10) as int])
    }
}

/// The decimal form of `v`, with a leading `-` when it is negative.
pub open spec fn decimal(v: int) -> Seq<char> {
    if v < 0 {
        seq!['-'] + nat_digits((-v) as nat)
    } else {
        nat_digits(v as nat)
    }
}

/// The canonical text of a term.
pub open spec fn repr_spec(t: Term) -> Seq<char>
    decreases t,
{
    match t {
        Term::Nil => "Nil"@,
        Term::Const(v) => decimal(v as int),
        Term::Lit(s) => s,
        Term::Let(n, h, b) => "let "@ + n + " = "@ + repr_spec(*h) + " in "@ + repr_spec(*b),
        Term::Def(n, _) => "def "@ + n + " = <code>"@,
        Term::Function(p, b) => "fn "@ + p + " -> "@ + repr_spec(*b),
        Term::Apply(f, x) => "@ "@ + repr_spec(*f) + " "@ + repr_spec(*x),
        Term::Native1(n, x) => "native "@ + n + " "@ + repr_spec(*x),
        Term::Native2(n, x, y) => "native "@ + n + " "@ + repr_spec(*x) + " "@ + repr_spec(*y),
        Term::Cond(c, th, el) => "if "@ + repr_spec(*c) + "  then "@ + repr_spec(*th) + " else "@ + repr_spec(*el),
    }
}

/// Appends the characters of `s`.
fn push_str(out: &mut Vec<char>, s: &str)
    ensures
        final(out)@ == old(out)@ + s@,
{
    let n = s.unicode_len();
    let mut i: usize = 0;
    while i < n
        invariant
            n == s@.len(),
            i <= n,
            out@ == old(out)@ + s@.subrange(0, i as int),
        decreases n - i,
    {
        out.push(s.get_char(i));
        i = i + 1;
        assert(out@ =~= old(out)@ + s@.subrange(0, i as int));
    }
    assert(s@.subrange(0, n as int) =~= s@);
}

/// Appends the decimal digits of `n`.
fn push_digits(n: u64, out: &mut Vec<char>)
    ensures
        final(out)@ == old(out)@ + nat_digits(n as nat),
    decreases n,
{
    proof {
        reveal_strlit("0123456789");
    }
    if n >= 10 {
        push_digits(n / 10, out);
    }
    out.push("0123456789".get_char((n % 10) as usize));
    assert(out@ =~= old(out)@ + nat_digits(n as nat));
}

/// Appends the decimal form of `v`.
fn push_decimal(v: i64, out: &mut Vec<char>)
    ensures
        final(out)@ == old(out)@ + decimal(v as int),
{
    if v < 0 {
        out.push('-');
        let m: u64 = (-(v + 1)) as u64 + 1;
        push_digits(m, out);
        assert(out@ =~= old(out)@ + decimal(v as int));
    } else {
        push_digits(v as u64, out);
    }
}

/// Appends the canonical text of `value`.
fn render(value: &AST, out: &mut Vec<char>)
    ensures
        final(out)@ == old(out)@ + repr_spec(value@),
    decreases value,
{
    let ghost o = out@;
    match value {
        AST::Nil => push_str(out, "Nil"),
        AST::Const(v) => push_decimal(*v, out),
        AST::Lit(s) => push_str(out, s.as_str()),
        AST::Let(n, h, b) => {
            push_str(out, "let ");
            push_str(out, n.as_str());
            push_str(out, " = ");
            render(h, out);
            push_str(out, " in ");
            render(b, out);
        },
        AST::Def(n, _) => {
            push_str(out, "def ");
            push_str(out, n.as_str());
            push_str(out, " = <code>");
        },
        AST::Function(p, b) => {
            push_str(out, "fn ");
            push_str(out, p.as_str());
            push_str(out, " -> ");
            render(b, out);
        },
        AST::Apply(f, x) => {
            push_str(out, "@ ");
            render(f, out);
            push_str(out, " ");
            render(x, out);
        },
        AST::Native1(n, x) => {
            push_str(out, "native ");
            push_str(out, n.as_str());
            push_str(out, " ");
            render(x, out);
        },
        AST::Native2(n, x, y) => {
            push_str(out, "native ");
            push_str(out, n.as_str());
            push_str(out, " ");
            render(x, out);
            push_str(out, " ");
            render(y, out);
        },
        AST::Cond(c, th, el) => {
            push_str(out, "if ");
            render(c, out);
            push_str(out, "  then ");
            render(th, out);
            push_str(out, " else ");
            render(el, out);
        },
    }
    assert(out@ =~= o + repr_spec(value@));
}

/// The canonical text of a value: `Nil`, integers in decimal, symbols as
/// their names, and each compound in the prefix syntax of the language.
pub fn repr(value: AST) -> (r: String)
    ensures
        r@ == repr_spec(value@),
{
    let mut out: Vec<char> = Vec::new();
    render(&value, &mut out);
    assert(out@ =~= repr_spec(value@));
    string_of_chars(&out)
}

/// The text of a fault, as the read-eval-print loop shows it.
pub open spec fn message_spec(f: Fault) -> Seq<char> {
    match f {
        Fault::TypeError => "type error"@,
        Fault::WrongArity(e, g) => "wrong arity: expected "@ + nat_digits(e) + ", got "@ + nat_digits(g),
        Fault::Overflow => "integer overflow"@,
        Fault::NotAFunction(v) => "calling "@ + repr_spec(v) + " which is not a function"@,
        Fault::UndefinedNative(n) => "native function "@ + n + " not defined"@,
        Fault::FrameLimit => "too many nested calls"@,
        Fault::NestingLimit => "evaluation nested too deeply"@,
    }
}

impl EvalError {
    /// A description of the fault for people.
    pub fn message(&self) -> (r: String)
        ensures
            r@ == message_spec(self@),
    {
        let mut out: Vec<char> = Vec::new();
        match self {
            EvalError::TypeError => push_str(&mut out, "type error"),
            EvalError::WrongArity(e, g) => {
                push_str(&mut out, "wrong arity: expected ");
                push_digits(*e as u64, &mut out);
                push_str(&mut out, ", got ");
                push_digits(*g as u64, &mut out);
            },
            EvalError::Overflow => push_str(&mut out, "integer overflow"),
            EvalError::NotAFunction(v) => {
                push_str(&mut out, "calling ");
                render(v, &mut out);
                push_str(&mut out, " which is not a function");
            },
            EvalError::UndefinedNative(n) => {
                push_str(&mut out, "native function ");
                push_str(&mut out, n.as_str());
                push_str(&mut out, " not defined");
            },
            EvalError::FrameLimit => push_str(&mut out, "too many nested calls"),
            EvalError::NestingLimit => push_str(&mut out, "evaluation nested too deeply"),
        }
        assert(out@ =~= message_spec(self@));
        string_of_chars(&out)
    }
}

} // verus!
