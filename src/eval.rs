use vstd::prelude::*;
use crate::ast::{AST, Term, terms, true_term};
use crate::env::{Env, EnvModel, MAX_FRAMES};
use crate::error::{EvalError, Fault, Outcome, outcome_of};
use crate::functions::{call_native, native_output, native_result};

verus! {

/// What evaluating a term does: the environment afterwards, the values
/// printed on the way, and the value or fault it reduces to.
pub struct Reduction {
    pub env: EnvModel,
    pub printed: Seq<Term>,
    pub result: Outcome,
}

/// The nesting budget that [`eval`] gives a program.
pub const NESTING_LIMIT: u32 = 512;

pub open spec fn done(e: EnvModel, v: Term) -> Reduction {
    Reduction { env: e, printed: seq![], result: Ok(v) }
}

/// What a call returns once its frame is left: a function that the call
/// returned keeps the argument as an explicit binding around its body.
pub open spec fn rewrap(param: Seq<char>, arg: Term, r: Outcome) -> Outcome {
    match r {
        Ok(Term::Function(p2, b2)) => Ok(Term::Function(p2, Box::new(Term::Let(param, Box::new(arg), b2)))),
        _ => r,
    }
}

/// The result of a call of primitive `name` on arguments that evaluated to `args`,
/// in environment `e` that the arguments' evaluation does not touch.
pub open spec fn native_call(e: EnvModel, name: Seq<char>, args: Seq<Term>, printed: Seq<Term>) -> Reduction {
    Reduction {
        env: e,
        printed: printed + native_output(e.natives[name], args),
        result: native_result(e.natives[name], args),
    }
}

/// Evaluation of `t` in `e`, nesting at most `fuel` deep.
pub open spec fn eval_spec(e: EnvModel, t: Term, fuel: nat) -> Reduction
    decreases fuel,
{
    if fuel == 0 {
        Reduction { env: e, printed: seq![], result: Err(Fault::NestingLimit) }
    } else {
        let f = (fuel - 1) as nat;
        match t {
            Term::Lit(name) => match e.lookup(name) {
                Some(bound) => eval_spec(e, bound, f),
                None => done(e, t),
            },
            Term::Let(name, head, body) => {
                let h = eval_spec(e, *head, f);
                match h.result {
                    Ok(v) => {
                        let b = eval_spec(h.env.add_var(name, v), *body, f);
                        Reduction { env: b.env.del_var(name), printed: h.printed + b.printed, result: b.result }
                    },
                    Err(_) => h,
                }
            },
            Term::Def(name, d) => done(e.add_var(name, *d), Term::Nil),
            Term::Apply(func, arg) => {
                let fr = eval_spec(e, *func, f);
                match fr.result {
                    Ok(Term::Function(p, body)) => {
                        let ar = eval_spec(fr.env, *arg, f);
                        let printed = fr.printed + ar.printed;
                        match ar.result {
                            Ok(a) => if ar.env.frames >= MAX_FRAMES {
                                Reduction { env: ar.env, printed, result: Err(Fault::FrameLimit) }
                            } else {
                                let br = eval_spec(ar.env.push().add_var(p, a), *body, f);
                                Reduction {
                                    env: br.env.del_var(p).pop(),
                                    printed: printed + br.printed,
                                    result: rewrap(p, a, br.result),
                                }
                            },
                            Err(x) => Reduction { env: ar.env, printed, result: Err(x) },
                        }
                    },
                    Ok(other) => Reduction { env: fr.env, printed: fr.printed, result: Err(Fault::NotAFunction(other)) },
                    Err(_) => fr,
                }
            },
            Term::Native1(name, a0) => if !e.natives.contains_key(name) {
                Reduction { env: e, printed: seq![], result: Err(Fault::UndefinedNative(name)) }
            } else {
                let r0 = eval_spec(e, *a0, f);
                match r0.result {
                    Ok(v0) => native_call(e, name, seq![v0], r0.printed),
                    Err(x) => Reduction { env: e, printed: r0.printed, result: Err(x) },
                }
            },
            Term::Native2(name, a0, a1) => if !e.natives.contains_key(name) {
                Reduction { env: e, printed: seq![], result: Err(Fault::UndefinedNative(name)) }
            } else {
                let r0 = eval_spec(e, *a0, f);
                match r0.result {
                    Ok(v0) => {
                        let r1 = eval_spec(r0.env, *a1, f);
                        match r1.result {
                            Ok(v1) => native_call(e, name, seq![v0, v1], r0.printed + r1.printed),
                            Err(x) => Reduction { env: e, printed: r0.printed + r1.printed, result: Err(x) },
                        }
                    },
                    Err(x) => Reduction { env: e, printed: r0.printed, result: Err(x) },
                }
            },
            Term::Cond(c, th, el) => {
                let cr = eval_spec(e, *c, f);
                match cr.result {
                    Ok(v) => {
                        let br = eval_spec(cr.env, if v == true_term() { *th } else { *el }, f);
                        Reduction { env: br.env, printed: cr.printed + br.printed, result: br.result }
                    },
                    Err(_) => cr,
                }
            },
            _ => done(e, t),
        }
    }
}

/// Evaluates `value` in `env` with a nesting budget; values that `print`
/// prints are appended to `out`.
pub fn eval_with(env: &mut Env, value: AST, budget: u32, out: &mut Vec<AST>) -> (r: Result<AST, EvalError>)
    requires
        old(env).wf(),
    ensures
        final(env).wf(),
        final(env)@ == eval_spec(old(env)@, value@, budget as nat).env,
        terms(final(out)@) == terms(old(out)@) + eval_spec(old(env)@, value@, budget as nat).printed,
        outcome_of(r) == eval_spec(old(env)@, value@, budget as nat).result,
        final(env)@.frames == old(env)@.frames,
    decreases budget, 1nat,
{
    proof {
        assert(terms(out@) + seq![] =~= terms(out@));
    }
    if budget == 0 {
        return Err(EvalError::NestingLimit);
    }
    match value {
        AST::Nil => Ok(AST::Nil),
        AST::Const(v) => Ok(AST::Const(v)),
        AST::Lit(name) => {
            let bound = match env.get_var(name.clone()) {
                Some(a) => Some(a.duplicate()),
                None => None,
            };
            match bound {
                Some(a) => eval_with(env, a, budget - 1, out),
                None => Ok(AST::Lit(name)),
            }
        },
        AST::Let(name, head, body) => eval_let(env, name, *head, *body, budget, out),
        AST::Def(name, defined) => {
            env.add_var(name, *defined);
            Ok(AST::Nil)
        },
        AST::Function(argname, body) => Ok(AST::Function(argname, body)),
        AST::Apply(func, argvalue) => eval_apply(env, *func, *argvalue, budget, out),
        AST::Native1(name, arg0) => eval_native1(env, name, *arg0, budget, out),
        AST::Native2(name, arg0, arg1) => eval_native2(env, name, *arg0, *arg1, budget, out),
        AST::Cond(cond, body, fallback) => eval_cond(env, *cond, *body, *fallback, budget, out),
    }
}

fn eval_let(env: &mut Env, name: String, head: AST, body: AST, budget: u32, out: &mut Vec<AST>) -> (r: Result<AST, EvalError>)
    requires
        old(env).wf(),
        budget > 0,
    ensures
        final(env).wf(),
        final(env)@ == eval_spec(old(env)@, Term::Let(name@, Box::new(head@), Box::new(body@)), budget as nat).env,
        terms(final(out)@) == terms(old(out)@) + eval_spec(old(env)@, Term::Let(name@, Box::new(head@), Box::new(body@)), budget as nat).printed,
        outcome_of(r) == eval_spec(old(env)@, Term::Let(name@, Box::new(head@), Box::new(body@)), budget as nat).result,
        final(env)@.frames == old(env)@.frames,
    decreases budget, 0nat,
{
    let ghost t = Term::Let(name@, Box::new(head@), Box::new(body@));
    let ghost e0 = env@;
    let ghost o0 = terms(out@);
    let define = eval_with(env, head, budget - 1, out)?;
    env.add_var(name.clone(), define);
    let res = eval_with(env, body, budget - 1, out);
    env.del_var(name);
    proof {
        assert(terms(out@) =~= o0 + eval_spec(e0, t, budget as nat).printed);
    }
    res
}

fn eval_apply(env: &mut Env, func: AST, argvalue: AST, budget: u32, out: &mut Vec<AST>) -> (r: Result<AST, EvalError>)
    requires
        old(env).wf(),
        budget > 0,
    ensures
        final(env).wf(),
        final(env)@ == eval_spec(old(env)@, Term::Apply(Box::new(func@), Box::new(argvalue@)), budget as nat).env,
        terms(final(out)@) == terms(old(out)@) + eval_spec(old(env)@, Term::Apply(Box::new(func@), Box::new(argvalue@)), budget as nat).printed,
        outcome_of(r) == eval_spec(old(env)@, Term::Apply(Box::new(func@), Box::new(argvalue@)), budget as nat).result,
        final(env)@.frames == old(env)@.frames,
    decreases budget, 0nat,
{
    let ghost t = Term::Apply(Box::new(func@), Box::new(argvalue@));
    let ghost e0 = env@;
    let ghost o0 = terms(out@);
    match eval_with(env, func, budget - 1, out)? {
        AST::Function(argname, funcbody) => {
            let computed_arg = eval_with(env, argvalue, budget - 1, out);
            proof {
                env.lemma_valid();
                if computed_arg is Err || env@.frames >= MAX_FRAMES {
                    assert(terms(out@) =~= o0 + eval_spec(e0, t, budget as nat).printed);
                }
            }
            let computed_arg = computed_arg?;
            if env.frames() >= MAX_FRAMES {
                return Err(EvalError::FrameLimit);
            }
            env.frame_push();
            env.add_var(argname.clone(), computed_arg.duplicate());
            let computed = eval_with(env, *funcbody, budget - 1, out);
            let res = match computed {
                Ok(AST::Function(arg, body)) => {
                    let ghost a = computed_arg@;
                    let ghost b = (*body)@;
                    let l = AST::Let(argname.clone(), Box::new(computed_arg), body);
                    assert(l@ == Term::Let(argname@, Box::new(a), Box::new(b)));
                    Ok(AST::Function(arg, Box::new(l)))
                },
                other => other,
            };
            env.del_var(argname);
            env.frame_pop();
            proof {
                assert(terms(out@) =~= o0 + eval_spec(e0, t, budget as nat).printed);
            }
            res
        },
        other => Err(EvalError::NotAFunction(other)),
    }
}

fn eval_native1(env: &mut Env, name: String, arg0: AST, budget: u32, out: &mut Vec<AST>) -> (r: Result<AST, EvalError>)
    requires
        old(env).wf(),
        budget > 0,
    ensures
        final(env).wf(),
        final(env)@ == eval_spec(old(env)@, Term::Native1(name@, Box::new(arg0@)), budget as nat).env,
        terms(final(out)@) == terms(old(out)@) + eval_spec(old(env)@, Term::Native1(name@, Box::new(arg0@)), budget as nat).printed,
        outcome_of(r) == eval_spec(old(env)@, Term::Native1(name@, Box::new(arg0@)), budget as nat).result,
        final(env)@.frames == old(env)@.frames,
    decreases budget, 0nat,
{
    let ghost t = Term::Native1(name@, Box::new(arg0@));
    let ghost e0 = env@;
    let ghost o0 = terms(out@);
    match env.get_native(name.clone()) {
        Some(n) => {
            let mut nenv = env.snapshot();
            let a0 = eval_with(&mut nenv, arg0, budget - 1, out)?;
            let mut args: Vec<AST> = Vec::new();
            args.push(a0);
            proof {
                assert(terms(args@) =~= seq![a0@]);
            }
            let r = call_native(n, args, out);
            proof {
                assert(terms(out@) =~= o0 + eval_spec(e0, t, budget as nat).printed);
            }
            r
        },
        None => Err(EvalError::UndefinedNative(name)),
    }
}

fn eval_native2(env: &mut Env, name: String, arg0: AST, arg1: AST, budget: u32, out: &mut Vec<AST>) -> (r: Result<AST, EvalError>)
    requires
        old(env).wf(),
        budget > 0,
    ensures
        final(env).wf(),
        final(env)@ == eval_spec(old(env)@, Term::Native2(name@, Box::new(arg0@), Box::new(arg1@)), budget as nat).env,
        terms(final(out)@) == terms(old(out)@) + eval_spec(old(env)@, Term::Native2(name@, Box::new(arg0@), Box::new(arg1@)), budget as nat).printed,
        outcome_of(r) == eval_spec(old(env)@, Term::Native2(name@, Box::new(arg0@), Box::new(arg1@)), budget as nat).result,
        final(env)@.frames == old(env)@.frames,
    decreases budget, 0nat,
{
    let ghost t = Term::Native2(name@, Box::new(arg0@), Box::new(arg1@));
    let ghost e0 = env@;
    let ghost o0 = terms(out@);
    match env.get_native(name.clone()) {
        Some(n) => {
            let mut nenv = env.snapshot();
            let a0 = eval_with(&mut nenv, arg0, budget - 1, out)?;
            let a1 = eval_with(&mut nenv, arg1, budget - 1, out);
            proof {
                assert(terms(out@) =~= o0 + eval_spec(e0, t, budget as nat).printed);
            }
            let a1 = a1?;
            let mut args: Vec<AST> = Vec::new();
            args.push(a0);
            args.push(a1);
            proof {
                assert(terms(args@) =~= seq![a0@, a1@]);
            }
            let r = call_native(n, args, out);
            proof {
                assert(terms(out@) =~= o0 + eval_spec(e0, t, budget as nat).printed);
            }
            r
        },
        None => Err(EvalError::UndefinedNative(name)),
    }
}

fn eval_cond(env: &mut Env, cond: AST, body: AST, fallback: AST, budget: u32, out: &mut Vec<AST>) -> (r: Result<AST, EvalError>)
    requires
        old(env).wf(),
        budget > 0,
    ensures
        final(env).wf(),
        final(env)@ == eval_spec(old(env)@, Term::Cond(Box::new(cond@), Box::new(body@), Box::new(fallback@)), budget as nat).env,
        terms(final(out)@) == terms(old(out)@) + eval_spec(old(env)@, Term::Cond(Box::new(cond@), Box::new(body@), Box::new(fallback@)), budget as nat).printed,
        outcome_of(r) == eval_spec(old(env)@, Term::Cond(Box::new(cond@), Box::new(body@), Box::new(fallback@)), budget as nat).result,
        final(env)@.frames == old(env)@.frames,
    decreases budget, 0nat,
{
    let ghost t = Term::Cond(Box::new(cond@), Box::new(body@), Box::new(fallback@));
    let ghost e0 = env@;
    let ghost o0 = terms(out@);
    let c = eval_with(env, cond, budget - 1, out)?;
    let r = if c.equals(&AST::lit_true()) {
        eval_with(env, body, budget - 1, out)
    } else {
        eval_with(env, fallback, budget - 1, out)
    };
    proof {
        assert(terms(out@) =~= o0 + eval_spec(e0, t, budget as nat).printed);
    }
    r
}

/// Evaluates `value` in `env` with the default nesting budget; values that
/// `print` prints are appended to `out`.
pub fn eval(env: &mut Env, value: AST, out: &mut Vec<AST>) -> (r: Result<AST, EvalError>)
    requires
        old(env).wf(),
    ensures
        final(env).wf(),
        final(env)@ == eval_spec(old(env)@, value@, NESTING_LIMIT as nat).env,
        terms(final(out)@) == terms(old(out)@) + eval_spec(old(env)@, value@, NESTING_LIMIT as nat).printed,
        outcome_of(r) == eval_spec(old(env)@, value@, NESTING_LIMIT as nat).result,
        final(env)@.frames == old(env)@.frames,
{
    eval_with(env, value, NESTING_LIMIT, out)
}

} // verus!
