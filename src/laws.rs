//! Laws of the evaluator and of the primitives, proved over their models.
use vstd::prelude::*;
use crate::ast::{Term, bool_term, false_name, true_name};
use crate::env::{EnvModel, lookup_from};
use crate::error::Fault;
use crate::eval::{done, eval_spec};
use crate::env::MAX_FRAMES;
use crate::functions::{Native, int_op, is_arith, native_result};

verus! {

/// Evaluating an arithmetic primitive on two integer literals gives the exact
/// integer result when it fits in 64 bits, and an overflow fault when it does not.
pub proof fn law_arith_on_constants(e: EnvModel, name: Seq<char>, op: Native, a: i64, b: i64, fuel: nat)
    requires
        e.natives.contains_key(name),
        e.natives[name] == op,
        is_arith(op),
        fuel >= 2,
    ensures
        i64::MIN <= int_op(op, a as int, b as int) <= i64::MAX ==> eval_spec(
            e,
            Term::Native2(name, Box::new(Term::Const(a)), Box::new(Term::Const(b))),
            fuel,
        ).result == Ok::<Term, Fault>(Term::Const(int_op(op, a as int, b as int) as i64)),
        !(i64::MIN <= int_op(op, a as int, b as int) <= i64::MAX) ==> eval_spec(
            e,
            Term::Native2(name, Box::new(Term::Const(a)), Box::new(Term::Const(b))),
            fuel,
        ).result == Err::<Term, Fault>(Fault::Overflow),
{
    reveal_with_fuel(eval_spec, 2);
}

/// `eq` on two integers gives `true` when they are equal and `false` when not.
pub proof fn law_eq_on_constants(a: i64, b: i64)
    ensures
        native_result(Native::Eq, seq![Term::Const(a), Term::Const(b)]) == Ok::<Term, Fault>(bool_term(a == b)),
{
    assert(seq![Term::Const(a), Term::Const(b)][0] == Term::Const(a));
    assert(seq![Term::Const(a), Term::Const(b)][1] == Term::Const(b));
}

/// `gt` and `lt` on an integer and a symbol, in either order, are type errors.
pub proof fn law_order_mismatch(a: i64, s: Seq<char>)
    ensures
        native_result(Native::Gt, seq![Term::Const(a), Term::Lit(s)]) == Err::<Term, Fault>(Fault::TypeError),
        native_result(Native::Gt, seq![Term::Lit(s), Term::Const(a)]) == Err::<Term, Fault>(Fault::TypeError),
        native_result(Native::Lt, seq![Term::Const(a), Term::Lit(s)]) == Err::<Term, Fault>(Fault::TypeError),
        native_result(Native::Lt, seq![Term::Lit(s), Term::Const(a)]) == Err::<Term, Fault>(Fault::TypeError),
{
    assert(seq![Term::Const(a), Term::Lit(s)][0] == Term::Const(a));
    assert(seq![Term::Const(a), Term::Lit(s)][1] == Term::Lit(s));
    assert(seq![Term::Lit(s), Term::Const(a)][0] == Term::Lit(s));
    assert(seq![Term::Lit(s), Term::Const(a)][1] == Term::Const(a));
}

/// Applying a value that is no function (an integer or `Nil`) fails with a
/// not-a-function fault that carries the value, and leaves the environment as it was.
pub proof fn law_apply_non_function(e: EnvModel, v: Term, arg: Term, fuel: nat)
    requires
        v is Const || v is Nil,
        fuel >= 2,
    ensures
        eval_spec(e, Term::Apply(Box::new(v), Box::new(arg)), fuel).result == Err::<Term, Fault>(Fault::NotAFunction(v)),
        eval_spec(e, Term::Apply(Box::new(v), Box::new(arg)), fuel).env == e,
{
    reveal_with_fuel(eval_spec, 2);
}

/// Calling a primitive name that is not registered fails with an
/// undefined-native fault, evaluates no argument and prints nothing.
pub proof fn law_undefined_native(e: EnvModel, name: Seq<char>, a0: Term, a1: Term, fuel: nat)
    requires
        !e.natives.contains_key(name),
        fuel >= 1,
    ensures
        eval_spec(e, Term::Native1(name, Box::new(a0)), fuel).result == Err::<Term, Fault>(Fault::UndefinedNative(name)),
        eval_spec(e, Term::Native2(name, Box::new(a0), Box::new(a1)), fuel).result == Err::<Term, Fault>(Fault::UndefinedNative(name)),
        eval_spec(e, Term::Native1(name, Box::new(a0)), fuel).printed.len() == 0,
        eval_spec(e, Term::Native2(name, Box::new(a0), Box::new(a1)), fuel).printed.len() == 0,
{
}

proof fn lemma_lookup_after_remove(vars: Map<(int, Seq<char>), Term>, depth: int, name: Seq<char>, k: (int, Seq<char>))
    requires
        lookup_from(vars, depth, name) is None,
    ensures
        lookup_from(vars.remove(k), depth, name) is None,
    decreases depth,
{
    if depth > 0 {
        lemma_lookup_after_remove(vars, depth - 1, name, k);
    }
}

/// `let x = v in x` gives `v`, and the binding ends with the body: afterwards
/// `x` has no binding at the current frame, and a name that was unbound before
/// is unbound again.
pub proof fn law_let_scoped(e: EnvModel, name: Seq<char>, v: i64, fuel: nat)
    requires
        e.valid(),
        fuel >= 3,
    ensures
        eval_spec(e, Term::Let(name, Box::new(Term::Const(v)), Box::new(Term::Lit(name))), fuel).result == Ok::<Term, Fault>(Term::Const(v)),
        !eval_spec(e, Term::Let(name, Box::new(Term::Const(v)), Box::new(Term::Lit(name))), fuel).env.vars.contains_key((e.frames, name)),
        e.lookup(name) is None ==> eval_spec(e, Term::Let(name, Box::new(Term::Const(v)), Box::new(Term::Lit(name))), fuel).env.lookup(name) is None,
{
    reveal_with_fuel(eval_spec, 3);
    let e1 = e.add_var(name, Term::Const(v));
    assert(e1.lookup(name) == Some(Term::Const(v)));
    let after = e1.del_var(name);
    assert(after.vars =~= e.vars.remove((e.frames, name)));
    if e.lookup(name) is None {
        lemma_lookup_after_remove(e.vars, e.frames, name, (e.frames, name));
    }
}

/// Evaluation leaves the frame depth and the registered primitives as it found
/// them, whether it succeeds or fails: every frame that a call enters is left.
pub proof fn law_frames_balanced(e: EnvModel, t: Term, fuel: nat)
    ensures
        eval_spec(e, t, fuel).env.frames == e.frames,
        eval_spec(e, t, fuel).env.natives == e.natives,
    decreases fuel,
{
    if fuel > 0 {
        let f = (fuel - 1) as nat;
        match t {
            Term::Lit(name) => {
                match e.lookup(name) {
                    Some(b) => law_frames_balanced(e, b, f),
                    None => {},
                }
            },
            Term::Let(name, head, body) => {
                law_frames_balanced(e, *head, f);
                let h = eval_spec(e, *head, f);
                match h.result {
                    Ok(v) => law_frames_balanced(h.env.add_var(name, v), *body, f),
                    Err(_) => {},
                }
            },
            Term::Apply(func, arg) => {
                law_frames_balanced(e, *func, f);
                let fr = eval_spec(e, *func, f);
                match fr.result {
                    Ok(Term::Function(p, body)) => {
                        law_frames_balanced(fr.env, *arg, f);
                        let ar = eval_spec(fr.env, *arg, f);
                        match ar.result {
                            Ok(a) => law_frames_balanced(ar.env.push().add_var(p, a), *body, f),
                            Err(_) => {},
                        }
                    },
                    _ => {},
                }
            },
            Term::Cond(c, th, el) => {
                law_frames_balanced(e, *c, f);
                let cr = eval_spec(e, *c, f);
                law_frames_balanced(cr.env, *th, f);
                law_frames_balanced(cr.env, *el, f);
            },
            _ => {},
        }
    }
}

/// The curried form of a binary primitive `n`: `fn p -> fn q -> native2 n p q`.
pub open spec fn curried(p: Seq<char>, q: Seq<char>, n: Seq<char>) -> Term {
    Term::Function(
        p,
        Box::new(Term::Function(q, Box::new(Term::Native2(n, Box::new(Term::Lit(p)), Box::new(Term::Lit(q)))))),
    )
}

/// Applying a curried addition bound to `f` to `a` and then to `b` gives
/// `a + b`: the first argument survives the call that returned the inner function.
pub proof fn law_curried_add(e: EnvModel, f: Seq<char>, p: Seq<char>, q: Seq<char>, n: Seq<char>, a: i64, b: i64, fuel: nat)
    requires
        e.valid(),
        e.frames < MAX_FRAMES,
        e.lookup(f) == Some(curried(p, q, n)),
        e.natives.contains_key(n),
        e.natives[n] == Native::Add,
        p != q,
        i64::MIN <= a + b <= i64::MAX,
        fuel >= 5,
    ensures
        eval_spec(
            e,
            Term::Apply(Box::new(Term::Apply(Box::new(Term::Lit(f)), Box::new(Term::Const(a)))), Box::new(Term::Const(b))),
            fuel,
        ).result == Ok::<Term, Fault>(Term::Const((a + b) as i64)),
{
    let k = (fuel - 1) as nat;
    let k2 = (fuel - 2) as nat;
    let k3 = (fuel - 3) as nat;
    let k4 = (fuel - 4) as nat;
    let body = Term::Native2(n, Box::new(Term::Lit(p)), Box::new(Term::Lit(q)));
    let inner_fn = Term::Function(q, Box::new(body));
    let inner = Term::Apply(Box::new(Term::Lit(f)), Box::new(Term::Const(a)));
    // The first application returns the inner function, rewrapped with `p`.
    assert(eval_spec(e, curried(p, q, n), k3) == done(e, curried(p, q, n)));
    assert(eval_spec(e, Term::Lit(f), k2).result == Ok::<Term, Fault>(curried(p, q, n)));
    assert(eval_spec(e, Term::Lit(f), k2).env == e);
    assert(eval_spec(e, Term::Const(a), k2) == done(e, Term::Const(a)));
    let e1 = e.push().add_var(p, Term::Const(a));
    assert(eval_spec(e1, inner_fn, k2) == done(e1, inner_fn));
    let e2 = e1.del_var(p).pop();
    let wrapped = Term::Function(q, Box::new(Term::Let(p, Box::new(Term::Const(a)), Box::new(body))));
    assert(eval_spec(e, inner, k).result == Ok::<Term, Fault>(wrapped));
    assert(eval_spec(e, inner, k).env == e2);
    assert(e2.frames == e.frames);
    // The second application evaluates the body with both parameters bound.
    assert(eval_spec(e2, Term::Const(b), k) == done(e2, Term::Const(b)));
    let e3 = e2.push().add_var(q, Term::Const(b));
    assert(eval_spec(e3, Term::Const(a), k2) == done(e3, Term::Const(a)));
    let e4 = e3.add_var(p, Term::Const(a));
    assert(e4.lookup(p) == Some(Term::Const(a)));
    assert(e4.lookup(q) == Some(Term::Const(b)));
    assert(eval_spec(e4, Term::Const(a), k4) == done(e4, Term::Const(a)));
    assert(eval_spec(e4, Term::Const(b), k4) == done(e4, Term::Const(b)));
    assert(eval_spec(e4, Term::Lit(p), k3) == done(e4, Term::Const(a)));
    assert(eval_spec(e4, Term::Lit(q), k3) == done(e4, Term::Const(b)));
    assert(e4.natives == e.natives);
    assert(seq![Term::Const(a), Term::Const(b)][0] == Term::Const(a));
    assert(seq![Term::Const(a), Term::Const(b)][1] == Term::Const(b));
    assert(eval_spec(e4, body, k2).result == Ok::<Term, Fault>(Term::Const((a + b) as i64)));
    assert(eval_spec(e3, Term::Let(p, Box::new(Term::Const(a)), Box::new(body)), k).result == Ok::<Term, Fault>(
        Term::Const((a + b) as i64),
    ));
}

/// `if true then t else u` reduces exactly as `t` does, and `if false then t
/// else u` exactly as `u` does (where the two symbols are unbound): the other
/// branch is never evaluated, so nothing it would print is printed.
pub proof fn law_cond_on_literal(e: EnvModel, t: Term, u: Term, fuel: nat)
    requires
        fuel >= 2,
    ensures
        e.lookup(true_name()) is None ==> eval_spec(e, Term::Cond(Box::new(Term::Lit(true_name())), Box::new(t), Box::new(u)), fuel) == eval_spec(e, t, (fuel - 1) as nat),
        e.lookup(false_name()) is None ==> eval_spec(e, Term::Cond(Box::new(Term::Lit(false_name())), Box::new(t), Box::new(u)), fuel) == eval_spec(e, u, (fuel - 1) as nat),
{
    let k = (fuel - 1) as nat;
    if e.lookup(true_name()) is None {
        assert(eval_spec(e, Term::Lit(true_name()), k) == done(e, Term::Lit(true_name())));
        let r = eval_spec(e, t, k);
        assert(seq![] + r.printed =~= r.printed);
    }
    if e.lookup(false_name()) is None {
        assert(eval_spec(e, Term::Lit(false_name()), k) == done(e, Term::Lit(false_name())));
        assert(false_name() != true_name()) by {
            assert(false_name().len() != true_name().len());
        }
        let r = eval_spec(e, u, k);
        assert(seq![] + r.printed =~= r.printed);
    }
}

} // verus!
