use spirit::ast::AST;
use spirit::env::Env;
use spirit::error::EvalError;
use spirit::eval::{eval, eval_with};
use spirit::functions::{add, print, Native};
use spirit::parser::{builtin, parse};

fn standard_env() -> Env {
    let mut env = Env::new(false);
    env.add_native("native:print".to_string(), Native::Print);
    env.add_native("native:add".to_string(), Native::Add);
    env.add_native("native:sub".to_string(), Native::Sub);
    env.add_native("native:mul".to_string(), Native::Mul);
    env.add_native("native:eq".to_string(), Native::Eq);
    env.add_native("native:lt".to_string(), Native::Lt);
    env.add_native("native:gt".to_string(), Native::Gt);
    assert!(builtin(&mut env, "print", "fn x -> native1 native:print x"));
    assert!(builtin(&mut env, "add", "fn x -> fn y -> native2 native:add x y"));
    assert!(builtin(&mut env, "sub", "fn x -> fn y -> native2 native:sub x y"));
    assert!(builtin(&mut env, "mul", "fn x -> fn y -> native2 native:mul x y"));
    assert!(builtin(&mut env, "eq", "fn x -> fn y -> native2 native:eq x y"));
    assert!(builtin(&mut env, "gt", "fn x -> fn y -> native2 native:gt x y"));
    assert!(builtin(&mut env, "lt", "fn x -> fn y -> native2 native:lt x y"));
    env
}

fn run(env: &mut Env, code: &str) -> (Result<AST, EvalError>, Vec<AST>) {
    let mut out = Vec::new();
    let ast = parse(code.to_string()).expect("source parses");
    let r = eval(env, ast, &mut out);
    (r, out)
}

fn lit(s: &str) -> AST {
    AST::Lit(s.to_string())
}

fn native2(name: &str, a: AST, b: AST) -> AST {
    AST::Native2(name.to_string(), Box::new(a), Box::new(b))
}

#[test]
fn native_arithmetic_on_constants() {
    let mut env = standard_env();
    let mut out = Vec::new();
    let r = eval(&mut env, native2("native:add", AST::Const(40), AST::Const(2)), &mut out);
    assert_eq!(r.unwrap(), AST::Const(42));
    let r = eval(&mut env, native2("native:sub", AST::Const(3), AST::Const(10)), &mut out);
    assert_eq!(r.unwrap(), AST::Const(-7));
    let r = eval(&mut env, native2("native:mul", AST::Const(-6), AST::Const(7)), &mut out);
    assert_eq!(r.unwrap(), AST::Const(-42));
    assert!(out.is_empty());
}

#[test]
fn native_arithmetic_overflow_is_an_error() {
    let mut env = standard_env();
    let mut out = Vec::new();
    let r = eval(&mut env, native2("native:add", AST::Const(i64::MAX), AST::Const(1)), &mut out);
    assert!(matches!(r, Err(EvalError::Overflow)));
    let r = eval(&mut env, native2("native:mul", AST::Const(i64::MIN), AST::Const(-1)), &mut out);
    assert!(matches!(r, Err(EvalError::Overflow)));
    let r = eval(&mut env, native2("native:sub", AST::Const(i64::MIN), AST::Const(1)), &mut out);
    assert!(matches!(r, Err(EvalError::Overflow)));
}

#[test]
fn eq_on_constants() {
    let mut env = standard_env();
    assert_eq!(run(&mut env, "native2 native:eq 3 3").0.unwrap(), lit("true"));
    assert_eq!(run(&mut env, "native2 native:eq 3 4").0.unwrap(), lit("false"));
    assert_eq!(run(&mut env, "@ @ eq 5 5").0.unwrap(), lit("true"));
}

#[test]
fn order_type_errors_on_mismatched_operands() {
    let mut env = standard_env();
    assert!(matches!(run(&mut env, "native2 native:gt 1 abc").0, Err(EvalError::TypeError)));
    assert!(matches!(run(&mut env, "native2 native:lt abc 1").0, Err(EvalError::TypeError)));
    assert!(matches!(run(&mut env, "native2 native:lt 1 abc").0, Err(EvalError::TypeError)));
    assert!(matches!(run(&mut env, "native2 native:gt abc 1").0, Err(EvalError::TypeError)));
}

#[test]
fn order_on_integers_and_symbols() {
    let mut env = standard_env();
    assert_eq!(run(&mut env, "native2 native:gt 2 1").0.unwrap(), lit("true"));
    assert_eq!(run(&mut env, "native2 native:gt 1 2").0.unwrap(), lit("false"));
    assert_eq!(run(&mut env, "native2 native:lt -5 3").0.unwrap(), lit("true"));
    assert_eq!(run(&mut env, "native2 native:lt apple banana").0.unwrap(), lit("true"));
    assert_eq!(run(&mut env, "native2 native:lt ab a").0.unwrap(), lit("false"));
    assert_eq!(run(&mut env, "native2 native:gt ab a").0.unwrap(), lit("true"));
    assert_eq!(run(&mut env, "native2 native:lt x x").0.unwrap(), lit("false"));
}

#[test]
fn let_binding_is_scoped_to_its_body() {
    let mut env = standard_env();
    assert_eq!(run(&mut env, "let x = 5 in x").0.unwrap(), AST::Const(5));
    assert!(env.get_var("x".to_string()).is_none());
}

#[test]
fn curried_add_keeps_its_first_argument() {
    let mut env = standard_env();
    let (r, out) = run(&mut env, "@ @ add 3 4");
    assert_eq!(r.unwrap(), AST::Const(7));
    assert!(out.is_empty());
    assert_eq!(env.frames(), 1);
}

#[test]
fn defined_curried_add() {
    let mut env = standard_env();
    assert_eq!(run(&mut env, "def plus = fn x -> fn y -> native2 native:add x y").0.unwrap(), AST::Nil);
    assert_eq!(run(&mut env, "@ @ plus 3 4").0.unwrap(), AST::Const(7));
}

#[test]
fn partial_application_rewraps_the_argument() {
    let mut env = standard_env();
    let r = run(&mut env, "@ add 3").0.unwrap();
    let expected = AST::Function(
        "y".to_string(),
        Box::new(AST::Let(
            "x".to_string(),
            Box::new(AST::Const(3)),
            Box::new(native2("native:add", lit("x"), lit("y"))),
        )),
    );
    assert_eq!(r, expected);
}

#[test]
fn conditional_takes_one_branch() {
    let mut env = standard_env();
    assert_eq!(run(&mut env, "if true then 1 else 2").0.unwrap(), AST::Const(1));
    assert_eq!(run(&mut env, "if false then 1 else 2").0.unwrap(), AST::Const(2));
    let (r, out) = run(&mut env, "if true then 1 else native1 native:print 9");
    assert_eq!(r.unwrap(), AST::Const(1));
    assert!(out.is_empty());
    let (r, out) = run(&mut env, "if false then native1 native:print 9 else 2");
    assert_eq!(r.unwrap(), AST::Const(2));
    assert!(out.is_empty());
}

#[test]
fn conditional_on_comparison() {
    let mut env = standard_env();
    assert_eq!(run(&mut env, "if @ @ lt 1 2 then yes else no").0.unwrap(), lit("yes"));
    assert_eq!(run(&mut env, "if @ @ gt 1 2 then yes else no").0.unwrap(), lit("no"));
}

#[test]
fn print_records_its_argument() {
    let mut env = standard_env();
    let (r, out) = run(&mut env, "@ print 5");
    assert_eq!(r.unwrap(), AST::Nil);
    assert_eq!(out, vec![AST::Const(5)]);
}

#[test]
fn applying_a_non_function_fails() {
    let mut env = standard_env();
    match run(&mut env, "@ 1 2").0 {
        Err(EvalError::NotAFunction(v)) => assert_eq!(v, AST::Const(1)),
        other => panic!("unexpected {:?}", other),
    }
    assert_eq!(env.frames(), 1);
}

#[test]
fn unregistered_native_fails() {
    let mut env = standard_env();
    match run(&mut env, "native1 native:nope 1").0 {
        Err(EvalError::UndefinedNative(n)) => assert_eq!(n, "native:nope"),
        other => panic!("unexpected {:?}", other),
    }
    match run(&mut env, "native2 native:nope 1 2").0 {
        Err(EvalError::UndefinedNative(n)) => assert_eq!(n, "native:nope"),
        other => panic!("unexpected {:?}", other),
    }
}

#[test]
fn unbound_symbol_evaluates_to_itself() {
    let mut env = standard_env();
    assert_eq!(run(&mut env, "hello").0.unwrap(), lit("hello"));
}

#[test]
fn errors_inside_calls_leave_frames_balanced() {
    let mut env = standard_env();
    assert!(matches!(run(&mut env, "@ fn x -> native2 native:add x abc 1").0, Err(EvalError::TypeError)));
    assert_eq!(env.frames(), 1);
    assert!(env.get_var("x".to_string()).is_none());
}

#[test]
fn nesting_budget_is_enforced() {
    let mut env = standard_env();
    assert_eq!(run(&mut env, "def loop = loop").0.unwrap(), AST::Nil);
    let mut out = Vec::new();
    let r = eval_with(&mut env, lit("loop"), 50, &mut out);
    assert!(matches!(r, Err(EvalError::NestingLimit)));
    let r = eval_with(&mut env, AST::Const(1), 0, &mut out);
    assert!(matches!(r, Err(EvalError::NestingLimit)));
}

#[test]
fn frame_limit_is_enforced() {
    let mut env = standard_env();
    for _ in 1..255 {
        env.frame_push();
    }
    assert_eq!(env.frames(), 255);
    let mut out = Vec::new();
    let f = AST::Function("x".to_string(), Box::new(lit("x")));
    let r = eval(&mut env, AST::Apply(Box::new(f), Box::new(AST::Const(1))), &mut out);
    assert!(matches!(r, Err(EvalError::FrameLimit)));
    assert_eq!(env.frames(), 255);
}

#[test]
fn arity_errors_from_primitives() {
    let r = add(vec![AST::Const(1)]);
    assert!(matches!(r, Err(EvalError::WrongArity(2, 1))));
    let mut out = Vec::new();
    let r = print(vec![AST::Const(1), AST::Const(2)], &mut out);
    assert!(matches!(r, Err(EvalError::WrongArity(1, 2))));
    assert!(out.is_empty());
}

#[test]
fn native_arguments_do_not_touch_the_caller_environment() {
    let mut env = standard_env();
    let r = run(&mut env, "native2 native:add let z = 1 in z 2").0.unwrap();
    assert_eq!(r, AST::Const(3));
    let r = run(&mut env, "native1 native:print def q = 1").0.unwrap();
    assert_eq!(r, AST::Nil);
    assert!(env.get_var("q".to_string()).is_none());
}

#[test]
fn deeper_frames_shadow_shallower_ones() {
    let mut env = Env::new(false);
    env.add_var("v".to_string(), AST::Const(1));
    env.frame_push();
    assert_eq!(env.get_var("v".to_string()), Some(&AST::Const(1)));
    env.add_var("v".to_string(), AST::Const(2));
    assert_eq!(env.get_var("v".to_string()), Some(&AST::Const(2)));
    env.del_var("v".to_string());
    assert_eq!(env.get_var("v".to_string()), Some(&AST::Const(1)));
    env.frame_pop();
    assert_eq!(env.frames(), 1);
    assert!(!env.debug());
}

#[test]
fn natives_registry() {
    let mut env = Env::new(true);
    assert!(env.debug());
    assert_eq!(env.get_native("native:add".to_string()), None);
    env.add_native("native:add".to_string(), Native::Add);
    assert_eq!(env.get_native("native:add".to_string()), Some(Native::Add));
    env.add_native("native:add".to_string(), Native::Mul);
    assert_eq!(env.get_native("native:add".to_string()), Some(Native::Mul));
}

#[test]
fn three_level_curry_keeps_only_the_nearest_argument() {
    let mut env = standard_env();
    let def = "def add3 = fn x -> fn y -> fn z -> native2 native:add x native2 native:add y z";
    assert_eq!(run(&mut env, def).0.unwrap(), AST::Nil);
    assert!(matches!(run(&mut env, "@ @ @ add3 1 2 3").0, Err(EvalError::TypeError)));
    assert_eq!(env.frames(), 1);
}
