use spirit::ast::AST;
use spirit::domain::SpiritValue;
use spirit::error::EvalError;
use spirit::functions::{eq, gt, lt, mul, sub, Native};
use spirit::lexer::{lex, Token};
use spirit::parser::{parse, parse_next_lit, parse_tokens, parse_words};
use spirit::repr::repr;
use spirit::text::{parse_i64, str_lt};

fn lit(s: &str) -> AST {
    AST::Lit(s.to_string())
}

fn b(a: AST) -> Box<AST> {
    Box::new(a)
}

fn chars(s: &str) -> Vec<char> {
    s.chars().collect()
}

#[test]
fn lex_keywords_and_atoms() {
    let toks = lex("let x = 5 in @ g 3").unwrap();
    assert_eq!(
        toks,
        vec![
            Token::Let,
            Token::Symbol("x".to_string()),
            Token::Equal,
            Token::Number(5),
            Token::In,
            Token::At,
            Token::Symbol("g".to_string()),
            Token::Number(3),
        ]
    );
}

#[test]
fn lex_minus_must_start_an_arrow() {
    assert_eq!(lex("-3"), None);
    assert_eq!(lex("fn x -> x"), Some(vec![Token::Fn, Token::Symbol("x".to_string()), Token::Arrow, Token::Symbol("x".to_string())]));
}

#[test]
fn lex_conditionals() {
    assert_eq!(
        lex("if 1 then 2 else 3 "),
        Some(vec![Token::If, Token::Number(1), Token::Then, Token::Number(2), Token::Else, Token::Number(3)])
    );
}

#[test]
fn lex_keyword_needs_following_space() {
    assert_eq!(lex("let"), None);
    assert_eq!(lex("def x = 1"), Some(vec![Token::Def, Token::Symbol("x".to_string()), Token::Equal, Token::Number(1)]));
    assert_eq!(lex("then"), None);
}

#[test]
fn lex_empty_and_blank() {
    assert_eq!(lex(""), Some(vec![]));
    assert_eq!(lex(" \t\n"), Some(vec![]));
}

#[test]
fn lex_i_prefixed_words() {
    assert_eq!(lex("in x"), Some(vec![Token::In, Token::Symbol("x".to_string())]));
    assert_eq!(lex("ix 7"), Some(vec![Token::Number(7)]));
    assert_eq!(lex("i"), None);
}

#[test]
fn lex_rejects_symbols_that_start_like_keywords() {
    assert_eq!(lex("foo"), None);
    assert_eq!(lex("true"), None);
}

#[test]
fn lex_symbols_and_large_numbers() {
    assert_eq!(
        lex("abc 9223372036854775807 9223372036854775808 +4"),
        Some(vec![
            Token::Symbol("abc".to_string()),
            Token::Number(i64::MAX),
            Token::Symbol("9223372036854775808".to_string()),
            Token::Number(4),
        ])
    );
}

#[test]
fn parse_every_production() {
    assert_eq!(parse("let x = 5 in x".to_string()), Some(AST::Let("x".to_string(), b(AST::Const(5)), b(lit("x")))));
    assert_eq!(parse("def y = 2".to_string()), Some(AST::Def("y".to_string(), b(AST::Const(2)))));
    assert_eq!(parse("fn x -> x".to_string()), Some(AST::Function("x".to_string(), b(lit("x")))));
    assert_eq!(parse("@ f 1".to_string()), Some(AST::Apply(b(lit("f")), b(AST::Const(1)))));
    assert_eq!(parse("apply f 1".to_string()), Some(AST::Apply(b(lit("f")), b(AST::Const(1)))));
    assert_eq!(parse("native1 p 1".to_string()), Some(AST::Native1("p".to_string(), b(AST::Const(1)))));
    assert_eq!(
        parse("native2 q 1 2".to_string()),
        Some(AST::Native2("q".to_string(), b(AST::Const(1)), b(AST::Const(2))))
    );
    assert_eq!(
        parse("if c then 1 else 2".to_string()),
        Some(AST::Cond(b(lit("c")), b(AST::Const(1)), b(AST::Const(2))))
    );
    assert_eq!(parse("-12".to_string()), Some(AST::Const(-12)));
    assert_eq!(parse("  spaced   out  ".to_string()), Some(lit("spaced")));
}

#[test]
fn parse_failures() {
    assert_eq!(parse("".to_string()), None);
    assert_eq!(parse("let x = 5".to_string()), None);
    assert_eq!(parse("let x : 5 in x".to_string()), None);
    assert_eq!(parse("if c then 1 otherwise 2".to_string()), None);
    assert_eq!(parse("@ f".to_string()), None);
    assert_eq!(parse("native2 q 1".to_string()), None);
    assert_eq!(parse("fn x = x".to_string()), None);
}

#[test]
fn parse_words_from_a_list() {
    let words: Vec<String> = vec!["@".to_string(), "g".to_string(), "7".to_string(), "extra".to_string()];
    assert_eq!(parse_words(&words), Some(AST::Apply(b(lit("g")), b(AST::Const(7)))));
}

#[test]
fn parse_lexer_tokens() {
    let toks = lex("let x = 5 in x").unwrap();
    assert_eq!(parse_tokens(&toks, 0), Some((AST::Let("x".to_string(), b(AST::Const(5)), b(lit("x"))), 6)));
    let toks = lex("fn x -> @ g x").unwrap();
    assert_eq!(
        parse_tokens(&toks, 0),
        Some((AST::Function("x".to_string(), b(AST::Apply(b(lit("g")), b(lit("x"))))), 6))
    );
    let toks = lex("if a then 1 else 2").unwrap();
    assert_eq!(parse_tokens(&toks, 0), Some((AST::Cond(b(lit("a")), b(AST::Const(1)), b(AST::Const(2))), 6)));
    let toks = lex("def z = 0").unwrap();
    assert_eq!(parse_tokens(&toks, 0), Some((AST::Def("z".to_string(), b(AST::Const(0))), 4)));
    let toks = lex("= 1").unwrap();
    assert_eq!(parse_tokens(&toks, 0), None);
    assert_eq!(parse_next_lit(&lex("abc").unwrap(), 0), Some("abc".to_string()));
    assert_eq!(parse_next_lit(&lex("5").unwrap(), 0), None);
}

#[test]
fn repr_of_each_node() {
    assert_eq!(repr(AST::Nil), "Nil");
    assert_eq!(repr(AST::Const(-120)), "-120");
    assert_eq!(repr(AST::Const(0)), "0");
    assert_eq!(repr(AST::Const(i64::MIN)), "-9223372036854775808");
    assert_eq!(repr(lit("sym")), "sym");
    assert_eq!(repr(AST::Let("x".to_string(), b(AST::Const(1)), b(lit("x")))), "let x = 1 in x");
    assert_eq!(repr(AST::Def("x".to_string(), b(AST::Const(1)))), "def x = <code>");
    assert_eq!(repr(AST::Function("x".to_string(), b(lit("x")))), "fn x -> x");
    assert_eq!(repr(AST::Apply(b(lit("f")), b(AST::Const(2)))), "@ f 2");
    assert_eq!(repr(AST::Native1("n".to_string(), b(AST::Const(2)))), "native n 2");
    assert_eq!(repr(AST::Native2("n".to_string(), b(AST::Const(2)), b(AST::Const(3)))), "native n 2 3");
    assert_eq!(repr(AST::Cond(b(lit("c")), b(AST::Const(1)), b(AST::Const(2)))), "if c  then 1 else 2");
}

#[test]
fn error_messages() {
    assert_eq!(EvalError::TypeError.message(), "type error");
    assert_eq!(EvalError::WrongArity(2, 13).message(), "wrong arity: expected 2, got 13");
    assert_eq!(EvalError::NotAFunction(AST::Const(1)).message(), "calling 1 which is not a function");
    assert_eq!(EvalError::UndefinedNative("native:x".to_string()).message(), "native function native:x not defined");
    assert_eq!(EvalError::Overflow.message(), "integer overflow");
}

#[test]
fn integer_reading() {
    assert_eq!(parse_i64(&chars("42")), Some(42));
    assert_eq!(parse_i64(&chars("-42")), Some(-42));
    assert_eq!(parse_i64(&chars("+7")), Some(7));
    assert_eq!(parse_i64(&chars("-9223372036854775808")), Some(i64::MIN));
    assert_eq!(parse_i64(&chars("-9223372036854775809")), None);
    assert_eq!(parse_i64(&chars("")), None);
    assert_eq!(parse_i64(&chars("-")), None);
    assert_eq!(parse_i64(&chars("12a")), None);
}

#[test]
fn string_order() {
    assert!(str_lt("a", "b"));
    assert!(str_lt("", "a"));
    assert!(!str_lt("b", "a"));
    assert!(!str_lt("a", "a"));
    assert!(str_lt("Z", "a"));
}

#[test]
fn primitives_directly() {
    assert_eq!(sub(vec![AST::Const(5), AST::Const(7)]).unwrap(), AST::Const(-2));
    assert_eq!(mul(vec![AST::Const(5), AST::Const(7)]).unwrap(), AST::Const(35));
    assert_eq!(eq(vec![lit("a"), lit("a")]).unwrap(), AST::lit_true());
    assert_eq!(eq(vec![AST::Const(1), lit("a")]).unwrap(), AST::lit_false());
    assert_eq!(gt(vec![AST::Const(5), AST::Const(7)]).unwrap(), AST::lit_false());
    assert_eq!(lt(vec![AST::Const(5), AST::Const(7)]).unwrap(), AST::lit_true());
    assert!(matches!(gt(vec![AST::Nil, AST::Nil]), Err(EvalError::TypeError)));
}

#[test]
fn structural_equality_and_copy() {
    let a = AST::Let("x".to_string(), b(AST::Const(1)), b(lit("x")));
    let c = a.duplicate();
    assert!(a.equals(&c));
    assert_eq!(a, c);
    assert!(!a.equals(&AST::Let("x".to_string(), b(AST::Const(2)), b(lit("x")))));
    assert_eq!(AST::lit_true(), lit("true"));
    assert_eq!(AST::lit_false(), lit("false"));
}

#[test]
fn spirit_value_nodes() {
    let v = SpiritValue::Native2(Box::new(SpiritValue::Const(1)), Box::new(SpiritValue::Const(2)), Native::Add);
    assert_eq!(v, SpiritValue::Native2(Box::new(SpiritValue::Const(1)), Box::new(SpiritValue::Const(2)), Native::Add));
}

