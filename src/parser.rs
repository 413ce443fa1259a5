use vstd::prelude::*;
use vstd::string::StringExecFns;
use crate::ast::{AST, Term};
use crate::env::Env;
use crate::lexer::{Tok, Token, toks};
use crate::text::{chars_of, i64_of, parse_i64};

verus! {

/// The models of a sequence of words.
pub open spec fn word_views(v: Seq<String>) -> Seq<Seq<char>> {
    v.map_values(|s: String| s@)
}

/// The words of a text, as `str::split_whitespace` finds them.
pub uninterp spec fn whitespace_words(s: Seq<char>) -> Seq<Seq<char>>;

/// Relies on `str::split_whitespace`: the words of `s`, in order; the result
/// depends on the text alone.
#[verifier::external_body]
fn split_words(s: &str) -> (r: Vec<String>)
    ensures
        word_views(r@) == whitespace_words(s@),
{
    s.split_whitespace().map(|x| x.to_string()).collect()
}

/// The leaf that a single word denotes: an integer where it reads as one, else a symbol.
pub open spec fn leaf(t: Seq<char>) -> Term {
    match i64_of(t) {
        Some(v) => Term::Const(v),
        None => Term::Lit(t),
    }
}

/// The expression that starts at word `i` of `w`, in prefix notation, and
/// the number of words it spans; `None` where the words run out or a
/// separator (`=`, `in`, `->`, `then`, `else`) is not where the grammar puts it.
pub open spec fn parse_from(w: Seq<Seq<char>>, i: int) -> Option<(Term, nat)>
    decreases w.len() - i, 1nat,
{
    if i < 0 || i >= w.len() {
        None
    } else {
        let t = w[i];
        if t == "let"@ || t == "def"@ || t == "fn"@ {
            parse_binding(w, i)
        } else if t == "@"@ || t == "apply"@ {
            parse_apply(w, i)
        } else if t == "native1"@ || t == "native2"@ {
            parse_native(w, i)
        } else if t == "if"@ {
            parse_cond(w, i)
        } else {
            Some((leaf(t), 1))
        }
    }
}

/// `let NAME = EXPR in EXPR`, `def NAME = EXPR` or `fn NAME -> EXPR` at word `i`.
pub open spec fn parse_binding(w: Seq<Seq<char>>, i: int) -> Option<(Term, nat)>
    decreases w.len() - i, 0nat,
{
    let t = w[i];
    let sep = if t == "fn"@ { "->"@ } else { "="@ };
    if 0 <= i && i + 2 < w.len() && w[i + 2] == sep {
        match parse_from(w, i + 3) {
            Some((h, n1)) => {
                let j = i + 3 + n1;
                if t == "def"@ {
                    Some((Term::Def(w[i + 1], Box::new(h)), (j - i) as nat))
                } else if t == "fn"@ {
                    Some((Term::Function(w[i + 1], Box::new(h)), (j - i) as nat))
                } else if j < w.len() && w[j] == "in"@ {
                    match parse_from(w, j + 1) {
                        Some((b, n2)) => Some((Term::Let(w[i + 1], Box::new(h), Box::new(b)), (j + 1 + n2 - i) as nat)),
                        None => None,
                    }
                } else {
                    None
                }
            },
            None => None,
        }
    } else {
        None
    }
}

/// `@ EXPR EXPR` (or `apply EXPR EXPR`) at word `i`.
pub open spec fn parse_apply(w: Seq<Seq<char>>, i: int) -> Option<(Term, nat)>
    decreases w.len() - i, 0nat,
{
    if 0 <= i < w.len() {
        match parse_from(w, i + 1) {
            Some((f, n1)) => {
                let j = i + 1 + n1;
                if j < w.len() {
                    match parse_from(w, j) {
                        Some((x, n2)) => Some((Term::Apply(Box::new(f), Box::new(x)), (j + n2 - i) as nat)),
                        None => None,
                    }
                } else {
                    None
                }
            },
            None => None,
        }
    } else {
        None
    }
}

/// `native1 NAME EXPR` or `native2 NAME EXPR EXPR` at word `i`.
pub open spec fn parse_native(w: Seq<Seq<char>>, i: int) -> Option<(Term, nat)>
    decreases w.len() - i, 0nat,
{
    if 0 <= i && i + 1 < w.len() {
        match parse_from(w, i + 2) {
            Some((a0, n1)) => {
                let j = i + 2 + n1;
                if w[i] == "native1"@ {
                    Some((Term::Native1(w[i + 1], Box::new(a0)), (j - i) as nat))
                } else if j < w.len() {
                    match parse_from(w, j) {
                        Some((a1, n2)) => Some((Term::Native2(w[i + 1], Box::new(a0), Box::new(a1)), (j + n2 - i) as nat)),
                        None => None,
                    }
                } else {
                    None
                }
            },
            None => None,
        }
    } else {
        None
    }
}

/// `if EXPR then EXPR else EXPR` at word `i`.
pub open spec fn parse_cond(w: Seq<Seq<char>>, i: int) -> Option<(Term, nat)>
    decreases w.len() - i, 0nat,
{
    if 0 <= i < w.len() {
        match parse_from(w, i + 1) {
            Some((c, n1)) => {
                let j = i + 1 + n1;
                if j < w.len() && w[j] == "then"@ {
                    match parse_from(w, j + 1) {
                        Some((b, n2)) => {
                            let k = j + 1 + n2;
                            if k < w.len() && w[k] == "else"@ {
                                match parse_from(w, k + 1) {
                                    Some((e, n3)) => Some((Term::Cond(Box::new(c), Box::new(b), Box::new(e)), (k + 1 + n3 - i) as nat)),
                                    None => None,
                                }
                            } else {
                                None
                            }
                        },
                        None => None,
                    }
                } else {
                    None
                }
            },
            None => None,
        }
    } else {
        None
    }
}

/// Whether word `w` is `lit`.
fn is_word(w: &String, lit: &str) -> (r: bool)
    ensures
        r == (w@ == lit@),
{
    *w == String::from_str(lit)
}

/// Whether word `i` exists and is `lit`.
fn word_at_is(words: &Vec<String>, i: usize, lit: &str) -> (r: bool)
    ensures
        r == (i < words@.len() && word_views(words@)[i as int] == lit@),
{
    i < words.len() && is_word(&words[i], lit)
}

/// Parses the expression that starts at word `i`; gives it and the position after it.
pub fn parse_iter(words: &Vec<String>, i: usize) -> (r: Option<(AST, usize)>)
    ensures
        match r {
            Some((a, j)) => i < j <= words@.len() && parse_from(word_views(words@), i as int) == Some((a@, (j - i) as nat)),
            None => parse_from(word_views(words@), i as int) is None,
        },
    decreases words@.len() - i, 1nat,
{
    if i >= words.len() {
        return None;
    }
    let t = &words[i];
    if is_word(t, "let") || is_word(t, "def") || is_word(t, "fn") {
        parse_binding_at(words, i)
    } else if is_word(t, "@") || is_word(t, "apply") {
        parse_apply_at(words, i)
    } else if is_word(t, "native1") || is_word(t, "native2") {
        parse_native_at(words, i)
    } else if is_word(t, "if") {
        parse_cond_at(words, i)
    } else {
        let chars = chars_of(t.as_str());
        match parse_i64(&chars) {
            Some(v) => Some((AST::Const(v), i + 1)),
            None => Some((AST::Lit(t.clone()), i + 1)),
        }
    }
}

fn parse_binding_at(words: &Vec<String>, i: usize) -> (r: Option<(AST, usize)>)
    requires
        i < words@.len(),
    ensures
        match r {
            Some((a, j)) => i < j <= words@.len() && parse_binding(word_views(words@), i as int) == Some((a@, (j - i) as nat)),
            None => parse_binding(word_views(words@), i as int) is None,
        },
    decreases words@.len() - i, 0nat,
{
    let t = &words[i];
    let sep = if is_word(t, "fn") { "->" } else { "=" };
    if !(words.len() - i > 2 && is_word(&words[i + 2], sep)) {
        return None;
    }
    let (h, j) = parse_iter(words, i + 3)?;
    let name = words[i + 1].clone();
    if is_word(t, "def") {
        Some((AST::Def(name, Box::new(h)), j))
    } else if is_word(t, "fn") {
        Some((AST::Function(name, Box::new(h)), j))
    } else if word_at_is(words, j, "in") {
        let (b, k) = parse_iter(words, j + 1)?;
        Some((AST::Let(name, Box::new(h), Box::new(b)), k))
    } else {
        None
    }
}

fn parse_apply_at(words: &Vec<String>, i: usize) -> (r: Option<(AST, usize)>)
    requires
        i < words@.len(),
    ensures
        match r {
            Some((a, j)) => i < j <= words@.len() && parse_apply(word_views(words@), i as int) == Some((a@, (j - i) as nat)),
            None => parse_apply(word_views(words@), i as int) is None,
        },
    decreases words@.len() - i, 0nat,
{
    let n = words.len();
    let (f, j) = parse_iter(words, i + 1)?;
    if j >= n {
        return None;
    }
    let (x, k) = parse_iter(words, j)?;
    Some((AST::Apply(Box::new(f), Box::new(x)), k))
}

fn parse_native_at(words: &Vec<String>, i: usize) -> (r: Option<(AST, usize)>)
    requires
        i < words@.len(),
    ensures
        match r {
            Some((a, j)) => i < j <= words@.len() && parse_native(word_views(words@), i as int) == Some((a@, (j - i) as nat)),
            None => parse_native(word_views(words@), i as int) is None,
        },
    decreases words@.len() - i, 0nat,
{
    if words.len() - i <= 1 {
        return None;
    }
    let (a0, j) = parse_iter(words, i + 2)?;
    let name = words[i + 1].clone();
    if is_word(&words[i], "native1") {
        Some((AST::Native1(name, Box::new(a0)), j))
    } else if j < words.len() {
        let (a1, k) = parse_iter(words, j)?;
        Some((AST::Native2(name, Box::new(a0), Box::new(a1)), k))
    } else {
        None
    }
}

fn parse_cond_at(words: &Vec<String>, i: usize) -> (r: Option<(AST, usize)>)
    requires
        i < words@.len(),
    ensures
        match r {
            Some((a, j)) => i < j <= words@.len() && parse_cond(word_views(words@), i as int) == Some((a@, (j - i) as nat)),
            None => parse_cond(word_views(words@), i as int) is None,
        },
    decreases words@.len() - i, 0nat,
{
    let n = words.len();
    assert(n == words@.len());
    let (c, j) = parse_iter(words, i + 1)?;
    if !word_at_is(words, j, "then") {
        return None;
    }
    let (b, k) = parse_iter(words, j + 1)?;
    if !word_at_is(words, k, "else") {
        return None;
    }
    let (e, l) = parse_iter(words, k + 1)?;
    Some((AST::Cond(Box::new(c), Box::new(b), Box::new(e)), l))
}

/// Parses the expression that the words begin with; words after it are ignored.
pub fn parse_words(words: &Vec<String>) -> (r: Option<AST>)
    ensures
        match r {
            Some(a) => parse_from(word_views(words@), 0) matches Some((t, _)) && a@ == t,
            None => parse_from(word_views(words@), 0) is None,
        },
{
    match parse_iter(words, 0) {
        Some((a, _)) => Some(a),
        None => None,
    }
}

/// Parses one line of source text.
pub fn parse(code: String) -> (r: Option<AST>)
    ensures
        match r {
            Some(a) => parse_from(whitespace_words(code@), 0) matches Some((t, _)) && a@ == t,
            None => parse_from(whitespace_words(code@), 0) is None,
        },
{
    let words = split_words(code.as_str());
    parse_words(&words)
}

/// Binds `name` in the current frame to the unevaluated expression that
/// `code` parses to; where `code` does not parse, nothing is bound and the
/// result is false.
pub fn builtin(env: &mut Env, name: &str, code: &str) -> (r: bool)
    requires
        old(env).wf(),
    ensures
        final(env).wf(),
        match parse_from(whitespace_words(code@), 0) {
            Some((t, _)) => r && final(env)@ == old(env)@.add_var(name@, t),
            None => !r && final(env)@ == old(env)@,
        },
{
    match parse(String::from_str(code)) {
        Some(a) => {
            env.add_var(String::from_str(name), a);
            true
        },
        None => false,
    }
}

/// The expression that starts at token `i` of `t`, and the number of tokens
/// it spans: the same prefix grammar as [`parse_from`] over lexer tokens.
pub open spec fn parse_tokens_from(t: Seq<Tok>, i: int) -> Option<(Term, nat)>
    decreases t.len() - i, 1nat,
{
    if i < 0 || i >= t.len() {
        None
    } else {
        match t[i] {
            Tok::Let => tok_binding(t, i),
            Tok::Def => tok_binding(t, i),
            Tok::Fn => tok_binding(t, i),
            Tok::At => tok_apply(t, i),
            Tok::If => tok_cond(t, i),
            Tok::Number(v) => Some((Term::Const(v), 1)),
            Tok::Symbol(s) => Some((Term::Lit(s), 1)),
            _ => None,
        }
    }
}

/// `let NAME = EXPR in EXPR`, `def NAME = EXPR` or `fn NAME -> EXPR` at token `i`.
pub open spec fn tok_binding(t: Seq<Tok>, i: int) -> Option<(Term, nat)>
    decreases t.len() - i, 0nat,
{
    let sep = if t[i] == Tok::Fn { Tok::Arrow } else { Tok::Equal };
    if 0 <= i && i + 2 < t.len() && t[i + 1] is Symbol && t[i + 2] == sep {
        let name = t[i + 1]->Symbol_0;
        match parse_tokens_from(t, i + 3) {
            Some((h, n1)) => {
                let j = i + 3 + n1;
                if t[i] == Tok::Def {
                    Some((Term::Def(name, Box::new(h)), (j - i) as nat))
                } else if t[i] == Tok::Fn {
                    Some((Term::Function(name, Box::new(h)), (j - i) as nat))
                } else if j < t.len() && t[j] == Tok::In {
                    match parse_tokens_from(t, j + 1) {
                        Some((b, n2)) => Some((Term::Let(name, Box::new(h), Box::new(b)), (j + 1 + n2 - i) as nat)),
                        None => None,
                    }
                } else {
                    None
                }
            },
            None => None,
        }
    } else {
        None
    }
}

/// `@ EXPR EXPR` at token `i`.
pub open spec fn tok_apply(t: Seq<Tok>, i: int) -> Option<(Term, nat)>
    decreases t.len() - i, 0nat,
{
    if 0 <= i < t.len() {
        match parse_tokens_from(t, i + 1) {
            Some((f, n1)) => {
                let j = i + 1 + n1;
                if j < t.len() {
                    match parse_tokens_from(t, j) {
                        Some((x, n2)) => Some((Term::Apply(Box::new(f), Box::new(x)), (j + n2 - i) as nat)),
                        None => None,
                    }
                } else {
                    None
                }
            },
            None => None,
        }
    } else {
        None
    }
}

/// `if EXPR then EXPR else EXPR` at token `i`.
pub open spec fn tok_cond(t: Seq<Tok>, i: int) -> Option<(Term, nat)>
    decreases t.len() - i, 0nat,
{
    if 0 <= i < t.len() {
        match parse_tokens_from(t, i + 1) {
            Some((c, n1)) => {
                let j = i + 1 + n1;
                if j < t.len() && t[j] == Tok::Then {
                    match parse_tokens_from(t, j + 1) {
                        Some((b, n2)) => {
                            let k = j + 1 + n2;
                            if k < t.len() && t[k] == Tok::Else {
                                match parse_tokens_from(t, k + 1) {
                                    Some((e, n3)) => Some((Term::Cond(Box::new(c), Box::new(b), Box::new(e)), (k + 1 + n3 - i) as nat)),
                                    None => None,
                                }
                            } else {
                                None
                            }
                        },
                        None => None,
                    }
                } else {
                    None
                }
            },
            None => None,
        }
    } else {
        None
    }
}

/// The name that token `i` holds, where it is a symbol.
pub fn parse_next_lit(tokens: &Vec<Token>, i: usize) -> (r: Option<String>)
    ensures
        match r {
            Some(s) => i < tokens@.len() && tokens@[i as int]@ == Tok::Symbol(s@),
            None => !(i < tokens@.len() && tokens@[i as int]@ is Symbol),
        },
{
    if i >= tokens.len() {
        return None;
    }
    match &tokens[i] {
        Token::Symbol(sym) => Some(sym.clone()),
        _ => None,
    }
}

/// Whether token `i` exists and is `expected`, a token without a payload.
fn token_at_is(tokens: &Vec<Token>, i: usize, expected: &Token) -> (r: bool)
    requires
        !(expected@ is Number) && !(expected@ is Symbol),
    ensures
        r == (i < tokens@.len() && toks(tokens@)[i as int] == expected@),
{
    if i >= tokens.len() {
        return false;
    }
    match (&tokens[i], expected) {
        (Token::Let, Token::Let) => true,
        (Token::Equal, Token::Equal) => true,
        (Token::In, Token::In) => true,
        (Token::Def, Token::Def) => true,
        (Token::At, Token::At) => true,
        (Token::Arrow, Token::Arrow) => true,
        (Token::Fn, Token::Fn) => true,
        (Token::If, Token::If) => true,
        (Token::Then, Token::Then) => true,
        (Token::Else, Token::Else) => true,
        _ => false,
    }
}

/// Parses the expression that starts at token `i`; gives it and the position after it.
pub fn parse_tokens(tokens: &Vec<Token>, i: usize) -> (r: Option<(AST, usize)>)
    ensures
        match r {
            Some((a, j)) => i < j <= tokens@.len() && parse_tokens_from(toks(tokens@), i as int) == Some((a@, (j - i) as nat)),
            None => parse_tokens_from(toks(tokens@), i as int) is None,
        },
    decreases tokens@.len() - i, 1nat,
{
    if i >= tokens.len() {
        return None;
    }
    match &tokens[i] {
        Token::Let | Token::Def | Token::Fn => tokens_binding_at(tokens, i),
        Token::At => tokens_apply_at(tokens, i),
        Token::If => tokens_cond_at(tokens, i),
        Token::Number(num) => Some((AST::Const(*num), i + 1)),
        Token::Symbol(sym) => Some((AST::Lit(sym.clone()), i + 1)),
        _ => None,
    }
}

fn tokens_binding_at(tokens: &Vec<Token>, i: usize) -> (r: Option<(AST, usize)>)
    requires
        i < tokens@.len(),
    ensures
        match r {
            Some((a, j)) => i < j <= tokens@.len() && tok_binding(toks(tokens@), i as int) == Some((a@, (j - i) as nat)),
            None => tok_binding(toks(tokens@), i as int) is None,
        },
    decreases tokens@.len() - i, 0nat,
{
    let n = tokens.len();
    let is_fn = token_at_is(tokens, i, &Token::Fn);
    let is_def = token_at_is(tokens, i, &Token::Def);
    let sep = if is_fn { Token::Arrow } else { Token::Equal };
    if n - i <= 2 || !token_at_is(tokens, i + 2, &sep) {
        return None;
    }
    let name = parse_next_lit(tokens, i + 1)?;
    let (h, j) = parse_tokens(tokens, i + 3)?;
    if is_def {
        Some((AST::Def(name, Box::new(h)), j))
    } else if is_fn {
        Some((AST::Function(name, Box::new(h)), j))
    } else if token_at_is(tokens, j, &Token::In) {
        let (b, k) = parse_tokens(tokens, j + 1)?;
        Some((AST::Let(name, Box::new(h), Box::new(b)), k))
    } else {
        None
    }
}

fn tokens_apply_at(tokens: &Vec<Token>, i: usize) -> (r: Option<(AST, usize)>)
    requires
        i < tokens@.len(),
    ensures
        match r {
            Some((a, j)) => i < j <= tokens@.len() && tok_apply(toks(tokens@), i as int) == Some((a@, (j - i) as nat)),
            None => tok_apply(toks(tokens@), i as int) is None,
        },
    decreases tokens@.len() - i, 0nat,
{
    let n = tokens.len();
    let (f, j) = parse_tokens(tokens, i + 1)?;
    if j >= n {
        return None;
    }
    let (x, k) = parse_tokens(tokens, j)?;
    Some((AST::Apply(Box::new(f), Box::new(x)), k))
}

fn tokens_cond_at(tokens: &Vec<Token>, i: usize) -> (r: Option<(AST, usize)>)
    requires
        i < tokens@.len(),
    ensures
        match r {
            Some((a, j)) => i < j <= tokens@.len() && tok_cond(toks(tokens@), i as int) == Some((a@, (j - i) as nat)),
            None => tok_cond(toks(tokens@), i as int) is None,
        },
    decreases tokens@.len() - i, 0nat,
{
    let n = tokens.len();
    let (c, j) = parse_tokens(tokens, i + 1)?;
    if !token_at_is(tokens, j, &Token::Then) {
        return None;
    }
    let (b, k) = parse_tokens(tokens, j + 1)?;
    if !token_at_is(tokens, k, &Token::Else) {
        return None;
    }
    let (e, l) = parse_tokens(tokens, k + 1)?;
    Some((AST::Cond(Box::new(c), Box::new(b), Box::new(e)), l))
}

} // verus!
