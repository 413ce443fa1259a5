use vstd::prelude::*;
use vstd::string::StrSliceExecFns;
use crate::text::{ascii_ws, chars_of, i64_of, is_ascii_ws, parse_i64, string_of_chars};

verus! {

/// A lexical token.
#[derive(Debug, PartialEq, Eq)]
pub enum Token {
    Let,
    Equal,
    In,
    Def,
    At,
    Arrow,
    Fn,
    If,
    Then,
    Else,
    Number(i64),
    Symbol(String),
}

/// The model of a [`Token`].
pub enum Tok {
    Let,
    Equal,
    In,
    Def,
    At,
    Arrow,
    Fn,
    If,
    Then,
    Else,
    Number(i64),
    Symbol(Seq<char>),
}

impl View for Token {
    type V = Tok;

    open spec fn view(&self) -> Tok {
        match self {
            Token::Let => Tok::Let,
            Token::Equal => Tok::Equal,
            Token::In => Tok::In,
            Token::Def => Tok::Def,
            Token::At => Tok::At,
            Token::Arrow => Tok::Arrow,
            Token::Fn => Tok::Fn,
            Token::If => Tok::If,
            Token::Then => Tok::Then,
            Token::Else => Tok::Else,
            Token::Number(v) => Tok::Number(*v),
            Token::Symbol(s) => Tok::Symbol(s@),
        }
    }
}

pub open spec fn toks(v: Seq<Token>) -> Seq<Tok> {
    v.map_values(|t: Token| t@)
}

/// `w` stands in `s` at position `i`.
pub open spec fn word_at(s: Seq<char>, i: int, w: Seq<char>) -> bool {
    0 <= i && i + w.len() <= s.len() && s.subrange(i, i + w.len()) == w
}

/// Keyword `w` stands at `i`, followed by whitespace.
pub open spec fn keyword_at(s: Seq<char>, i: int, w: Seq<char>) -> bool {
    word_at(s, i, w) && i + w.len() < s.len() && is_ascii_ws(s[i + w.len()])
}

/// The end of the run of non-whitespace characters that starts at `i`.
pub open spec fn symbol_end(s: Seq<char>, i: int) -> int
    decreases s.len() - i,
{
    if i < 0 || i >= s.len() || is_ascii_ws(s[i]) {
        i
    } else {
        symbol_end(s, i + 1)
    }
}

pub proof fn lemma_symbol_end(s: Seq<char>, i: int)
    requires
        0 <= i <= s.len(),
    ensures
        i <= symbol_end(s, i) <= s.len(),
        forall|k: int| i <= k < symbol_end(s, i) ==> !is_ascii_ws(#[trigger] s[k]),
        symbol_end(s, i) < s.len() ==> is_ascii_ws(s[symbol_end(s, i)]),
    decreases s.len() - i,
{
    if i < s.len() && !is_ascii_ws(s[i]) {
        lemma_symbol_end(s, i + 1);
    }
}

/// A number where the word reads as one, else a symbol.
pub open spec fn atom(w: Seq<char>) -> Tok {
    match i64_of(w) {
        Some(v) => Tok::Number(v),
        None => Tok::Symbol(w),
    }
}

pub open spec fn cons(t: Tok, rest: Option<Seq<Tok>>) -> Option<Seq<Tok>> {
    match rest {
        Some(r) => Some(seq![t] + r),
        None => None,
    }
}

pub open spec fn kw_def() -> Seq<char> { seq!['d', 'e', 'f'] }
pub open spec fn kw_else() -> Seq<char> { seq!['e', 'l', 's', 'e'] }
pub open spec fn kw_fn() -> Seq<char> { seq!['f', 'n'] }
pub open spec fn kw_let() -> Seq<char> { seq!['l', 'e', 't'] }
pub open spec fn kw_then() -> Seq<char> { seq!['t', 'h', 'e', 'n'] }
pub open spec fn kw_arrow() -> Seq<char> { seq!['-', '>'] }

/// The characters that start a keyword that must be followed by whitespace.
pub open spec fn starts_keyword(c: char) -> bool {
    c == 'd' || c == 'e' || c == 'f' || c == 'l' || c == 't'
}

/// The keyword that starts with `c`.
pub open spec fn keyword_of(c: char) -> Seq<char> {
    if c == 'd' {
        kw_def()
    } else if c == 'e' {
        kw_else()
    } else if c == 'f' {
        kw_fn()
    } else if c == 'l' {
        kw_let()
    } else {
        kw_then()
    }
}

/// The token of the keyword that starts with `c`.
pub open spec fn keyword_tok(c: char) -> Tok {
    if c == 'd' {
        Tok::Def
    } else if c == 'e' {
        Tok::Else
    } else if c == 'f' {
        Tok::Fn
    } else if c == 'l' {
        Tok::Let
    } else {
        Tok::Then
    }
}

/// The tokens of `s` from position `i` on, or `None` where the text breaks a
/// keyword: a character that starts a keyword (`d e f i l t -`) must begin
/// that keyword, followed by whitespace (`->` needs none); any other run of
/// non-whitespace is a number or a symbol.
pub open spec fn lex_from(s: Seq<char>, i: int) -> Option<Seq<Tok>>
    decreases s.len() - i,
{
    if i < 0 || i >= s.len() {
        Some(seq![])
    } else {
        let c = s[i];
        if is_ascii_ws(c) {
            lex_from(s, i + 1)
        } else if c == '=' {
            cons(Tok::Equal, lex_from(s, i + 1))
        } else if c == '@' {
            cons(Tok::At, lex_from(s, i + 1))
        } else if c == '-' {
            if word_at(s, i, kw_arrow()) {
                cons(Tok::Arrow, lex_from(s, i + 2))
            } else {
                None
            }
        } else if starts_keyword(c) {
            if keyword_at(s, i, keyword_of(c)) {
                cons(keyword_tok(c), lex_from(s, i + keyword_of(c).len() + 1))
            } else {
                None
            }
        } else if c == 'i' {
            if i + 1 >= s.len() {
                None
            } else if s[i + 1] == 'f' || s[i + 1] == 'n' {
                if i + 2 < s.len() && is_ascii_ws(s[i + 2]) {
                    cons(if s[i + 1] == 'f' { Tok::If } else { Tok::In }, lex_from(s, i + 3))
                } else {
                    None
                }
            } else {
                lex_from(s, i + 2)
            }
        } else {
            proof {
                lemma_symbol_end(s, i);
            }
            let j = symbol_end(s, i);
            cons(atom(s.subrange(i, j)), lex_from(s, if j < s.len() { j + 1 } else { j }))
        }
    }
}

/// The tokens of a text.
pub open spec fn lex_spec(s: Seq<char>) -> Option<Seq<Tok>> {
    lex_from(s, 0)
}

/// The position after `w` where `w` stands at `i`.
fn word(chars: &Vec<char>, i: usize, w: &str) -> (r: Option<usize>)
    requires
        i <= chars@.len(),
    ensures
        match r {
            Some(j) => word_at(chars@, i as int, w@) && j == i + w@.len(),
            None => !word_at(chars@, i as int, w@),
        },
{
    let m = w.unicode_len();
    let len = chars.len();
    let mut k: usize = 0;
    while k < m
        invariant
            m == w@.len(),
            len == chars@.len(),
            k <= m,
            i + k <= chars@.len(),
            chars@.subrange(i as int, i + k) == w@.subrange(0, k as int),
        decreases m - k,
    {
        if k >= chars.len() - i || chars[i + k] != w.get_char(k) {
            proof {
                if i + m <= chars@.len() {
                    assert(chars@.subrange(i as int, i + m)[k as int] == chars@[i + k]);
                }
            }
            return None;
        }
        proof {
            assert(chars@.subrange(i as int, i + k + 1) =~= chars@.subrange(i as int, i + k).push(chars@[i + k]));
            assert(w@.subrange(0, k + 1) =~= w@.subrange(0, k as int).push(w@[k as int]));
        }
        k = k + 1;
    }
    proof {
        assert(w@.subrange(0, m as int) =~= w@);
    }
    Some(i + k)
}

/// The position after the whitespace character at `i`.
fn space(chars: &Vec<char>, i: usize) -> (r: Option<usize>)
    ensures
        match r {
            Some(j) => i < chars@.len() && is_ascii_ws(chars@[i as int]) && j == i + 1,
            None => !(i < chars@.len() && is_ascii_ws(chars@[i as int])),
        },
{
    if i < chars.len() && ascii_ws(chars[i]) {
        Some(i + 1)
    } else {
        None
    }
}

/// The position after keyword `w` at `i` and the whitespace that follows it.
fn keyword(chars: &Vec<char>, i: usize, w: &str) -> (r: Option<usize>)
    requires
        i <= chars@.len(),
    ensures
        match r {
            Some(j) => keyword_at(chars@, i as int, w@) && j == i + w@.len() + 1,
            None => !keyword_at(chars@, i as int, w@),
        },
{
    match word(chars, i, w) {
        Some(j) => space(chars, j),
        None => None,
    }
}

/// Splits a text into tokens.
pub fn lex(input: &str) -> (r: Option<Vec<Token>>)
    ensures
        match r {
            Some(v) => lex_spec(input@) == Some(toks(v@)),
            None => lex_spec(input@) is None,
        },
{
    let chars = chars_of(input);
    let ghost s = chars@;
    let n = chars.len();
    let mut tokens: Vec<Token> = Vec::new();
    let mut i: usize = 0;
    proof {
        reveal_strlit("def");
        reveal_strlit("else");
        reveal_strlit("fn");
        reveal_strlit("let");
        reveal_strlit("then");
        reveal_strlit("->");
        assert("def"@ =~= kw_def());
        assert("else"@ =~= kw_else());
        assert("fn"@ =~= kw_fn());
        assert("let"@ =~= kw_let());
        assert("then"@ =~= kw_then());
        assert("->"@ =~= kw_arrow());
        assert(toks(tokens@) + lex_from(s, 0)->0 =~= lex_from(s, 0)->0);
    }
    while i < n
        invariant
            i <= n,
            n == s.len(),
            s == chars@,
            s == input@,
            "def"@ == kw_def(),
            "else"@ == kw_else(),
            "fn"@ == kw_fn(),
            "let"@ == kw_let(),
            "then"@ == kw_then(),
            "->"@ == kw_arrow(),
            lex_from(s, 0) == match lex_from(s, i as int) {
                Some(r) => Some(toks(tokens@) + r),
                None => None,
            },
        decreases n - i,
    {
        let ghost before = toks(tokens@);
        let c = chars[i];
        let mut tok: Option<Token> = None;
        let next: usize;
        if ascii_ws(c) {
            next = i + 1;
        } else if c == '=' {
            tok = Some(Token::Equal);
            next = i + 1;
        } else if c == '@' {
            tok = Some(Token::At);
            next = i + 1;
        } else if c == '-' {
            match word(&chars, i, "->") {
                Some(j) => {
                    tok = Some(Token::Arrow);
                    next = j;
                },
                None => return None,
            }
        } else if c == 'd' || c == 'e' || c == 'f' || c == 'l' || c == 't' {
            let w = if c == 'd' {
                "def"
            } else if c == 'e' {
                "else"
            } else if c == 'f' {
                "fn"
            } else if c == 'l' {
                "let"
            } else {
                "then"
            };
            match keyword(&chars, i, w) {
                Some(j) => {
                    tok = Some(
                        if c == 'd' {
                            Token::Def
                        } else if c == 'e' {
                            Token::Else
                        } else if c == 'f' {
                            Token::Fn
                        } else if c == 'l' {
                            Token::Let
                        } else {
                            Token::Then
                        },
                    );
                    next = j;
                },
                None => return None,
            }
        } else if c == 'i' {
            if i + 1 >= n {
                return None;
            }
            let c2 = chars[i + 1];
            if c2 == 'f' || c2 == 'n' {
                match space(&chars, i + 2) {
                    Some(j) => {
                        tok = Some(if c2 == 'f' { Token::If } else { Token::In });
                        next = j;
                    },
                    None => return None,
                }
            } else {
                next = i + 2;
            }
        } else {
            let mut j: usize = i;
            let mut sym: Vec<char> = Vec::new();
            proof {
                lemma_symbol_end(s, i as int);
            }
            while j < n && !ascii_ws(chars[j])
                invariant
                    i <= j <= symbol_end(s, i as int) <= n,
                    n == s.len(),
                    s == chars@,
                    sym@ == s.subrange(i as int, j as int),
                    forall|k: int| i <= k < symbol_end(s, i as int) ==> !is_ascii_ws(#[trigger] s[k]),
                    symbol_end(s, i as int) < n ==> is_ascii_ws(s[symbol_end(s, i as int)]),
                decreases n - j,
            {
                sym.push(chars[j]);
                j = j + 1;
                proof {
                    assert(sym@ =~= s.subrange(i as int, j as int));
                }
            }
            assert(j == symbol_end(s, i as int));
            tok = Some(
                match parse_i64(&sym) {
                    Some(v) => Token::Number(v),
                    None => Token::Symbol(string_of_chars(&sym)),
                },
            );
            next = if j < n { j + 1 } else { j };
        }
        match tok {
            Some(t) => {
                tokens.push(t);
                proof {
                    assert(toks(tokens@) =~= before.push(t@));
                    match lex_from(s, next as int) {
                        Some(r) => {
                            assert(toks(tokens@) + r =~= before + (seq![t@] + r));
                        },
                        None => {},
                    }
                }
            },
            None => {},
        }
        i = next;
    }
    proof {
        assert(toks(tokens@) + seq![] =~= toks(tokens@));
    }
    Some(tokens)
}

} // verus!
