use vstd::prelude::*;
use vstd::string::StringExecFns;

verus! {

/// A node of the language. The same type holds program text after parsing
/// and values after evaluation: a fully reduced node is itself a program.
#[derive(Debug, PartialEq, Eq)]
pub enum AST {
    Nil,
    Const(i64),
    Lit(String),
    Let(String, Box<AST>, Box<AST>),
    Def(String, Box<AST>),
    Function(String, Box<AST>),
    Apply(Box<AST>, Box<AST>),
    Native1(String, Box<AST>),
    Native2(String, Box<AST>, Box<AST>),
    Cond(Box<AST>, Box<AST>, Box<AST>),
}

/// The mathematical model of a node: the same tree, names as character sequences.
pub enum Term {
    Nil,
    Const(i64),
    Lit(Seq<char>),
    Let(Seq<char>, Box<Term>, Box<Term>),
    Def(Seq<char>, Box<Term>),
    Function(Seq<char>, Box<Term>),
    Apply(Box<Term>, Box<Term>),
    Native1(Seq<char>, Box<Term>),
    Native2(Seq<char>, Box<Term>, Box<Term>),
    Cond(Box<Term>, Box<Term>, Box<Term>),
}

pub open spec fn term_of(a: AST) -> Term
    decreases a,
{
    match a {
        AST::Nil => Term::Nil,
        AST::Const(v) => Term::Const(v),
        AST::Lit(s) => Term::Lit(s@),
        AST::Let(n, h, b) => Term::Let(n@, Box::new(term_of(*h)), Box::new(term_of(*b))),
        AST::Def(n, d) => Term::Def(n@, Box::new(term_of(*d))),
        AST::Function(p, b) => Term::Function(p@, Box::new(term_of(*b))),
        AST::Apply(f, x) => Term::Apply(Box::new(term_of(*f)), Box::new(term_of(*x))),
        AST::Native1(n, x) => Term::Native1(n@, Box::new(term_of(*x))),
        AST::Native2(n, x, y) => Term::Native2(
            n@,
            Box::new(term_of(*x)),
            Box::new(term_of(*y)),
        ),
        AST::Cond(c, t, e) => Term::Cond(
            Box::new(term_of(*c)),
            Box::new(term_of(*t)),
            Box::new(term_of(*e)),
        ),
    }
}

impl View for AST {
    type V = Term;

    open spec fn view(&self) -> Term {
        term_of(*self)
    }
}

/// The models of a sequence of nodes, element by element.
pub open spec fn terms(s: Seq<AST>) -> Seq<Term> {
    s.map_values(|a: AST| a@)
}

/// The name of the symbol that stands for truth.
pub open spec fn true_name() -> Seq<char> {
    seq!['t', 'r', 'u', 'e']
}

/// The name of the symbol that stands for falsehood.
pub open spec fn false_name() -> Seq<char> {
    seq!['f', 'a', 'l', 's', 'e']
}

pub open spec fn true_term() -> Term {
    Term::Lit(true_name())
}

pub open spec fn false_term() -> Term {
    Term::Lit(false_name())
}

/// The boolean value of the language for `b`.
pub open spec fn bool_term(b: bool) -> Term {
    if b {
        true_term()
    } else {
        false_term()
    }
}

impl AST {
    pub fn lit_true() -> (r: AST)
        ensures
            r@ == true_term(),
    {
        let s = String::from_str("true");
        proof {
            reveal_strlit("true");
            assert(s@ =~= true_name());
        }
        AST::Lit(s)
    }

    pub fn lit_false() -> (r: AST)
        ensures
            r@ == false_term(),
    {
        let s = String::from_str("false");
        proof {
            reveal_strlit("false");
            assert(s@ =~= false_name());
        }
        AST::Lit(s)
    }

    /// A fresh tree equal to this one.
    pub fn duplicate(&self) -> (r: AST)
        ensures
            r@ == self@,
        decreases self,
    {
        match self {
            AST::Nil => AST::Nil,
            AST::Const(v) => AST::Const(*v),
            AST::Lit(s) => AST::Lit(s.clone()),
            AST::Let(n, h, b) => AST::Let(n.clone(), Box::new(h.duplicate()), Box::new(b.duplicate())),
            AST::Def(n, d) => AST::Def(n.clone(), Box::new(d.duplicate())),
            AST::Function(p, b) => AST::Function(p.clone(), Box::new(b.duplicate())),
            AST::Apply(f, x) => AST::Apply(Box::new(f.duplicate()), Box::new(x.duplicate())),
            AST::Native1(n, x) => AST::Native1(n.clone(), Box::new(x.duplicate())),
            AST::Native2(n, x, y) => AST::Native2(
                n.clone(),
                Box::new(x.duplicate()),
                Box::new(y.duplicate()),
            ),
            AST::Cond(c, t, e) => AST::Cond(
                Box::new(c.duplicate()),
                Box::new(t.duplicate()),
                Box::new(e.duplicate()),
            ),
        }
    }

    /// Structural equality: same shape, same names, same integers.
    pub fn equals(&self, other: &AST) -> (r: bool)
        ensures
            r == (self@ == other@),
        decreases self,
    {
        match (self, other) {
            (AST::Nil, AST::Nil) => true,
            (AST::Const(a), AST::Const(b)) => *a == *b,
            (AST::Lit(a), AST::Lit(b)) => *a == *b,
            (AST::Let(n, h, b), AST::Let(n2, h2, b2)) => *n == *n2 && h.equals(h2) && b.equals(b2),
            (AST::Def(n, d), AST::Def(n2, d2)) => *n == *n2 && d.equals(d2),
            (AST::Function(p, b), AST::Function(p2, b2)) => *p == *p2 && b.equals(b2),
            (AST::Apply(f, x), AST::Apply(f2, x2)) => f.equals(f2) && x.equals(x2),
            (AST::Native1(n, x), AST::Native1(n2, x2)) => *n == *n2 && x.equals(x2),
            (AST::Native2(n, x, y), AST::Native2(n2, x2, y2)) => *n == *n2 && x.equals(x2)
                && y.equals(y2),
            (AST::Cond(c, t, e), AST::Cond(c2, t2, e2)) => c.equals(c2) && t.equals(t2) && e.equals(
                e2,
            ),
            _ => false,
        }
    }
}

} // verus!
