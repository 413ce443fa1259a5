use vstd::prelude::*;
use crate::ast::{AST, Term};
use crate::functions::Native;
use crate::table::{keys_unique, has_key, assoc, lemma_assoc_at, lemma_assoc_push, lemma_assoc_remove, lemma_assoc_agree};

verus! {

/// The key of a variable binding: the frame depth it lives at and its name.
pub struct EnvKey {
    frame: u8,
    name: String,
}

impl EnvKey {
    pub fn new(frame: u8, name: String) -> (r: EnvKey)
        ensures
            r.key() == (frame as int, name@),
    {
        EnvKey { frame: frame, name: name }
    }

    /// The model of the key: depth and name.
    pub closed spec fn key(&self) -> (int, Seq<char>) {
        (self.frame as int, self.name@)
    }
}

/// The model of an environment.
pub struct EnvModel {
    /// Bindings by (frame depth, name).
    pub vars: Map<(int, Seq<char>), Term>,
    /// Registered primitives by name.
    pub natives: Map<Seq<char>, Native>,
    /// The current frame depth; the outermost frame is 1.
    pub frames: int,
    pub debug: bool,
}

/// The binding that a lookup of `name` finds, searching depths `depth` down to 1.
pub open spec fn lookup_from(vars: Map<(int, Seq<char>), Term>, depth: int, name: Seq<char>) -> Option<Term>
    decreases depth,
{
    if depth <= 0 {
        None
    } else if vars.contains_key((depth, name)) {
        Some(vars[(depth, name)])
    } else {
        lookup_from(vars, depth - 1, name)
    }
}

/// The largest frame depth the counter can hold.
pub const MAX_FRAMES: u8 = 255;

impl EnvModel {
    /// What a variable lookup of `name` finds: the binding at the deepest frame
    /// from the current one down.
    pub open spec fn lookup(self, name: Seq<char>) -> Option<Term> {
        lookup_from(self.vars, self.frames, name)
    }

    /// `name` bound to `v` at the current frame, replacing any binding there.
    pub open spec fn add_var(self, name: Seq<char>, v: Term) -> EnvModel {
        EnvModel { vars: self.vars.insert((self.frames, name), v), ..self }
    }

    /// The binding of `name` at the current frame removed.
    pub open spec fn del_var(self, name: Seq<char>) -> EnvModel {
        EnvModel { vars: self.vars.remove((self.frames, name)), ..self }
    }

    pub open spec fn push(self) -> EnvModel {
        EnvModel { frames: self.frames + 1, ..self }
    }

    pub open spec fn pop(self) -> EnvModel {
        EnvModel { frames: self.frames - 1, ..self }
    }

    /// The valid states: a frame depth the counter can hold.
    pub open spec fn valid(self) -> bool {
        1 <= self.frames <= MAX_FRAMES
    }
}

pub closed spec fn var_key() -> spec_fn(EnvKey) -> (int, Seq<char>) {
    |k: EnvKey| k.key()
}

pub closed spec fn var_val() -> spec_fn(AST) -> Term {
    |a: AST| a@
}

pub closed spec fn native_key() -> spec_fn(String) -> Seq<char> {
    |s: String| s@
}

pub closed spec fn native_val() -> spec_fn(Native) -> Native {
    |n: Native| n
}

/// Variable bindings keyed by frame depth and name, and the registry of primitives.
pub struct Env {
    vars: Vec<(EnvKey, AST)>,
    natives: Vec<(String, Native)>,
    frames: u8,
    debug: bool,
}

impl View for Env {
    type V = EnvModel;

    closed spec fn view(&self) -> EnvModel {
        EnvModel {
            vars: assoc(self.vars@, var_key(), var_val()),
            natives: assoc(self.natives@, native_key(), native_val()),
            frames: self.frames as int,
            debug: self.debug,
        }
    }
}

impl Env {
    /// The representation invariant: keys are unique and the depth is at least 1.
    pub closed spec fn wf(&self) -> bool {
        &&& keys_unique(self.vars@, var_key())
        &&& keys_unique(self.natives@, native_key())
        &&& self.frames >= 1
    }

    pub proof fn lemma_valid(&self)
        requires
            self.wf(),
        ensures
            self@.valid(),
    {
    }

    pub fn new(debug: bool) -> (r: Env)
        ensures
            r.wf(),
            r@.vars.is_empty(),
            r@.natives.is_empty(),
            r@.frames == 1,
            r@.debug == debug,
    {
        let r = Env { vars: Vec::new(), natives: Vec::new(), frames: 1, debug: debug };
        proof {
            assert(assoc(r.vars@, var_key(), var_val()) =~= Map::empty());
            assert(assoc(r.natives@, native_key(), native_val()) =~= Map::empty());
        }
        r
    }

    pub fn debug(&self) -> (r: bool)
        ensures
            r == self@.debug,
    {
        self.debug
    }

    pub fn frames(&self) -> (r: u8)
        requires
            self.wf(),
        ensures
            r as int == self@.frames,
    {
        self.frames
    }

    pub fn frame_push(&mut self)
        requires
            old(self).wf(),
            old(self)@.frames < MAX_FRAMES,
        ensures
            final(self).wf(),
            final(self)@ == old(self)@.push(),
    {
        self.frames = self.frames + 1;
    }

    pub fn frame_pop(&mut self)
        requires
            old(self).wf(),
            old(self)@.frames > 1,
        ensures
            final(self).wf(),
            final(self)@ == old(self)@.pop(),
    {
        self.frames = self.frames - 1;
    }

    /// The index of the binding of `name` at depth `frame`, if there is one.
    fn find_var(&self, frame: u8, name: &String) -> (r: Option<usize>)
        requires
            self.wf(),
        ensures
            match r {
                Some(i) => i < self.vars@.len() && self.vars@[i as int].0.key() == (frame as int, name@),
                None => !has_key(self.vars@, var_key(), (frame as int, name@)),
            },
    {
        let mut i: usize = 0;
        while i < self.vars.len()
            invariant
                i <= self.vars@.len(),
                forall|j: int| 0 <= j < i ==> (#[trigger] self.vars@[j]).0.key() != (frame as int, name@),
            decreases self.vars@.len() - i,
        {
            if self.vars[i].0.frame == frame && self.vars[i].0.name == *name {
                return Some(i);
            }
            i = i + 1;
        }
        proof {
            assert forall|j: int| 0 <= j < self.vars@.len() implies var_key()(#[trigger] self.vars@[j].0) != (frame as int, name@) by {
                assert(self.vars@[j].0.key() != (frame as int, name@));
            }
        }
        None
    }

    pub fn add_var(&mut self, name: String, value: AST)
        requires
            old(self).wf(),
        ensures
            final(self).wf(),
            final(self)@ == old(self)@.add_var(name@, value@),
    {
        let ghost k = (self.frames as int, name@);
        match self.find_var(self.frames, &name) {
            Some(i) => {
                proof {
                    lemma_assoc_remove(self.vars@, var_key(), var_val(), i as int);
                }
                self.vars.remove(i);
            },
            None => {
                proof {
                    assert(assoc(self.vars@, var_key(), var_val()).remove(k) =~= assoc(self.vars@, var_key(), var_val()));
                }
            },
        }
        let ghost before = self.vars@;
        let key = EnvKey::new(self.frames, name);
        proof {
            assert(!has_key(before, var_key(), k)) by {
                if has_key(before, var_key(), k) {
                    let j = choose|j: int| 0 <= j < before.len() && var_key()(#[trigger] before[j].0) == k;
                    lemma_assoc_at(before, var_key(), var_val(), j);
                }
            }
            lemma_assoc_push(before, var_key(), var_val(), (key, value));
        }
        self.vars.push((key, value));
        proof {
            assert(self@.vars =~= old(self)@.vars.insert(k, value@));
        }
    }

    pub fn get_var(&self, name: String) -> (r: Option<&AST>)
        requires
            self.wf(),
        ensures
            match r {
                Some(a) => self@.lookup(name@) == Some(a@),
                None => self@.lookup(name@) is None,
            },
    {
        let mut i: u8 = self.frames;
        while i > 0
            invariant
                i <= self.frames,
                self.wf(),
                lookup_from(self@.vars, self@.frames, name@) == lookup_from(self@.vars, i as int, name@),
            decreases i,
        {
            match self.find_var(i, &name) {
                Some(j) => {
                    proof {
                        lemma_assoc_at(self.vars@, var_key(), var_val(), j as int);
                    }
                    return Some(&self.vars[j].1);
                },
                None => {},
            }
            i = i - 1;
        }
        None
    }

    pub fn del_var(&mut self, name: String)
        requires
            old(self).wf(),
        ensures
            final(self).wf(),
            final(self)@ == old(self)@.del_var(name@),
    {
        let ghost k = (self.frames as int, name@);
        match self.find_var(self.frames, &name) {
            Some(i) => {
                proof {
                    lemma_assoc_remove(self.vars@, var_key(), var_val(), i as int);
                }
                self.vars.remove(i);
            },
            None => {},
        }
        proof {
            assert(self@.vars =~= old(self)@.vars.remove(k));
        }
    }

    /// The index of the primitive registered as `name`, if there is one.
    fn find_native(&self, name: &String) -> (r: Option<usize>)
        requires
            self.wf(),
        ensures
            match r {
                Some(i) => i < self.natives@.len() && self.natives@[i as int].0@ == name@,
                None => !has_key(self.natives@, native_key(), name@),
            },
    {
        let mut i: usize = 0;
        while i < self.natives.len()
            invariant
                i <= self.natives@.len(),
                forall|j: int| 0 <= j < i ==> (#[trigger] self.natives@[j]).0@ != name@,
            decreases self.natives@.len() - i,
        {
            if self.natives[i].0 == *name {
                return Some(i);
            }
            i = i + 1;
        }
        proof {
            assert forall|j: int| 0 <= j < self.natives@.len() implies native_key()(#[trigger] self.natives@[j].0) != name@ by {
                assert(self.natives@[j].0@ != name@);
            }
        }
        None
    }

    /// Registers primitive `value` under `name`, replacing any earlier one.
    pub fn add_native(&mut self, name: String, value: Native)
        requires
            old(self).wf(),
        ensures
            final(self).wf(),
            final(self)@ == (EnvModel { natives: old(self)@.natives.insert(name@, value), ..old(self)@ }),
    {
        match self.find_native(&name) {
            Some(i) => {
                proof {
                    lemma_assoc_remove(self.natives@, native_key(), native_val(), i as int);
                }
                self.natives.remove(i);
            },
            None => {
                proof {
                    assert(assoc(self.natives@, native_key(), native_val()).remove(name@) =~= assoc(self.natives@, native_key(), native_val()));
                }
            },
        }
        let ghost before = self.natives@;
        proof {
            assert(!has_key(before, native_key(), name@)) by {
                if has_key(before, native_key(), name@) {
                    let j = choose|j: int| 0 <= j < before.len() && native_key()(#[trigger] before[j].0) == name@;
                    lemma_assoc_at(before, native_key(), native_val(), j);
                }
            }
            lemma_assoc_push(before, native_key(), native_val(), (name, value));
        }
        self.natives.push((name, value));
        proof {
            assert(self@.natives =~= old(self)@.natives.insert(name@, value));
        }
    }

    /// The primitive registered under `name`.
    pub fn get_native(&self, name: String) -> (r: Option<Native>)
        requires
            self.wf(),
        ensures
            match r {
                Some(n) => self@.natives.contains_key(name@) && self@.natives[name@] == n,
                None => !self@.natives.contains_key(name@),
            },
    {
        match self.find_native(&name) {
            Some(i) => {
                proof {
                    lemma_assoc_at(self.natives@, native_key(), native_val(), i as int);
                }
                Some(self.natives[i].1)
            },
            None => None,
        }
    }

    /// An independent copy of this environment, equal in every binding.
    pub fn snapshot(&self) -> (r: Env)
        requires
            self.wf(),
        ensures
            r.wf(),
            r@ == self@,
    {
        let mut vars: Vec<(EnvKey, AST)> = Vec::new();
        let mut i: usize = 0;
        while i < self.vars.len()
            invariant
                i <= self.vars@.len(),
                vars@.len() == i,
                forall|j: int| 0 <= j < i ==> (#[trigger] vars@[j]).0.key() == self.vars@[j].0.key(),
                forall|j: int| 0 <= j < i ==> (#[trigger] vars@[j]).1@ == self.vars@[j].1@,
            decreases self.vars@.len() - i,
        {
            let key = EnvKey::new(self.vars[i].0.frame, self.vars[i].0.name.clone());
            vars.push((key, self.vars[i].1.duplicate()));
            i = i + 1;
        }
        let mut natives: Vec<(String, Native)> = Vec::new();
        let mut i: usize = 0;
        while i < self.natives.len()
            invariant
                i <= self.natives@.len(),
                natives@.len() == i,
                forall|j: int| 0 <= j < i ==> (#[trigger] natives@[j]).0@ == self.natives@[j].0@,
                forall|j: int| 0 <= j < i ==> (#[trigger] natives@[j]).1 == self.natives@[j].1,
            decreases self.natives@.len() - i,
        {
            natives.push((self.natives[i].0.clone(), self.natives[i].1));
            i = i + 1;
        }
        proof {
            assert forall|j: int| 0 <= j < self.vars@.len() implies var_key()(#[trigger] self.vars@[j].0) == var_key()(vars@[j].0) by {
                assert(vars@[j].0.key() == self.vars@[j].0.key());
            }
            assert forall|j: int| 0 <= j < self.vars@.len() implies var_val()(#[trigger] self.vars@[j].1) == var_val()(vars@[j].1) by {
                assert(vars@[j].1@ == self.vars@[j].1@);
            }
            lemma_assoc_agree(self.vars@, vars@, var_key(), var_val());
            assert forall|j: int| 0 <= j < self.natives@.len() implies native_key()(#[trigger] self.natives@[j].0) == native_key()(natives@[j].0) by {
                assert(natives@[j].0@ == self.natives@[j].0@);
            }
            assert forall|j: int| 0 <= j < self.natives@.len() implies native_val()(#[trigger] self.natives@[j].1) == native_val()(natives@[j].1) by {
                assert(natives@[j].1 == self.natives@[j].1);
            }
            lemma_assoc_agree(self.natives@, natives@, native_key(), native_val());
        }
        Env { vars, natives, frames: self.frames, debug: self.debug }
    }
}

} // verus!
