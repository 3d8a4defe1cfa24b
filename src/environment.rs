use vstd::prelude::*;

use crate::error::{runtime, ErrorKind, LoxError, LoxResult, RuntimeError};
use crate::token::Token;
use crate::value::{duplicate_result, model, result_model, Val, Value};

verus! {

/// The scopes of a chain, outermost first, each a map from name to its possibly absent value.
pub type Frames = Seq<Map<Seq<char>, Option<Val>>>;

/// The bindings of one scope: names with their optional value, each name at most once.
type Bindings = Vec<(String, Option<Value>)>;

/// One scope's bindings as a map from name to (possibly absent) value.
pub open spec fn bindings_map(e: Seq<(String, Option<Value>)>) -> Map<Seq<char>, Option<Val>>
    decreases e.len(),
{
    if e.len() == 0 {
        Map::empty()
    } else {
        bindings_map(e.drop_last()).insert(e.last().0@, model(e.last().1))
    }
}

pub open spec fn names_unique(e: Seq<(String, Option<Value>)>) -> bool {
    forall|i: int, j: int| 0 <= i < j < e.len() ==> e[i].0@ != e[j].0@
}

/// The value bound to `name` by the innermost scope of `frames` that binds it
/// (the last frame is the innermost), or `None` when no scope binds it.
pub open spec fn lookup(frames: Frames, name: Seq<char>) -> Option<Option<Val>>
    decreases frames.len(),
{
    if frames.len() == 0 {
        None
    } else if frames.last().contains_key(name) {
        Some(frames.last()[name])
    } else {
        lookup(frames.drop_last(), name)
    }
}

/// The frames after the innermost scope that binds `name` rebinds it to `v`,
/// or `None` when no scope binds it.
pub open spec fn assigned(
    frames: Frames,
    name: Seq<char>,
    v: Option<Val>,
) -> Option<Frames>
    decreases frames.len(),
{
    if frames.len() == 0 {
        None
    } else if frames.last().contains_key(name) {
        Some(frames.drop_last().push(frames.last().insert(name, v)))
    } else {
        match assigned(frames.drop_last(), name, v) {
            Some(f) => Some(f.push(frames.last())),
            None => None,
        }
    }
}

/// The frames after `name` is bound to `v` in the innermost scope.
pub open spec fn defined(
    frames: Frames,
    name: Seq<char>,
    v: Option<Val>,
) -> Frames
    recommends
        frames.len() > 0,
{
    frames.update(frames.len() - 1, frames.last().insert(name, v))
}

/// A name defined in the innermost scope of a chain is seen, with its value, from
/// that scope and from every scope nested in it that does not bind the name again.
pub proof fn lemma_get_sees_definition(frames: Frames, name: Seq<char>, v: Option<Val>, inner: Frames)
    requires
        frames.len() > 0,
        forall|i: int| 0 <= i < inner.len() ==> !(#[trigger] inner[i]).contains_key(name),
    ensures
        lookup(defined(frames, name, v) + inner, name) == Some(v),
    decreases inner.len(),
{
    let d = defined(frames, name, v);
    if inner.len() == 0 {
        assert(d + inner =~= d);
    } else {
        lemma_get_sees_definition(frames, name, v, inner.drop_last());
        assert((d + inner).drop_last() =~= d + inner.drop_last());
    }
}

proof fn lemma_assigned_sets(frames: Frames, name: Seq<char>, v: Option<Val>)
    requires
        lookup(frames, name) is Some,
    ensures
        assigned(frames, name, v) is Some,
        lookup(assigned(frames, name, v).unwrap(), name) == Some(v),
        assigned(frames, name, v).unwrap().len() == frames.len(),
    decreases frames.len(),
{
    if !frames.last().contains_key(name) {
        lemma_assigned_sets(frames.drop_last(), name, v);
        let f = assigned(frames.drop_last(), name, v).unwrap();
        assert(f.push(frames.last()).drop_last() =~= f);
    } else {
        let f = frames.drop_last().push(frames.last().insert(name, v));
        assert(f.last() == frames.last().insert(name, v));
    }
}

/// Assigning, from scopes nested inside a chain, to a name that the chain binds
/// rebinds it in the chain, as assignment on the chain alone would: the nested
/// scopes keep their bindings and gain none, and the name then reads as `v`.
pub proof fn lemma_assign_reaches_enclosing(outer: Frames, inner: Frames, name: Seq<char>, v: Option<Val>)
    requires
        lookup(outer, name) is Some,
        forall|i: int| 0 <= i < inner.len() ==> !(#[trigger] inner[i]).contains_key(name),
    ensures
        assigned(outer, name, v) is Some,
        assigned(outer + inner, name, v) == Some(assigned(outer, name, v).unwrap() + inner),
        lookup(assigned(outer + inner, name, v).unwrap(), name) == Some(v),
    decreases inner.len(),
{
    lemma_assigned_sets(outer, name, v);
    let a = assigned(outer, name, v).unwrap();
    if inner.len() == 0 {
        assert(outer + inner =~= outer);
        assert(a + inner =~= a);
    } else {
        lemma_assign_reaches_enclosing(outer, inner.drop_last(), name, v);
        assert((outer + inner).drop_last() =~= outer + inner.drop_last());
        assert((outer + inner).last() == inner.last());
        assert((a + inner.drop_last()).push(inner.last()) =~= a + inner);
        assert((a + inner).drop_last() =~= a + inner.drop_last());
    }
}

/// Assignment never creates a binding: where no scope of the chain binds the
/// name, from the innermost out to the outermost, it fails.
pub proof fn lemma_assign_undefined_fails(frames: Frames, name: Seq<char>, v: Option<Val>)
    requires
        lookup(frames, name) is None,
    ensures
        assigned(frames, name, v) is None,
    decreases frames.len(),
{
    if frames.len() > 0 {
        lemma_assign_undefined_fails(frames.drop_last(), name, v);
    }
}

proof fn lemma_bindings_find(e: Seq<(String, Option<Value>)>, i: int)
    requires
        names_unique(e),
        0 <= i < e.len(),
    ensures
        bindings_map(e).contains_key(e[i].0@),
        bindings_map(e)[e[i].0@] == model(e[i].1),
    decreases e.len(),
{
    if i < e.len() - 1 {
        lemma_bindings_find(e.drop_last(), i);
    }
}

proof fn lemma_bindings_absent(e: Seq<(String, Option<Value>)>, k: Seq<char>)
    requires
        forall|i: int| 0 <= i < e.len() ==> e[i].0@ != k,
    ensures
        !bindings_map(e).contains_key(k),
    decreases e.len(),
{
    if e.len() > 0 {
        lemma_bindings_absent(e.drop_last(), k);
    }
}

proof fn lemma_bindings_update(e: Seq<(String, Option<Value>)>, i: int, s: String, v: Option<Value>)
    requires
        names_unique(e),
        0 <= i < e.len(),
        e[i].0@ == s@,
    ensures
        bindings_map(e.update(i, (s, v))) == bindings_map(e).insert(s@, model(v)),
        names_unique(e.update(i, (s, v))),
    decreases e.len(),
{
    let u = e.update(i, (s, v));
    if i == e.len() - 1 {
        assert(u.drop_last() =~= e.drop_last());
        assert(bindings_map(u) =~= bindings_map(e).insert(s@, model(v)));
    } else {
        lemma_bindings_update(e.drop_last(), i, s, v);
        assert(u.drop_last() =~= e.drop_last().update(i, (s, v)));
        assert(bindings_map(u) =~= bindings_map(e).insert(s@, model(v)));
    }
}

proof fn lemma_lookup_found(frames: Frames, i: int, k: Seq<char>)
    requires
        0 <= i < frames.len(),
        frames[i].contains_key(k),
        forall|j: int| i < j < frames.len() ==> !frames[j].contains_key(k),
    ensures
        lookup(frames, k) == Some(frames[i][k]),
        assigned(frames, k, frames[i][k]) is Some,
    decreases frames.len(),
{
    if i < frames.len() - 1 {
        lemma_lookup_found(frames.drop_last(), i, k);
    }
}

proof fn lemma_assigned_found(
    frames: Frames,
    i: int,
    k: Seq<char>,
    v: Option<Val>,
)
    requires
        0 <= i < frames.len(),
        frames[i].contains_key(k),
        forall|j: int| i < j < frames.len() ==> !frames[j].contains_key(k),
    ensures
        assigned(frames, k, v) == Some(frames.update(i, frames[i].insert(k, v))),
    decreases frames.len(),
{
    if i < frames.len() - 1 {
        lemma_assigned_found(frames.drop_last(), i, k, v);
        assert(frames.drop_last().update(i, frames[i].insert(k, v)).push(frames.last())
            =~= frames.update(i, frames[i].insert(k, v)));
    } else {
        assert(frames.drop_last().push(frames.last().insert(k, v)) =~= frames.update(
            i,
            frames[i].insert(k, v),
        ));
    }
}

proof fn lemma_unbound(frames: Frames, k: Seq<char>, v: Option<Val>)
    requires
        forall|j: int| 0 <= j < frames.len() ==> !frames[j].contains_key(k),
    ensures
        lookup(frames, k) is None,
        assigned(frames, k, v) is None,
    decreases frames.len(),
{
    if frames.len() > 0 {
        lemma_unbound(frames.drop_last(), k, v);
    }
}

/// Index of the binding of `name` in `e`, if any.
fn find(e: &Bindings, name: &String) -> (r: Option<usize>)
    ensures
        match r {
            Some(i) => i < e@.len() && e@[i as int].0@ == name@,
            None => forall|i: int| 0 <= i < e@.len() ==> e@[i].0@ != name@,
        },
{
    let mut i: usize = 0;
    while i < e.len()
        invariant
            i <= e@.len(),
            forall|j: int| 0 <= j < i ==> e@[j].0@ != name@,
        decreases e@.len() - i,
    {
        if e[i].0 == *name {
            return Some(i);
        }
        i = i + 1;
    }
    None
}

/// A chain of nested scopes. The last scope is the innermost; each scope's
/// enclosing scope is the one before it.
pub struct Environment {
    scopes: Vec<Bindings>,
}

impl View for Environment {
    type V = Frames;

    closed spec fn view(&self) -> Self::V {
        Seq::new(self.scopes@.len(), |i: int| bindings_map(self.scopes@[i]@))
    }
}

impl Environment {
    /// The chain holds at least the outermost scope, and no scope binds a name twice.
    pub closed spec fn wf(&self) -> bool {
        &&& self.scopes@.len() >= 1
        &&& forall|i: int| 0 <= i < self.scopes@.len() ==> names_unique(#[trigger] self.scopes@[i]@)
    }

    pub proof fn lemma_wf_nonempty(&self)
        requires
            self.wf(),
        ensures
            self@.len() >= 1,
    {
    }

    /// A chain of one empty scope.
    pub fn new() -> (r: Environment)
        ensures
            r.wf(),
            r@ == seq![Map::<Seq<char>, Option<Val>>::empty()],
    {
        let r = Environment { scopes: vec![Vec::new()] };
        assert(r@ =~= seq![Map::<Seq<char>, Option<Val>>::empty()]) by {
            assert(bindings_map(r.scopes@[0]@) =~= Map::empty());
        }
        r
    }

    /// Binds `name` to `value` in the innermost scope, replacing any binding of
    /// `name` there; other scopes are untouched.
    pub fn define(&mut self, name: String, value: Option<Value>)
        requires
            old(self).wf(),
        ensures
            final(self).wf(),
            final(self)@ == defined(old(self)@, name@, model(value)),
            final(self)@.len() == old(self)@.len(),
    {
        let ghost k = name@;
        let mut top = self.scopes.pop().unwrap();
        let ghost old_top = top@;
        assert(old(self).scopes@[old(self).scopes@.len() - 1] == top);
        match find(&top, &name) {
            Some(j) => {
                proof {
                    lemma_bindings_update(top@, j as int, name, value);
                }
                top.set(j, (name, value));
            },
            None => {
                top.push((name, value));
                assert(top@.drop_last() =~= old_top);
            },
        }
        self.scopes.push(top);
        assert(self@ =~= defined(old(self)@, k, model(value)));
    }

    /// The value bound to the name of `name` by the innermost scope that binds it.
    pub fn get(&mut self, name: Token) -> (r: LoxResult<Option<Value>>)
        requires
            old(self).wf(),
        ensures
            *final(self) == *old(self),
            match lookup(old(self)@, name.lexeme@) {
                Some(v) => result_model(r) == Ok::<Option<Val>, LoxError>(v),
                None => r == Err::<Option<Value>, LoxError>(
                    runtime(name.line, ErrorKind::UndefinedVariable(name.lexeme)),
                ),
            },
    {
        let ghost frames = self@;
        let mut i: usize = self.scopes.len();
        while i > 0
            invariant
                i <= self.scopes@.len(),
                self.wf(),
                self@ == frames,
                forall|j: int| i <= j < frames.len() ==> !frames[j].contains_key(name.lexeme@),
            decreases i,
        {
            match find(&self.scopes[i - 1], &name.lexeme) {
                Some(j) => {
                    proof {
                        lemma_bindings_find(self.scopes@[i - 1]@, j as int);
                        lemma_lookup_found(frames, i - 1, name.lexeme@);
                    }
                    return Ok(duplicate_result(&self.scopes[i - 1][j].1));
                },
                None => {
                    proof {
                        lemma_bindings_absent(self.scopes@[i - 1]@, name.lexeme@);
                    }
                    i = i - 1;
                },
            }
        }
        proof {
            lemma_unbound(frames, name.lexeme@, None);
        }
        Err(LoxError::RunTime(RuntimeError { line: name.line, kind: ErrorKind::UndefinedVariable(name.lexeme) }))
    }

    /// Rebinds the name of `name` to `value` in the innermost scope that binds it;
    /// never creates a binding.
    pub fn assign(&mut self, name: Token, value: Option<Value>) -> (r: LoxResult<()>)
        requires
            old(self).wf(),
        ensures
            final(self).wf(),
            final(self)@.len() == old(self)@.len(),
            match assigned(old(self)@, name.lexeme@, model(value)) {
                Some(f) => r is Ok && final(self)@ == f,
                None => r == Err::<(), LoxError>(
                    runtime(name.line, ErrorKind::UndefinedVariable(name.lexeme)),
                ) && *final(self) == *old(self),
            },
    {
        let ghost frames = self@;
        let mut i: usize = self.scopes.len();
        while i > 0
            invariant
                i <= self.scopes@.len(),
                self.wf(),
                self@ == frames,
                *self == *old(self),
                forall|j: int| i <= j < frames.len() ==> !frames[j].contains_key(name.lexeme@),
            decreases i,
        {
            match find(&self.scopes[i - 1], &name.lexeme) {
                Some(j) => {
                    let ghost k = name.lexeme@;
                    proof {
                        lemma_bindings_find(self.scopes@[i - 1]@, j as int);
                        lemma_assigned_found(frames, i - 1, k, model(value));
                        lemma_bindings_update(self.scopes@[i - 1]@, j as int, name.lexeme, value);
                    }
                    let mut scope: Bindings = Vec::new();
                    self.scopes.set_and_swap(i - 1, &mut scope);
                    scope.set(j, (name.lexeme, value));
                    self.scopes.set_and_swap(i - 1, &mut scope);
                    assert(self@ =~= frames.update(i - 1, frames[i - 1].insert(k, model(value))));
                    return Ok(());
                },
                None => {
                    proof {
                        lemma_bindings_absent(self.scopes@[i - 1]@, name.lexeme@);
                    }
                    i = i - 1;
                },
            }
        }
        proof {
            lemma_unbound(frames, name.lexeme@, model(value));
        }
        Err(LoxError::RunTime(RuntimeError { line: name.line, kind: ErrorKind::UndefinedVariable(name.lexeme) }))
    }

    /// Enters a new, empty innermost scope enclosed by the current chain.
    pub fn push_scope(&mut self)
        requires
            old(self).wf(),
        ensures
            final(self).wf(),
            final(self)@ == old(self)@.push(Map::empty()),
    {
        self.scopes.push(Vec::new());
        assert(bindings_map(Seq::<(String, Option<Value>)>::empty()) =~= Map::empty());
        assert(self@ =~= old(self)@.push(Map::empty()));
    }

    /// Leaves the innermost scope, discarding its bindings.
    pub fn pop_scope(&mut self)
        requires
            old(self).wf(),
            old(self)@.len() > 1,
        ensures
            final(self).wf(),
            final(self)@ == old(self)@.drop_last(),
    {
        self.scopes.pop();
        assert(self@ =~= old(self)@.drop_last());
    }

    /// The number of scopes in the chain.
    pub fn depth(&self) -> (r: usize)
        ensures
            r == self@.len(),
    {
        self.scopes.len()
    }
}

} // verus!
