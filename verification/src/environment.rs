//! The store of variable bindings.

use crate::error::SchierkeError;
use crate::expression::{Expression, Term};
use vstd::prelude::*;
use vstd::std_specs::cmp::PartialEqSpecImpl;

verus! {

/// What an environment holds, as a mathematical value: a finite map from a
/// variable's name to the term that was last bound to it.
pub type Bindings = Map<Seq<char>, Term>;

/// A flat store of variables. A name is bound at most once, the order in
/// which names were bound plays no part, and a name that was never bound is
/// absent: reading it is an error, not a default value.
#[derive(Debug)]
pub struct Environment {
    variables: Vec<(String, Expression)>,
}

/// No name stands at two places of `variables`.
spec fn distinct_names(variables: Seq<(String, Expression)>) -> bool {
    forall|i: int, j: int|
        0 <= i < j < variables.len() ==> (#[trigger] variables[i]).0@ != (#[trigger] variables[j]).0@
}

/// Whether `name` stands at some place of `variables`.
spec fn names(variables: Seq<(String, Expression)>, name: Seq<char>) -> bool {
    exists|i: int| 0 <= i < variables.len() && (#[trigger] variables[i]).0@ == name
}

/// A place of `variables` at which `name` stands, where there is one.
spec fn place_of(variables: Seq<(String, Expression)>, name: Seq<char>) -> int {
    choose|i: int| 0 <= i < variables.len() && (#[trigger] variables[i]).0@ == name
}

/// The bindings that a list of named expressions stands for.
spec fn bindings_of(variables: Seq<(String, Expression)>) -> Bindings {
    Map::new(
        |name: Seq<char>| names(variables, name),
        |name: Seq<char>| variables[place_of(variables, name)].1@,
    )
}

/// In a list without repeated names, the entry at place `i` is the binding
/// of its name.
proof fn lemma_entry_is_binding(variables: Seq<(String, Expression)>, i: int)
    requires
        distinct_names(variables),
        0 <= i < variables.len(),
    ensures
        bindings_of(variables).contains_key(variables[i].0@),
        bindings_of(variables)[variables[i].0@] == variables[i].1@,
        place_of(variables, variables[i].0@) == i,
{
    let name = variables[i].0@;
    assert(names(variables, name));
    let at = place_of(variables, name);
    assert(0 <= at < variables.len() && variables[at].0@ == name);
    if at < i {
        assert(variables[at].0@ != variables[i].0@);
    }
    if i < at {
        assert(variables[i].0@ != variables[at].0@);
    }
}

/// A list without repeated names binds as many names as it is long.
proof fn lemma_bindings_len(variables: Seq<(String, Expression)>)
    requires
        distinct_names(variables),
    ensures
        bindings_of(variables).dom().finite(),
        bindings_of(variables).dom().len() == variables.len(),
    decreases variables.len(),
{
    let bound = bindings_of(variables).dom();
    if variables.len() == 0 {
        assert(bound =~= Set::<Seq<char>>::empty());
    } else {
        let front = variables.drop_last();
        let last = variables.last();
        assert forall|i: int, j: int| 0 <= i < j < front.len() implies (#[trigger] front[i]).0@ != (
        #[trigger] front[j]).0@ by {
            assert(front[i] == variables[i]);
            assert(front[j] == variables[j]);
        }
        lemma_bindings_len(front);
        let before = bindings_of(front).dom();
        assert(!before.contains(last.0@)) by {
            if names(front, last.0@) {
                let i = place_of(front, last.0@);
                assert(front[i] == variables[i]);
                assert(variables[i].0@ != variables[variables.len() - 1].0@);
            }
        }
        assert(bound =~= before.insert(last.0@)) by {
            assert forall|name: Seq<char>| bound.contains(name) implies before.insert(
                last.0@,
            ).contains(name) by {
                let i = place_of(variables, name);
                if i < front.len() {
                    assert(front[i] == variables[i]);
                    assert(names(front, name));
                }
            }
            assert forall|name: Seq<char>| before.insert(last.0@).contains(name) implies bound.contains(
                name,
            ) by {
                if name == last.0@ {
                    assert(variables[variables.len() - 1].0@ == name);
                } else {
                    let i = place_of(front, name);
                    assert(front[i] == variables[i]);
                    assert(variables[i].0@ == name);
                }
            }
        }
    }
}

/// Putting another value at the place of a name binds that name anew and
/// leaves every other binding as it was.
proof fn lemma_rebind(
    before: Seq<(String, Expression)>,
    after: Seq<(String, Expression)>,
    i: int,
    value: Term,
)
    requires
        distinct_names(before),
        0 <= i < before.len(),
        after.len() == before.len(),
        after[i].0@ == before[i].0@,
        after[i].1@ == value,
        forall|a: int| 0 <= a < before.len() && a != i ==> after[a] == before[a],
    ensures
        distinct_names(after),
        bindings_of(after) == bindings_of(before).insert(before[i].0@, value),
{
    let key = before[i].0@;
    assert forall|a: int, b: int| 0 <= a < b < after.len() implies (#[trigger] after[a]).0@ != (
    #[trigger] after[b]).0@ by {
        assert(after[a].0@ == before[a].0@);
        assert(after[b].0@ == before[b].0@);
    }
    assert forall|other: Seq<char>| names(after, other) <==> names(before, other) || other
        == key by {
        if names(after, other) {
            let a = place_of(after, other);
            assert(before[a].0@ == other);
        }
        if names(before, other) {
            let a = place_of(before, other);
            assert(after[a].0@ == other);
        }
        if other == key {
            assert(after[i].0@ == other);
        }
    }
    assert forall|other: Seq<char>| names(after, other) implies bindings_of(after)[other]
        == bindings_of(before).insert(key, value)[other] by {
        let a = place_of(after, other);
        lemma_entry_is_binding(after, a);
        if other != key {
            assert(before[a].0@ == other);
            lemma_entry_is_binding(before, a);
        }
    }
    assert(bindings_of(after) =~= bindings_of(before).insert(key, value));
}

/// Putting a name that was not bound at the end binds it and leaves every
/// other binding as it was.
proof fn lemma_bind(
    before: Seq<(String, Expression)>,
    after: Seq<(String, Expression)>,
    value: Term,
)
    requires
        distinct_names(before),
        after.len() == before.len() + 1,
        !names(before, after.last().0@),
        after.last().1@ == value,
        forall|a: int| 0 <= a < before.len() ==> after[a] == before[a],
    ensures
        distinct_names(after),
        bindings_of(after) == bindings_of(before).insert(after.last().0@, value),
{
    let n = before.len() as int;
    let key = after.last().0@;
    assert forall|a: int, b: int| 0 <= a < b < after.len() implies (#[trigger] after[a]).0@ != (
    #[trigger] after[b]).0@ by {
        assert(after[a] == before[a]);
        if b < n {
            assert(after[b] == before[b]);
        } else {
            assert(before[a].0@ != key);
        }
    }
    assert forall|other: Seq<char>| names(after, other) <==> names(before, other) || other
        == key by {
        if names(after, other) {
            let a = place_of(after, other);
            if a < n {
                assert(before[a] == after[a]);
            }
        }
        if names(before, other) {
            let a = place_of(before, other);
            assert(after[a] == before[a]);
        }
        if other == key {
            assert(after[n].0@ == other);
        }
    }
    assert forall|other: Seq<char>| names(after, other) implies bindings_of(after)[other]
        == bindings_of(before).insert(key, value)[other] by {
        let a = place_of(after, other);
        lemma_entry_is_binding(after, a);
        if other != key {
            assert(before[a] == after[a]);
            lemma_entry_is_binding(before, a);
        }
    }
    assert(bindings_of(after) =~= bindings_of(before).insert(key, value));
}

impl View for Environment {
    type V = Bindings;

    closed spec fn view(&self) -> Bindings {
        bindings_of(self.variables@)
    }
}

impl Environment {
    #[verifier::type_invariant]
    spec fn well_formed(self) -> bool {
        distinct_names(self.variables@)
    }

    /// The place at which `name` is bound, if it is bound.
    fn find(&self, name: &String) -> (place: Option<usize>)
        ensures
            match place {
                Some(i) => i < self.variables.len() && self.variables[i as int].0@ == name@,
                None => !names(self.variables@, name@),
            },
    {
        let mut i: usize = 0;
        while i < self.variables.len()
            invariant
                i <= self.variables.len(),
                forall|j: int| 0 <= j < i ==> (#[trigger] self.variables[j]).0@ != name@,
            decreases self.variables.len() - i,
        {
            if self.variables[i].0 == *name {
                return Some(i);
            }
            i += 1;
        }
        None
    }

    /// The environment that is given, or an empty one where none is.
    pub fn new(env: Option<Environment>) -> (made: Environment)
        ensures
            made@ == match env {
                Some(given) => given@,
                None => Map::empty(),
            },
    {
        match env {
            Some(given) => given,
            None => Default::default(),
        }
    }

    /// Binds the variable that `name` is the text of to `value`, in place of
    /// what it was bound to before, and hands `value` back.
    pub fn define(&mut self, name: Expression, value: Expression) -> (bound: Expression)
        ensures
            final(self)@ == old(self)@.insert(name@.render(), value@),
            bound == value,
    {
        proof {
            use_type_invariant(&*self);
        }
        let key = name.to_string();
        let ghost before = self.variables@;
        let place = self.find(&key);
        let mut variables: Vec<(String, Expression)> = Vec::new();
        core::mem::swap(&mut self.variables, &mut variables);
        match place {
            Some(i) => {
                variables.set(i, (key, value.clone()));
                proof {
                    lemma_rebind(before, variables@, i as int, value@);
                }
            },
            None => {
                variables.push((key, value.clone()));
                proof {
                    lemma_bind(before, variables@, value@);
                }
            },
        }
        self.variables = variables;
        value
    }

    /// What `name` is bound to, or `UndefinedVariable` where it is not
    /// bound. Names are compared character by character.
    pub fn lookup(&self, name: String) -> (found: Result<Expression, SchierkeError>)
        ensures
            match found {
                Ok(value) => self@.contains_key(name@) && value@ == self@[name@],
                Err(error) => !self@.contains_key(name@) && error == SchierkeError::UndefinedVariable,
            },
    {
        proof {
            use_type_invariant(self);
        }
        match self.find(&name) {
            Some(i) => {
                proof {
                    lemma_entry_is_binding(self.variables@, i as int);
                }
                Ok(self.variables[i].1.clone())
            },
            None => Err(SchierkeError::UndefinedVariable),
        }
    }

    /// Replaces every binding by those of `env`: what was bound here before
    /// is lost, also where `env` does not bind the name.
    pub fn load(&mut self, env: Environment)
        ensures
            final(self)@ == env@,
    {
        proof {
            use_type_invariant(&env);
        }
        self.variables = env.variables;
    }
}

impl Default for Environment {
    /// The environment that binds nothing.
    fn default() -> (made: Environment)
        ensures
            made@ == Map::<Seq<char>, Term>::empty(),
    {
        let made = Environment { variables: Vec::new() };
        assert(made@ =~= Map::<Seq<char>, Term>::empty());
        made
    }
}

impl Clone for Environment {
    /// An environment of its own with the same bindings.
    fn clone(&self) -> (copy: Environment)
        ensures
            copy@ == self@,
    {
        proof {
            use_type_invariant(self);
        }
        let mut variables: Vec<(String, Expression)> = Vec::new();
        let mut i: usize = 0;
        while i < self.variables.len()
            invariant
                i <= self.variables.len(),
                variables.len() == i,
                forall|j: int|
                    0 <= j < i ==> (#[trigger] variables[j]).0@ == self.variables[j].0@
                        && variables[j].1@ == self.variables[j].1@,
            decreases self.variables.len() - i,
        {
            let name = self.variables[i].0.clone();
            let value = self.variables[i].1.clone();
            variables.push((name, value));
            i += 1;
        }
        proof {
            let mine = self.variables@;
            let theirs = variables@;
            assert forall|other: Seq<char>| names(theirs, other) <==> names(mine, other) by {
                if names(theirs, other) {
                    let a = place_of(theirs, other);
                    assert(mine[a].0@ == other);
                }
                if names(mine, other) {
                    let a = place_of(mine, other);
                    assert(theirs[a].0@ == other);
                }
            }
            assert forall|other: Seq<char>| names(theirs, other) implies bindings_of(theirs)[other]
                == bindings_of(mine)[other] by {
                let a = place_of(theirs, other);
                assert(mine[a].0@ == other);
                lemma_entry_is_binding(theirs, a);
                lemma_entry_is_binding(mine, a);
            }
            assert(bindings_of(theirs) =~= bindings_of(mine));
        }
        Environment { variables }
    }
}

impl Environment {
    /// Whether every binding of `self` is a binding of `other` too.
    fn within(&self, other: &Environment) -> (within: bool)
        ensures
            within == (forall|name: Seq<char>| #[trigger]
                self@.contains_key(name) ==> other@.contains_key(name) && other@[name]
                    == self@[name]),
    {
        proof {
            use_type_invariant(self);
            use_type_invariant(other);
        }
        let mut i: usize = 0;
        while i < self.variables.len()
            invariant
                i <= self.variables.len(),
                distinct_names(self.variables@),
                distinct_names(other.variables@),
                forall|j: int|
                    0 <= j < i ==> other@.contains_key((#[trigger] self.variables[j]).0@)
                        && other@[self.variables[j].0@] == self.variables[j].1@,
            decreases self.variables.len() - i,
        {
            let matched = match other.find(&self.variables[i].0) {
                Some(at) => {
                    proof {
                        lemma_entry_is_binding(other.variables@, at as int);
                    }
                    self.variables[i].1 == other.variables[at].1
                },
                None => false,
            };
            if !matched {
                proof {
                    lemma_entry_is_binding(self.variables@, i as int);
                    assert(self@.contains_key(self.variables[i as int].0@));
                }
                return false;
            }
            i += 1;
        }
        proof {
            assert forall|name: Seq<char>| #[trigger]
                self@.contains_key(name) implies other@.contains_key(name) && other@[name]
                == self@[name] by {
                let at = place_of(self.variables@, name);
                lemma_entry_is_binding(self.variables@, at);
            }
        }
        true
    }
}

impl PartialEq for Environment {
    /// Two environments are equal where they bind the same names to equal
    /// values, in whatever order the names were bound.
    fn eq(&self, other: &Environment) -> (same: bool) {
        proof {
            use_type_invariant(self);
            use_type_invariant(other);
            lemma_bindings_len(self.variables@);
            lemma_bindings_len(other.variables@);
        }
        if self.variables.len() != other.variables.len() {
            return false;
        }
        let within = self.within(other);
        proof {
            if within {
                assert(self@.dom().subset_of(other@.dom())) by {
                    assert forall|name: Seq<char>| self@.dom().contains(name) implies other@.dom().contains(
                        name,
                    ) by {
                        assert(self@.contains_key(name));
                    }
                }
                vstd::set_lib::lemma_subset_equality(self@.dom(), other@.dom());
                assert(self@ =~= other@) by {
                    assert forall|name: Seq<char>| self@.dom().contains(name) implies self@[name]
                        == other@[name] by {
                        assert(self@.contains_key(name));
                    }
                }
            }
        }
        within
    }
}

impl PartialEqSpecImpl for Environment {
    open spec fn obeys_eq_spec() -> bool {
        true
    }

    open spec fn eq_spec(&self, other: &Environment) -> bool {
        self@ == other@
    }
}

} // verus!
