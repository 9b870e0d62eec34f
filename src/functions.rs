use vstd::prelude::*;

use crate::errors::{Failure, RuntimeError};
use crate::interpreter::{outcome, Context};
use crate::variable::{views, Json, RcVar};

verus! {

/// A function that expressions can call by name. It receives its arguments
/// already evaluated, left to right, and the evaluation context. Its
/// outcome depends on the arguments alone.
pub trait Function: Sized {
    /// The outcome for arguments with the given models.
    spec fn spec_evaluate(&self, args: Seq<Json>) -> Result<Json, Failure>;

    fn evaluate(&self, args: Vec<RcVar>, ctx: &mut Context<Self>) -> (r: Result<
        RcVar,
        RuntimeError,
    >)
        ensures
            outcome(r) == self.spec_evaluate(views(args@)),
    ;
}

/// Functions that can be built from the name of a built-in function.
pub trait Builtins: Function {
    /// The built-in function named `name`.
    spec fn spec_builtin(name: Seq<char>) -> Self;

    fn builtin(name: &str) -> (r: Self)
        ensures
            r == Self::spec_builtin(name@),
    ;
}

/// A registry of functions by name.
pub struct Functions<F> {
    entries: Vec<(String, F)>,
    map: Ghost<Map<Seq<char>, F>>,
}

impl<F> View for Functions<F> {
    type V = Map<Seq<char>, F>;

    closed spec fn view(&self) -> Map<Seq<char>, F> {
        self.map@
    }
}

impl<F> Functions<F> {
    /// Names are unique and the entries are exactly the map.
    pub closed spec fn wf(&self) -> bool {
        &&& forall|i: int, j: int|
            0 <= i < j < self.entries@.len() ==> #[trigger] self.entries@[i].0@
                != #[trigger] self.entries@[j].0@
        &&& forall|i: int|
            0 <= i < self.entries@.len() ==> self.map@.contains_key(#[trigger] self.entries@[i].0@)
                && self.map@[self.entries@[i].0@] == self.entries@[i].1
        &&& forall|k: Seq<char>|
            #[trigger] self.map@.contains_key(k) ==> exists|i: int|
                0 <= i < self.entries@.len() && #[trigger] self.entries@[i].0@ == k
    }

    /// An empty registry.
    pub fn new() -> (r: Self)
        ensures
            r.wf(),
            r@ == Map::<Seq<char>, F>::empty(),
    {
        Functions { entries: Vec::new(), map: Ghost(Map::empty()) }
    }

    /// The position of `name`, if registered.
    fn position(&self, name: &str) -> (r: Option<usize>)
        requires
            self.wf(),
        ensures
            match r {
                Some(i) => i < self.entries@.len() && self.entries@[i as int].0@ == name@,
                None => !self@.contains_key(name@),
            },
    {
        let key = name.to_owned();
        let mut i: usize = 0;
        while i < self.entries.len()
            invariant
                i <= self.entries@.len(),
                key@ == name@,
                forall|j: int| 0 <= j < i ==> #[trigger] self.entries@[j].0@ != name@,
            decreases self.entries@.len() - i,
        {
            if self.entries[i].0.eq(&key) {
                return Some(i);
            }
            i = i + 1;
        }
        None
    }

    /// The function registered under `name`.
    pub fn get(&self, name: &str) -> (r: Option<&F>)
        requires
            self.wf(),
        ensures
            match r {
                Some(f) => self@.contains_key(name@) && *f == self@[name@],
                None => !self@.contains_key(name@),
            },
    {
        match self.position(name) {
            Some(i) => Some(&self.entries[i].1),
            None => None,
        }
    }

    /// Registers `f` under `name`, replacing what was registered there.
    pub fn insert(&mut self, name: &str, f: F)
        requires
            old(self).wf(),
        ensures
            final(self).wf(),
            final(self)@ == old(self)@.insert(name@, f),
    {
        let key = name.to_owned();
        let ghost at: int;
        match self.position(name) {
            Some(i) => {
                self.entries.set(i, (key, f));
                proof {
                    at = i as int;
                }
            },
            None => {
                self.entries.push((key, f));
                proof {
                    at = self.entries@.len() - 1;
                }
            },
        }
        self.map = Ghost(self.map@.insert(name@, f));
        proof {
            assert forall|k: Seq<char>| #[trigger] self.map@.contains_key(k) implies exists|i: int|
                0 <= i < self.entries@.len() && #[trigger] self.entries@[i].0@ == k by {
                if k != name@ {
                    let i = choose|i: int|
                        0 <= i < old(self).entries@.len() && #[trigger] old(self).entries@[i].0@
                            == k;
                    assert(self.entries@[i].0@ == k);
                } else {
                    assert(self.entries@[at].0@ == k);
                }
            }
        }
    }

    /// Removes the function registered under `name` and returns it.
    pub fn remove(&mut self, name: &str) -> (r: Option<F>)
        requires
            old(self).wf(),
        ensures
            final(self).wf(),
            final(self)@ == old(self)@.remove(name@),
            r == (if old(self)@.contains_key(name@) {
                Some(old(self)@[name@])
            } else {
                None
            }),
    {
        match self.position(name) {
            Some(i) => {
                let entry = self.entries.remove(i);
                self.map = Ghost(self.map@.remove(name@));
                proof {
                    let old_entries = old(self).entries@;
                    assert forall|j: int| 0 <= j < self.entries@.len() implies #[trigger] self.entries@[j]
                        == old_entries[if j < i { j } else { j + 1 }] by {}
                    assert forall|k: Seq<char>| #[trigger] self.map@.contains_key(k) implies exists|j: int|
                        0 <= j < self.entries@.len() && #[trigger] self.entries@[j].0@ == k by {
                        let j = choose|j: int|
                            0 <= j < old_entries.len() && #[trigger] old_entries[j].0@ == k;
                        if j < i {
                            assert(self.entries@[j].0@ == k);
                        } else {
                            assert(self.entries@[j - 1].0@ == k);
                        }
                    }
                    assert(self.map@ =~= old(self).map@.remove(name@));
                }
                Some(entry.1)
            },
            None => {
                proof {
                    assert(self.map@ =~= old(self).map@.remove(name@));
                }
                None
            },
        }
    }
}

/// The names of the built-in functions.
pub open spec fn builtin_names() -> Set<Seq<char>> {
    set![
        "abs"@,
        "avg"@,
        "ceil"@,
        "contains"@,
        "ends_with"@,
        "floor"@,
        "join"@,
        "keys"@,
        "length"@,
        "map"@,
        "min"@,
        "max"@,
        "max_by"@,
        "min_by"@,
        "merge"@,
        "not_null"@,
        "reverse"@,
        "sort"@,
        "sort_by"@,
        "starts_with"@,
        "sum"@,
        "to_array"@,
        "to_number"@,
        "to_string"@,
        "type"@,
        "values"@,
    ]
}

/// Each built-in name bound to its built-in function.
pub open spec fn builtin_map<F: Builtins>() -> Map<Seq<char>, F> {
    Map::new(|k: Seq<char>| builtin_names().contains(k), |k: Seq<char>| F::spec_builtin(k))
}

/// Registers each built-in function under its name, replacing what was
/// registered there; other names keep their functions.
pub fn register_core_functions<F: Builtins>(functions: &mut Functions<F>)
    requires
        old(functions).wf(),
    ensures
        final(functions).wf(),
        final(functions)@ == old(functions)@.union_prefer_right(builtin_map::<F>()),
{
    functions.insert("abs", F::builtin("abs"));
    functions.insert("avg", F::builtin("avg"));
    functions.insert("ceil", F::builtin("ceil"));
    functions.insert("contains", F::builtin("contains"));
    functions.insert("ends_with", F::builtin("ends_with"));
    functions.insert("floor", F::builtin("floor"));
    functions.insert("join", F::builtin("join"));
    functions.insert("keys", F::builtin("keys"));
    functions.insert("length", F::builtin("length"));
    functions.insert("map", F::builtin("map"));
    functions.insert("min", F::builtin("min"));
    functions.insert("max", F::builtin("max"));
    functions.insert("max_by", F::builtin("max_by"));
    functions.insert("min_by", F::builtin("min_by"));
    functions.insert("merge", F::builtin("merge"));
    functions.insert("not_null", F::builtin("not_null"));
    functions.insert("reverse", F::builtin("reverse"));
    functions.insert("sort", F::builtin("sort"));
    functions.insert("sort_by", F::builtin("sort_by"));
    functions.insert("starts_with", F::builtin("starts_with"));
    functions.insert("sum", F::builtin("sum"));
    functions.insert("to_array", F::builtin("to_array"));
    functions.insert("to_number", F::builtin("to_number"));
    functions.insert("to_string", F::builtin("to_string"));
    functions.insert("type", F::builtin("type"));
    functions.insert("values", F::builtin("values"));
    proof {
        reveal_strlit("abs");
        reveal_strlit("avg");
        reveal_strlit("ceil");
        reveal_strlit("contains");
        reveal_strlit("ends_with");
        reveal_strlit("floor");
        reveal_strlit("join");
        reveal_strlit("keys");
        reveal_strlit("length");
        reveal_strlit("map");
        reveal_strlit("min");
        reveal_strlit("max");
        reveal_strlit("max_by");
        reveal_strlit("min_by");
        reveal_strlit("merge");
        reveal_strlit("not_null");
        reveal_strlit("reverse");
        reveal_strlit("sort");
        reveal_strlit("sort_by");
        reveal_strlit("starts_with");
        reveal_strlit("sum");
        reveal_strlit("to_array");
        reveal_strlit("to_number");
        reveal_strlit("to_string");
        reveal_strlit("type");
        reveal_strlit("values");
    }
    assert(functions@ =~= old(functions)@.union_prefer_right(builtin_map::<F>()));
}

} // verus!
