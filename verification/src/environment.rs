//! The environment handed to a child process: a finite map from variable
//! names to values, with every name bound at most once.

use vstd::prelude::*;
use vstd::string::*;

verus! {

/// No two bindings share a name.
pub open spec fn names_distinct(v: Seq<(String, String)>) -> bool {
    forall|i: int, j: int| 0 <= i < j < v.len() ==> (#[trigger] v[i]).0@ != (#[trigger] v[j]).0@
}

/// Some binding has the name `k`.
pub open spec fn binds(v: Seq<(String, String)>, k: Seq<char>) -> bool {
    exists|i: int| 0 <= i < v.len() && (#[trigger] v[i]).0@ == k
}

/// The place of a binding named `k`.
pub open spec fn place_of(v: Seq<(String, String)>, k: Seq<char>) -> int {
    choose|i: int| 0 <= i < v.len() && (#[trigger] v[i]).0@ == k
}

/// The map that a list of bindings stands for.
pub open spec fn bindings_map(v: Seq<(String, String)>) -> Map<Seq<char>, Seq<char>> {
    Map::new(|k: Seq<char>| binds(v, k), |k: Seq<char>| v[place_of(v, k)].1@)
}

proof fn lemma_place(v: Seq<(String, String)>, i: int)
    requires
        names_distinct(v),
        0 <= i < v.len(),
    ensures
        binds(v, v[i].0@),
        place_of(v, v[i].0@) == i,
{
    let k = v[i].0@;
    assert(0 <= i < v.len() && v[i].0@ == k);
    let p = place_of(v, k);
    assert(0 <= p < v.len() && v[p].0@ == k);
    if p < i {
        assert(v[p].0@ != v[i].0@);
    } else if i < p {
        assert(v[i].0@ != v[p].0@);
    }
}

proof fn lemma_push_binding(v: Seq<(String, String)>, b: (String, String))
    requires
        names_distinct(v),
        !binds(v, b.0@),
    ensures
        names_distinct(v.push(b)),
        bindings_map(v.push(b)) == bindings_map(v).insert(b.0@, b.1@),
{
    let w = v.push(b);
    assert forall|i: int, j: int| 0 <= i < j < w.len() implies (#[trigger] w[i]).0@ != (
    #[trigger] w[j]).0@ by {
        if j == v.len() {
            assert(v[i].0@ != b.0@);
        } else {
            assert(w[i] == v[i] && w[j] == v[j]);
        }
    }
    assert forall|k: Seq<char>| binds(w, k) <==> (binds(v, k) || k == b.0@) by {
        if binds(w, k) {
            let i = place_of(w, k);
            if i < v.len() {
                assert(v[i].0@ == k);
            }
        }
        if binds(v, k) {
            let i = place_of(v, k);
            assert(w[i].0@ == k);
        }
        if k == b.0@ {
            assert(w[v.len() as int].0@ == k);
        }
    }
    assert forall|k: Seq<char>| binds(w, k) implies #[trigger] bindings_map(w)[k] == bindings_map(
        v,
    ).insert(b.0@, b.1@)[k] by {
        let i = place_of(w, k);
        lemma_place(w, i);
        if i < v.len() {
            assert(w[i] == v[i]);
            lemma_place(v, i);
        }
    }
    assert(bindings_map(w) =~= bindings_map(v).insert(b.0@, b.1@));
}

proof fn lemma_update_binding(v: Seq<(String, String)>, j: int, b: (String, String))
    requires
        names_distinct(v),
        0 <= j < v.len(),
        v[j].0@ == b.0@,
    ensures
        names_distinct(v.update(j, b)),
        bindings_map(v.update(j, b)) == bindings_map(v).insert(b.0@, b.1@),
{
    let w = v.update(j, b);
    assert forall|i: int, l: int| 0 <= i < l < w.len() implies (#[trigger] w[i]).0@ != (
    #[trigger] w[l]).0@ by {
        assert(w[i].0@ == v[i].0@ && w[l].0@ == v[l].0@);
    }
    assert forall|k: Seq<char>| binds(w, k) <==> binds(v, k) by {
        if binds(w, k) {
            let i = place_of(w, k);
            assert(v[i].0@ == k);
        }
        if binds(v, k) {
            let i = place_of(v, k);
            assert(w[i].0@ == k);
        }
    }
    assert(binds(v, b.0@)) by {
        assert(v[j].0@ == b.0@);
    }
    assert forall|k: Seq<char>| binds(w, k) implies #[trigger] bindings_map(w)[k] == bindings_map(
        v,
    ).insert(b.0@, b.1@)[k] by {
        let i = place_of(w, k);
        lemma_place(w, i);
        lemma_place(v, i);
    }
    assert(bindings_map(w) =~= bindings_map(v).insert(b.0@, b.1@));
}

proof fn lemma_remove_binding(v: Seq<(String, String)>, j: int)
    requires
        names_distinct(v),
        0 <= j < v.len(),
    ensures
        names_distinct(v.remove(j)),
        bindings_map(v.remove(j)) == bindings_map(v).remove(v[j].0@),
{
    let w = v.remove(j);
    let gone = v[j].0@;
    assert forall|i: int, l: int| 0 <= i < l < w.len() implies (#[trigger] w[i]).0@ != (
    #[trigger] w[l]).0@ by {
        let vi = if i < j { i } else { i + 1 };
        let vl = if l < j { l } else { l + 1 };
        assert(w[i] == v[vi] && w[l] == v[vl]);
    }
    assert forall|k: Seq<char>| binds(w, k) <==> (binds(v, k) && k != gone) by {
        if binds(w, k) {
            let i = place_of(w, k);
            let vi = if i < j { i } else { i + 1 };
            assert(w[i] == v[vi]);
            assert(v[vi].0@ == k);
            if vi < j {
                assert(v[vi].0@ != v[j].0@);
            } else {
                assert(v[j].0@ != v[vi].0@);
            }
        }
        if binds(v, k) && k != gone {
            let i = place_of(v, k);
            let wi = if i < j { i } else { i - 1 };
            assert(w[wi] == v[i]);
        }
    }
    assert forall|k: Seq<char>| binds(w, k) implies #[trigger] bindings_map(w)[k] == bindings_map(
        v,
    ).remove(gone)[k] by {
        let i = place_of(w, k);
        lemma_place(w, i);
        let vi = if i < j { i } else { i + 1 };
        assert(w[i] == v[vi]);
        lemma_place(v, vi);
    }
    assert(bindings_map(w) =~= bindings_map(v).remove(gone));
}

/// A process environment. Its view is the map from names to values.
pub struct Environment {
    vars: Vec<(String, String)>,
}

impl View for Environment {
    type V = Map<Seq<char>, Seq<char>>;

    closed spec fn view(&self) -> Map<Seq<char>, Seq<char>> {
        bindings_map(self.vars@)
    }
}

impl Environment {
    #[verifier::type_invariant]
    spec fn well_formed(&self) -> bool {
        names_distinct(self.vars@)
    }

    /// The environment without any variable.
    pub fn new() -> (env: Environment)
        ensures
            env@ == Map::<Seq<char>, Seq<char>>::empty(),
    {
        let env = Environment { vars: Vec::new() };
        assert(env@ =~= Map::<Seq<char>, Seq<char>>::empty());
        env
    }

    fn position(&self, name: &str) -> (found: Option<usize>)
        ensures
            match found {
                Some(i) => i < self.vars@.len() && self.vars@[i as int].0@ == name@,
                None => !binds(self.vars@, name@),
            },
    {
        let key = String::from_str(name);
        let mut i: usize = 0;
        while i < self.vars.len()
            invariant
                i <= self.vars.len(),
                key@ == name@,
                forall|k: int| 0 <= k < i ==> (#[trigger] self.vars@[k]).0@ != name@,
            decreases self.vars.len() - i,
        {
            if self.vars[i].0 == key {
                return Some(i);
            }
            i += 1;
        }
        None
    }

    /// How many variables are bound.
    pub fn len(&self) -> (n: usize)
        ensures
            n == self@.dom().len(),
            self@.dom().finite(),
    {
        proof {
            use_type_invariant(self);
            self.lemma_domain();
        }
        self.vars.len()
    }

    proof fn lemma_domain(&self)
        requires
            names_distinct(self.vars@),
        ensures
            self@.dom().finite(),
            self@.dom().len() == self.vars@.len(),
    {
        lemma_domain_of(self.vars@);
    }

    /// Whether `name` is bound.
    pub fn contains(&self, name: &str) -> (b: bool)
        ensures
            b == self@.contains_key(name@),
    {
        self.position(name).is_some()
    }

    /// The value bound to `name`, if any.
    pub fn get(&self, name: &str) -> (value: Option<String>)
        ensures
            match value {
                Some(v) => self@.contains_key(name@) && self@[name@] == v@,
                None => !self@.contains_key(name@),
            },
    {
        proof {
            use_type_invariant(self);
        }
        match self.position(name) {
            Some(i) => {
                proof {
                    lemma_place(self.vars@, i as int);
                }
                Some(self.vars[i].1.clone())
            },
            None => None,
        }
    }

    /// Binds `name` to `value`, replacing an earlier binding of `name`.
    pub fn insert(&mut self, name: String, value: String)
        ensures
            final(self)@ == old(self)@.insert(name@, value@),
    {
        proof {
            use_type_invariant(&*self);
        }
        let found = self.position(name.as_str());
        let mut vars: Vec<(String, String)> = Vec::new();
        std::mem::swap(&mut self.vars, &mut vars);
        match found {
            Some(i) => {
                proof {
                    lemma_update_binding(vars@, i as int, (name, value));
                }
                vars.set(i, (name, value));
            },
            None => {
                proof {
                    lemma_push_binding(vars@, (name, value));
                }
                vars.push((name, value));
            },
        }
        self.vars = vars;
    }

    /// Unbinds `name`. An environment that does not bind it stays as it is.
    pub fn remove(&mut self, name: &str)
        ensures
            final(self)@ == old(self)@.remove(name@),
    {
        proof {
            use_type_invariant(&*self);
        }
        let found = self.position(name);
        let mut vars: Vec<(String, String)> = Vec::new();
        std::mem::swap(&mut self.vars, &mut vars);
        match found {
            Some(i) => {
                proof {
                    lemma_remove_binding(vars@, i as int);
                }
                vars.remove(i);
            },
            None => {
                assert(bindings_map(vars@) =~= bindings_map(vars@).remove(name@));
            },
        }
        self.vars = vars;
    }

    /// An independent copy with the same bindings.
    pub fn duplicate(&self) -> (copy: Environment)
        ensures
            copy@ == self@,
    {
        proof {
            use_type_invariant(self);
        }
        let vars = self.duplicate_bindings();
        Environment { vars }
    }

    /// The bindings as a list, each name once.
    pub fn to_pairs(&self) -> (pairs: Vec<(String, String)>)
        ensures
            names_distinct(pairs@),
            bindings_map(pairs@) == self@,
    {
        proof {
            use_type_invariant(self);
        }
        self.duplicate_bindings()
    }

    fn duplicate_bindings(&self) -> (vars: Vec<(String, String)>)
        ensures
            vars@ == self.vars@,
    {
        let mut vars: Vec<(String, String)> = Vec::new();
        let mut i: usize = 0;
        while i < self.vars.len()
            invariant
                i <= self.vars.len(),
                vars@ == self.vars@.take(i as int),
            decreases self.vars.len() - i,
        {
            let name = self.vars[i].0.clone();
            let value = self.vars[i].1.clone();
            vars.push((name, value));
            assert(vars@ =~= self.vars@.take(i + 1));
            i += 1;
        }
        assert(self.vars@.take(self.vars.len() as int) =~= self.vars@);
        vars
    }

    /// The environment that binds each listed name; where a name is listed
    /// more than once, its last value stands.
    pub fn from_pairs(pairs: &Vec<(String, String)>) -> (env: Environment)
        ensures
            env@ == bind_all(Map::empty(), pairs@),
    {
        let mut env = Environment::new();
        let mut i: usize = 0;
        while i < pairs.len()
            invariant
                i <= pairs.len(),
                env@ == bind_all(Map::empty(), pairs@.take(i as int)),
            decreases pairs.len() - i,
        {
            assert(pairs@.take(i + 1).drop_last() =~= pairs@.take(i as int));
            env.insert(pairs[i].0.clone(), pairs[i].1.clone());
            i += 1;
        }
        assert(pairs@.take(pairs.len() as int) =~= pairs@);
        env
    }
}

/// `start` after binding each pair in turn, later pairs over earlier ones.
pub open spec fn bind_all(start: Map<Seq<char>, Seq<char>>, pairs: Seq<(String, String)>) -> Map<
    Seq<char>,
    Seq<char>,
>
    decreases pairs.len(),
{
    if pairs.len() == 0 {
        start
    } else {
        bind_all(start, pairs.drop_last()).insert(pairs.last().0@, pairs.last().1@)
    }
}

proof fn lemma_domain_of(v: Seq<(String, String)>)
    requires
        names_distinct(v),
    ensures
        bindings_map(v).dom().finite(),
        bindings_map(v).dom().len() == v.len(),
    decreases v.len(),
{
    if v.len() == 0 {
        assert(bindings_map(v).dom() =~= Set::<Seq<char>>::empty());
    } else {
        let init = v.drop_last();
        assert forall|i: int, j: int| 0 <= i < j < init.len() implies (#[trigger] init[i]).0@ != (
        #[trigger] init[j]).0@ by {
            assert(init[i] == v[i] && init[j] == v[j]);
        }
        lemma_domain_of(init);
        assert(!binds(init, v.last().0@)) by {
            if binds(init, v.last().0@) {
                let i = place_of(init, v.last().0@);
                assert(init[i] == v[i]);
                assert(v[i].0@ != v[v.len() - 1].0@);
            }
        }
        lemma_push_binding(init, v.last());
        assert(init.push(v.last()) =~= v);
        assert(bindings_map(v).dom() =~= bindings_map(init).dom().insert(v.last().0@));
    }
}

} // verus!
