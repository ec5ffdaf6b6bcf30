use vstd::prelude::*;
use crate::syntax::{copy_decl, decl_model, DeclM, Declaration};

verus! {

/// A table from names to values. Later entries shadow earlier ones with the
/// same name; `insert` rewrites the last one in place, so in practice each
/// name occurs once.
#[derive(Debug)]
pub struct Bindings<V> {
    entries: Vec<(String, V)>,
}

/// Variable environment: name to value.
pub type Env = Bindings<i32>;

/// Function table: name to declaration.
pub type FunctionTable = Bindings<Declaration>;

/// The map denoted by a list of entries, where a later entry wins.
pub open spec fn entries_map<V>(s: Seq<(String, V)>) -> Map<Seq<char>, V>
    decreases s.len(),
{
    if s.len() == 0 {
        Map::empty()
    } else {
        entries_map(s.drop_last()).insert(s.last().0@, s.last().1)
    }
}

impl<V> View for Bindings<V> {
    type V = Map<Seq<char>, V>;

    closed spec fn view(&self) -> Map<Seq<char>, V> {
        entries_map(self.entries@)
    }
}

/// The model of a function table.
pub open spec fn ft_model(ft: Map<Seq<char>, Declaration>) -> Map<Seq<char>, DeclM> {
    ft.map_values(|d: Declaration| decl_model(d))
}

proof fn lemma_absent<V>(s: Seq<(String, V)>, k: Seq<char>)
    requires
        forall|j: int| 0 <= j < s.len() ==> (#[trigger] s[j]).0@ != k,
    ensures
        !entries_map(s).contains_key(k),
    decreases s.len(),
{
    if s.len() > 0 {
        lemma_absent(s.drop_last(), k);
    }
}

proof fn lemma_last<V>(s: Seq<(String, V)>, j: int)
    requires
        0 <= j < s.len(),
        forall|l: int| j < l < s.len() ==> (#[trigger] s[l]).0@ != s[j].0@,
    ensures
        entries_map(s).contains_key(s[j].0@),
        entries_map(s)[s[j].0@] == s[j].1,
    decreases s.len(),
{
    if j < s.len() - 1 {
        lemma_last(s.drop_last(), j);
    }
}

proof fn lemma_update<V>(s: Seq<(String, V)>, j: int, e: (String, V))
    requires
        0 <= j < s.len(),
        e.0@ == s[j].0@,
        forall|l: int| j < l < s.len() ==> (#[trigger] s[l]).0@ != s[j].0@,
    ensures
        entries_map(s.update(j, e)) == entries_map(s).insert(e.0@, e.1),
    decreases s.len(),
{
    let t = s.update(j, e);
    if j == s.len() - 1 {
        assert(t.drop_last() =~= s.drop_last());
        assert(entries_map(t) =~= entries_map(s).insert(e.0@, e.1));
    } else {
        assert(t.drop_last() =~= s.drop_last().update(j, e));
        lemma_update(s.drop_last(), j, e);
        assert(entries_map(t) =~= entries_map(s).insert(e.0@, e.1));
    }
}

/// Two entry lists with the same names, whose values agree under `f`,
/// denote maps that agree under `f`.
proof fn lemma_entries_map_agree<V, W>(s1: Seq<(String, V)>, s2: Seq<(String, V)>, f: spec_fn(V) -> W)
    requires
        s1.len() == s2.len(),
        forall|j: int| 0 <= j < s1.len() ==> (#[trigger] s1[j]).0@ == s2[j].0@ && f(s1[j].1) == f(s2[j].1),
    ensures
        entries_map(s1).map_values(f) == entries_map(s2).map_values(f),
    decreases s1.len(),
{
    if s1.len() > 0 {
        let (a, b) = (s1.drop_last(), s2.drop_last());
        assert forall|j: int| 0 <= j < a.len() implies (#[trigger] a[j]).0@ == b[j].0@ && f(a[j].1) == f(b[j].1) by {
            assert(a[j] == s1[j] && b[j] == s2[j]);
        }
        lemma_entries_map_agree(a, b, f);
        let k = s1.last().0@;
        assert(s1.last() == s1[s1.len() - 1]);
        assert(entries_map(s1).map_values(f) =~= entries_map(a).map_values(f).insert(k, f(s1.last().1)));
        assert(entries_map(s2).map_values(f) =~= entries_map(b).map_values(f).insert(k, f(s2.last().1)));
    }
}

impl Bindings<i32> {
    /// A copy of the environment.
    pub fn copy(&self) -> (r: Self)
        ensures
            r@ == self@,
    {
        let mut out: Vec<(String, i32)> = Vec::new();
        let mut k: usize = 0;
        while k < self.entries.len()
            invariant
                k <= self.entries@.len(),
                out@.len() == k,
                forall|j: int| 0 <= j < k ==> (#[trigger] out@[j]).0@ == self.entries@[j].0@ && out@[j].1 == self.entries@[j].1,
            decreases self.entries@.len() - k,
        {
            let name = self.entries[k].0.clone();
            out.push((name, self.entries[k].1));
            k = k + 1;
        }
        let r = Bindings { entries: out };
        proof {
            let f = |v: i32| v;
            lemma_entries_map_agree(out@, self.entries@, f);
            assert(r@ =~= r@.map_values(f));
            assert(self@ =~= self@.map_values(f));
        }
        r
    }
}

impl Bindings<Declaration> {
    /// A copy of the function table.
    pub fn copy(&self) -> (r: Self)
        ensures
            ft_model(r@) == ft_model(self@),
    {
        let mut out: Vec<(String, Declaration)> = Vec::new();
        let mut k: usize = 0;
        while k < self.entries.len()
            invariant
                k <= self.entries@.len(),
                out@.len() == k,
                forall|j: int| 0 <= j < k ==> (#[trigger] out@[j]).0@ == self.entries@[j].0@ && decl_model(out@[j].1) == decl_model(self.entries@[j].1),
            decreases self.entries@.len() - k,
        {
            let name = self.entries[k].0.clone();
            let d = copy_decl(&self.entries[k].1);
            out.push((name, d));
            k = k + 1;
        }
        let r = Bindings { entries: out };
        proof {
            let f = |d: Declaration| decl_model(d);
            lemma_entries_map_agree(out@, self.entries@, f);
            assert(ft_model(r@) =~= entries_map(out@).map_values(f));
            assert(ft_model(self@) =~= entries_map(self.entries@).map_values(f));
        }
        r
    }
}

impl<V> Bindings<V> {
    pub fn new() -> (r: Self)
        ensures
            r@ == Map::<Seq<char>, V>::empty(),
    {
        Bindings { entries: Vec::new() }
    }

    /// Index of the last entry named `key`, if any.
    fn position(&self, key: &String) -> (r: Option<usize>)
        ensures
            match r {
                Some(j) => j < self.entries@.len() && self.entries@[j as int].0@ == key@ && forall|
                    l: int,
                | j < l < self.entries@.len() ==> (#[trigger] self.entries@[l]).0@ != key@,
                None => forall|l: int|
                    0 <= l < self.entries@.len() ==> (#[trigger] self.entries@[l]).0@ != key@,
            },
    {
        let mut i: usize = self.entries.len();
        while i > 0
            invariant
                i <= self.entries@.len(),
                forall|l: int| i <= l < self.entries@.len() ==> (#[trigger] self.entries@[l]).0@ != key@,
            decreases i,
        {
            i = i - 1;
            if self.entries[i].0 == *key {
                return Some(i);
            }
        }
        None
    }

    /// The value bound to `name`, if any.
    pub fn get(&self, name: &str) -> (r: Option<&V>)
        ensures
            match r {
                Some(v) => self@.contains_key(name@) && self@[name@] == *v,
                None => !self@.contains_key(name@),
            },
    {
        let key = name.to_owned();
        match self.position(&key) {
            Some(j) => {
                proof {
                    lemma_last(self.entries@, j as int);
                }
                Some(&self.entries[j].1)
            },
            None => {
                proof {
                    lemma_absent(self.entries@, key@);
                }
                None
            },
        }
    }

    /// Binds `name` to `value`, replacing any earlier binding of it.
    pub fn insert(&mut self, name: String, value: V)
        ensures
            final(self)@ == old(self)@.insert(name@, value),
    {
        match self.position(&name) {
            Some(j) => {
                proof {
                    lemma_update(self.entries@, j as int, (name, value));
                }
                self.entries.set(j, (name, value));
            },
            None => {
                proof {
                    assert(self.entries@.push((name, value)).drop_last() =~= self.entries@);
                }
                self.entries.push((name, value));
            },
        }
    }
}

} // verus!
