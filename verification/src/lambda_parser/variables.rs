use vstd::prelude::*;
use crate::common::utils::labels::LabelTable;

verus! {

/// The variables of a program in nested scopes, innermost last. A name
/// refers to its binding in the innermost scope that has one.
pub struct Env<V> {
    pub scopes: Vec<LabelTable<V>>,
}

/// The innermost of the first `k` scopes that binds `name`, or -1.
pub open spec fn innermost<V>(scopes: Seq<Map<Seq<char>, V>>, name: Seq<char>, k: int) -> int
    decreases k,
{
    if k <= 0 || k > scopes.len() {
        -1
    } else if scopes[k - 1].contains_key(name) {
        k - 1
    } else {
        innermost(scopes, name, k - 1)
    }
}

proof fn lemma_innermost_bounds<V>(scopes: Seq<Map<Seq<char>, V>>, name: Seq<char>, k: int)
    requires
        0 <= k <= scopes.len(),
    ensures
        -1 <= innermost(scopes, name, k) < k,
        innermost(scopes, name, k) >= 0 ==> scopes[innermost(scopes, name, k)].contains_key(name),
        innermost(scopes, name, k) < 0 ==> forall|j: int| 0 <= j < k ==> !(#[trigger] scopes[j]).contains_key(name),
    decreases k,
{
    if k > 0 && !scopes[k - 1].contains_key(name) {
        lemma_innermost_bounds(scopes, name, k - 1);
    }
}

/// The value `name` refers to.
pub open spec fn lookup<V>(scopes: Seq<Map<Seq<char>, V>>, name: Seq<char>) -> Option<V> {
    let i = innermost(scopes, name, scopes.len() as int);
    if i >= 0 {
        Some(scopes[i][name])
    } else {
        None
    }
}

/// Binding `name` to `v`: the innermost binding changes; without one, the
/// innermost scope gains it.
pub open spec fn set_spec<V>(scopes: Seq<Map<Seq<char>, V>>, name: Seq<char>, v: V) -> Seq<Map<Seq<char>, V>> {
    let i = innermost(scopes, name, scopes.len() as int);
    if i >= 0 {
        scopes.update(i, scopes[i].insert(name, v))
    } else {
        insert_spec(scopes, name, v)
    }
}

/// Binding `name` to `v` in the innermost scope, if there is one.
pub open spec fn insert_spec<V>(scopes: Seq<Map<Seq<char>, V>>, name: Seq<char>, v: V) -> Seq<Map<Seq<char>, V>> {
    if scopes.len() > 0 {
        scopes.update(scopes.len() - 1, scopes.last().insert(name, v))
    } else {
        scopes
    }
}

impl<V> Env<V> {
    /// The scopes as maps, innermost last.
    pub open spec fn view(&self) -> Seq<Map<Seq<char>, V>> {
        self.scopes@.map_values(|t: LabelTable<V>| t.view())
    }

    pub open spec fn wf(&self) -> bool {
        forall|i: int| 0 <= i < self.scopes@.len() ==> (#[trigger] self.scopes@[i]).wf()
    }

    /// Opens a scope holding the bindings of `map`.
    pub fn push_scope(&mut self, map: LabelTable<V>)
        requires
            old(self).wf(),
            map.wf(),
        ensures
            final(self).wf(),
            final(self).view() == old(self).view().push(map.view()),
    {
        self.scopes.push(map);
        assert(self.view() =~= old(self).view().push(map.view()));
    }

    /// Closes the innermost scope and gives it back.
    pub fn pop_scope(&mut self) -> (r: Option<LabelTable<V>>)
        requires
            old(self).wf(),
        ensures
            final(self).wf(),
            old(self).view().len() == 0 ==> r is None && final(self).view() == old(self).view(),
            old(self).view().len() > 0 ==> (r matches Some(t) && t.wf() && t.view() == old(self).view().last()
                && final(self).view() == old(self).view().drop_last()),
    {
        let r = self.scopes.pop();
        proof {
            if old(self).scopes@.len() > 0 {
                assert(self.view() =~= old(self).view().drop_last());
                assert(old(self).scopes@[old(self).scopes@.len() - 1].wf());
            } else {
                assert(self.view() =~= old(self).view());
            }
        }
        r
    }

    /// Removes the innermost binding of `name`; says whether there was one.
    pub fn undeclare(&mut self, name: &str) -> (r: bool)
        requires
            old(self).wf(),
        ensures
            final(self).wf(),
            ({
                let i = innermost(old(self).view(), name@, old(self).view().len() as int);
                &&& r == (i >= 0)
                &&& i >= 0 ==> final(self).view() == old(self).view().update(i, old(self).view()[i].remove(name@))
                &&& i < 0 ==> final(self).view() == old(self).view()
            }),
    {
        proof {
            lemma_innermost_bounds(self.view(), name@, self.view().len() as int);
        }
        match self.find(name) {
            Some(i) => {
                assert(self.scopes@[i as int].wf());
                assert(self.view()[i as int] == self.scopes@[i as int].view());
                let mut t = self.scopes.remove(i);
                let removed = t.remove(name);
                self.scopes.insert(i, t);
                assert(self.view() =~= old(self).view().update(i as int, old(self).view()[i as int].remove(name@)));
                removed
            },
            None => false,
        }
    }

    /// The innermost scope that binds `name`.
    fn find(&self, name: &str) -> (r: Option<usize>)
        requires
            self.wf(),
        ensures
            match r {
                Some(i) => i == innermost(self.view(), name@, self.view().len() as int) && i < self.scopes@.len(),
                None => innermost(self.view(), name@, self.view().len() as int) < 0,
            },
    {
        let mut k: usize = self.scopes.len();
        while k > 0
            invariant
                k <= self.scopes@.len(),
                self.wf(),
                self.view().len() == self.scopes@.len(),
                innermost(self.view(), name@, self.view().len() as int) == innermost(self.view(), name@, k as int),
            decreases k,
        {
            assert(self.view()[k - 1] == self.scopes@[k - 1].view());
            if self.scopes[k - 1].get_ref(name).is_some() {
                return Some(k - 1);
            }
            k = k - 1;
        }
        None
    }

    /// Binds `name` to `val` (see `set_spec`).
    pub fn set(&mut self, name: &str, val: V)
        requires
            old(self).wf(),
        ensures
            final(self).wf(),
            final(self).view() == set_spec(old(self).view(), name@, val),
    {
        match self.find(name) {
            Some(i) => {
                assert(self.scopes@[i as int].wf());
                let mut t = self.scopes.remove(i);
                t.insert(name.to_string(), val);
                self.scopes.insert(i, t);
                assert(self.view() =~= old(self).view().update(i as int, old(self).view()[i as int].insert(name@, val)));
            },
            None => {
                self.insert(name, val);
            },
        }
    }

    /// The value `name` refers to.
    pub fn get(&self, name: &str) -> (r: Option<&V>)
        requires
            self.wf(),
        ensures
            match lookup(self.view(), name@) {
                Some(v) => r matches Some(x) && *x == v,
                None => r is None,
            },
    {
        proof {
            lemma_innermost_bounds(self.view(), name@, self.view().len() as int);
        }
        match self.find(name) {
            Some(i) => {
                assert(self.view()[i as int] == self.scopes@[i as int].view());
                self.scopes[i].get_ref(name)
            },
            None => None,
        }
    }

    /// Binds `name` to `val` in the innermost scope; without a scope,
    /// nothing happens.
    pub fn insert(&mut self, name: &str, val: V)
        requires
            old(self).wf(),
        ensures
            final(self).wf(),
            final(self).view() == insert_spec(old(self).view(), name@, val),
    {
        let n = self.scopes.len();
        if n > 0 {
            assert(self.scopes@[n - 1].wf());
            let mut t = self.scopes.remove(n - 1);
            t.insert(name.to_string(), val);
            self.scopes.push(t);
            assert(self.view() =~= old(self).view().update(n - 1, old(self).view().last().insert(name@, val)));
        }
    }
}

/// Reading a name just bound gives the value bound, when there is a scope.
pub proof fn law_set_then_lookup<V>(scopes: Seq<Map<Seq<char>, V>>, name: Seq<char>, v: V)
    requires
        scopes.len() > 0,
    ensures
        lookup(set_spec(scopes, name, v), name) == Some(v),
{
    let n = scopes.len() as int;
    let i = innermost(scopes, name, n);
    lemma_innermost_bounds(scopes, name, n);
    let s2 = set_spec(scopes, name, v);
    if i >= 0 {
        lemma_innermost_shift(scopes, s2, name, n, i);
    } else {
        assert(s2[n - 1].contains_key(name));
        assert(innermost(s2, name, n) == n - 1);
    }
}

/// Changing the scope `i`, which binds `name`, to another that binds it
/// keeps it the innermost binding.
proof fn lemma_innermost_shift<V>(s: Seq<Map<Seq<char>, V>>, t: Seq<Map<Seq<char>, V>>, name: Seq<char>, k: int, i: int)
    requires
        0 <= i < k <= s.len(),
        s.len() == t.len(),
        innermost(s, name, k) == i,
        t[i].contains_key(name),
        forall|j: int| 0 <= j < s.len() && j != i ==> t[j] == s[j],
    ensures
        innermost(t, name, k) == i,
    decreases k,
{
    if k - 1 != i {
        assert(!s[k - 1].contains_key(name));
        lemma_innermost_shift(s, t, name, k - 1, i);
    }
}

/// A scope opened over others hides their bindings of the names it binds,
/// and closing it again brings them back.
pub proof fn law_shadowing<V>(scopes: Seq<Map<Seq<char>, V>>, inner: Map<Seq<char>, V>, name: Seq<char>)
    ensures
        inner.contains_key(name) ==> lookup(scopes.push(inner), name) == Some(inner[name]),
        !inner.contains_key(name) ==> lookup(scopes.push(inner), name) == lookup(scopes, name),
        scopes.push(inner).drop_last() == scopes,
{
    let s2 = scopes.push(inner);
    assert(s2.drop_last() =~= scopes);
    if !inner.contains_key(name) {
        lemma_innermost_prefix(scopes, s2, name, scopes.len() as int);
        lemma_innermost_bounds(scopes, name, scopes.len() as int);
        let i = innermost(scopes, name, scopes.len() as int);
        if i >= 0 {
            assert(s2[i] == scopes[i]);
        }
    } else {
        assert(s2[scopes.len() as int] == inner);
        assert(innermost(s2, name, s2.len() as int) == scopes.len());
    }
}

proof fn lemma_innermost_prefix<V>(s: Seq<Map<Seq<char>, V>>, t: Seq<Map<Seq<char>, V>>, name: Seq<char>, k: int)
    requires
        0 <= k <= s.len() < t.len(),
        forall|j: int| 0 <= j < s.len() ==> t[j] == s[j],
        forall|j: int| s.len() <= j < t.len() ==> !(#[trigger] t[j]).contains_key(name),
    ensures
        innermost(t, name, k) == innermost(s, name, k),
        k == s.len() ==> innermost(t, name, t.len() as int) == innermost(s, name, k),
    decreases t.len() - k,
{
    if k > 0 {
        lemma_innermost_prefix_down(s, t, name, k);
    }
    if k == s.len() {
        lemma_innermost_skip_top(t, name, t.len() as int, s.len() as int);
    }
}

proof fn lemma_innermost_prefix_down<V>(s: Seq<Map<Seq<char>, V>>, t: Seq<Map<Seq<char>, V>>, name: Seq<char>, k: int)
    requires
        0 <= k <= s.len() < t.len(),
        forall|j: int| 0 <= j < s.len() ==> t[j] == s[j],
    ensures
        innermost(t, name, k) == innermost(s, name, k),
    decreases k,
{
    if k > 0 {
        assert(t[k - 1] == s[k - 1]);
        lemma_innermost_prefix_down(s, t, name, k - 1);
    }
}

proof fn lemma_innermost_skip_top<V>(t: Seq<Map<Seq<char>, V>>, name: Seq<char>, k: int, m: int)
    requires
        0 <= m <= k <= t.len(),
        forall|j: int| m <= j < k ==> !(#[trigger] t[j]).contains_key(name),
    ensures
        innermost(t, name, k) == innermost(t, name, m),
    decreases k - m,
{
    if k > m {
        assert(!t[k - 1].contains_key(name));
        lemma_innermost_skip_top(t, name, k - 1, m);
    }
}

} // verus!
