use vstd::prelude::*;

verus! {

/// A table from names to values in which each name occurs once; a later
/// insertion under a name replaces the earlier value, as a map does.
pub struct LabelTable<V> {
    entries: Vec<(String, V)>,
}

impl<V> LabelTable<V> {
    /// Each name occurs once.
    pub closed spec fn wf(&self) -> bool {
        forall|i: int, j: int|
            0 <= i < j < self.entries@.len() ==> #[trigger] self.entries@[i].0@ != #[trigger] self.entries@[j].0@
    }

    pub closed spec fn has(&self, name: Seq<char>) -> bool {
        exists|i: int| 0 <= i < self.entries@.len() && #[trigger] self.entries@[i].0@ == name
    }

    pub closed spec fn at(&self, name: Seq<char>) -> V {
        let i = choose|i: int| 0 <= i < self.entries@.len() && #[trigger] self.entries@[i].0@ == name;
        self.entries@[i].1
    }

    /// The table as a map from names to values.
    pub closed spec fn view(&self) -> Map<Seq<char>, V> {
        Map::new(|k: Seq<char>| self.has(k), |k: Seq<char>| self.at(k))
    }

    /// The names in the order of their first insertion.
    pub closed spec fn names(&self) -> Seq<Seq<char>> {
        self.entries@.map_values(|e: (String, V)| e.0@)
    }

    pub fn new() -> (r: Self)
        ensures
            r.wf(),
            r.view() == Map::<Seq<char>, V>::empty(),
            r.names() == Seq::<Seq<char>>::empty(),
    {
        let r = LabelTable { entries: Vec::new() };
        assert(r.view() =~= Map::<Seq<char>, V>::empty());
        assert(r.names() =~= Seq::<Seq<char>>::empty());
        r
    }

    /// The position of `name` among the entries.
    fn position(&self, name: &str) -> (r: Option<usize>)
        ensures
            match r {
                Some(i) => i < self.entries@.len() && self.entries@[i as int].0@ == name@,
                None => forall|i: int| 0 <= i < self.entries@.len() ==> #[trigger] self.entries@[i].0@ != name@,
            },
    {
        let mut i: usize = 0;
        while i < self.entries.len()
            invariant
                i <= self.entries@.len(),
                forall|j: int| 0 <= j < i ==> #[trigger] self.entries@[j].0@ != name@,
            decreases self.entries@.len() - i,
        {
            if str_eq(self.entries[i].0.as_str(), name) {
                return Some(i);
            }
            i = i + 1;
        }
        None
    }

    /// The value stored under `name`.
    pub fn get(&self, name: &str) -> (r: Option<V>) where V: Copy
        requires
            self.wf(),
        ensures
            r == (if self.view().contains_key(name@) { Some(self.view()[name@]) } else { None }),
    {
        match self.position(name) {
            Some(i) => {
                let ghost k = name@;
                assert(self.has(k));
                let ghost c = choose|c: int| 0 <= c < self.entries@.len() && #[trigger] self.entries@[c].0@ == k;
                assert(c == i as int);
                Some(self.entries[i].1)
            },
            None => {
                assert(!self.has(name@));
                None
            },
        }
    }

    /// A reference to the value stored under `name`.
    pub fn get_ref(&self, name: &str) -> (r: Option<&V>)
        requires
            self.wf(),
        ensures
            r == (if self.view().contains_key(name@) { Some(&self.view()[name@]) } else { None }),
    {
        match self.position(name) {
            Some(i) => {
                let ghost k = name@;
                assert(self.has(k));
                let ghost c = choose|c: int| 0 <= c < self.entries@.len() && #[trigger] self.entries@[c].0@ == k;
                assert(c == i as int);
                Some(&self.entries[i].1)
            },
            None => {
                assert(!self.has(name@));
                None
            },
        }
    }

    /// Stores `v` under `name`, replacing what was stored under it.
    pub fn insert(&mut self, name: String, v: V)
        requires
            old(self).wf(),
        ensures
            final(self).wf(),
            final(self).view() == old(self).view().insert(name@, v),
            final(self).names() == (if old(self).view().contains_key(name@) { old(self).names() } else {
                old(self).names().push(name@)
            }),
    {
        let ghost old_entries = self.entries@;
        match self.position(name.as_str()) {
            Some(i) => {
                self.entries.set(i, (name, v));
                assert forall|a: int, b: int| 0 <= a < b < self.entries@.len() implies #[trigger] self.entries@[a].0@ != #[trigger] self.entries@[b].0@ by {
                    assert(old_entries[a].0@ != old_entries[b].0@);
                }
                assert forall|k: Seq<char>| #[trigger] self.view().contains_key(k) == old(self).view().insert(name@, v).contains_key(k) by {
                    if k == name@ {
                        assert(self.entries@[i as int].0@ == k);
                    } else if old(self).has(k) {
                        let c = choose|c: int| 0 <= c < old_entries.len() && #[trigger] old_entries[c].0@ == k;
                        assert(self.entries@[c].0@ == k);
                    } else if self.has(k) {
                        let c = choose|c: int| 0 <= c < self.entries@.len() && #[trigger] self.entries@[c].0@ == k;
                        assert(old_entries[c].0@ == k);
                    }
                }
                assert forall|k: Seq<char>| #[trigger] self.view().contains_key(k) implies self.view()[k] == old(self).view().insert(name@, v)[k] by {
                    let c = choose|c: int| 0 <= c < self.entries@.len() && #[trigger] self.entries@[c].0@ == k;
                    if k == name@ {
                        assert(c == i as int);
                    } else {
                        assert(old_entries[c].0@ == k);
                        let d = choose|d: int| 0 <= d < old_entries.len() && #[trigger] old_entries[d].0@ == k;
                        assert(d == c);
                    }
                }
                assert(self.view() =~= old(self).view().insert(name@, v));
                assert(old(self).has(name@));
                assert(self.names() =~= old(self).names());
            },
            None => {
                self.entries.push((name, v));
                let ghost n = old_entries.len() as int;
                assert forall|a: int, b: int| 0 <= a < b < self.entries@.len() implies #[trigger] self.entries@[a].0@ != #[trigger] self.entries@[b].0@ by {
                    if b < n {
                        assert(old_entries[a].0@ != old_entries[b].0@);
                    } else {
                        assert(old_entries[a].0@ != name@);
                    }
                }
                assert forall|k: Seq<char>| #[trigger] self.view().contains_key(k) == old(self).view().insert(name@, v).contains_key(k) by {
                    if k == name@ {
                        assert(self.entries@[n].0@ == k);
                    } else if old(self).has(k) {
                        let c = choose|c: int| 0 <= c < old_entries.len() && #[trigger] old_entries[c].0@ == k;
                        assert(self.entries@[c].0@ == k);
                    } else if self.has(k) {
                        let c = choose|c: int| 0 <= c < self.entries@.len() && #[trigger] self.entries@[c].0@ == k;
                        assert(c < n);
                        assert(old_entries[c].0@ == k);
                    }
                }
                assert forall|k: Seq<char>| #[trigger] self.view().contains_key(k) implies self.view()[k] == old(self).view().insert(name@, v)[k] by {
                    let c = choose|c: int| 0 <= c < self.entries@.len() && #[trigger] self.entries@[c].0@ == k;
                    if k == name@ {
                        assert(self.entries@[n].0@ == k);
                        assert(c == n);
                    } else {
                        assert(c < n);
                        assert(old_entries[c].0@ == k);
                        let d = choose|d: int| 0 <= d < old_entries.len() && #[trigger] old_entries[d].0@ == k;
                        assert(d == c);
                    }
                }
                assert(self.view() =~= old(self).view().insert(name@, v));
                assert(!old(self).has(name@));
                assert(self.names() =~= old(self).names().push(name@));
            },
        }
    }

    /// Removes what is stored under `name`; says whether there was any.
    pub fn remove(&mut self, name: &str) -> (r: bool)
        requires
            old(self).wf(),
        ensures
            final(self).wf(),
            r == old(self).view().contains_key(name@),
            final(self).view() == old(self).view().remove(name@),
            r ==> final(self).names() == old(self).names().remove(old(self).names().index_of(name@)),
            !r ==> final(self).names() == old(self).names(),
    {
        let ghost old_entries = self.entries@;
        match self.position(name) {
            Some(i) => {
                let _ = self.entries.remove(i);
                let ghost n = old_entries.len() as int;
                assert(self.entries@ =~= old_entries.subrange(0, i as int) + old_entries.subrange(i + 1, n));
                assert forall|a: int, b: int| 0 <= a < b < self.entries@.len() implies #[trigger] self.entries@[a].0@ != #[trigger] self.entries@[b].0@ by {
                    let a2 = if a < i { a } else { a + 1 };
                    let b2 = if b < i { b } else { b + 1 };
                    assert(self.entries@[a] == old_entries[a2]);
                    assert(self.entries@[b] == old_entries[b2]);
                    assert(old_entries[a2].0@ != old_entries[b2].0@);
                }
                assert forall|k: Seq<char>| #[trigger] self.view().contains_key(k) == old(self).view().remove(name@).contains_key(k) by {
                    if self.has(k) {
                        let c = choose|c: int| 0 <= c < self.entries@.len() && #[trigger] self.entries@[c].0@ == k;
                        let c2 = if c < i { c } else { c + 1 };
                        assert(old_entries[c2].0@ == k);
                        assert(c2 != i);
                        assert(old(self).has(k));
                    }
                    if k != name@ && old(self).has(k) {
                        let c = choose|c: int| 0 <= c < old_entries.len() && #[trigger] old_entries[c].0@ == k;
                        assert(c != i);
                        let c2 = if c < i { c } else { c - 1 };
                        assert(self.entries@[c2].0@ == k);
                    }
                }
                assert forall|k: Seq<char>| #[trigger] self.view().contains_key(k) implies self.view()[k] == old(self).view().remove(name@)[k] by {
                    let c = choose|c: int| 0 <= c < self.entries@.len() && #[trigger] self.entries@[c].0@ == k;
                    let c2 = if c < i { c } else { c + 1 };
                    assert(old_entries[c2].0@ == k);
                    let d = choose|d: int| 0 <= d < old_entries.len() && #[trigger] old_entries[d].0@ == k;
                    assert(d == c2);
                }
                assert(self.view() =~= old(self).view().remove(name@));
                assert(old(self).has(name@));
                proof {
                    let names = old(self).names();
                    assert(names[i as int] == name@);
                    let j = names.index_of(name@);
                    assert(0 <= j < names.len() && names[j] == name@);
                    assert(old_entries[j].0@ == names[j]);
                    if j != i {
                        if j < i {
                            assert(old_entries[j].0@ != old_entries[i as int].0@);
                        } else {
                            assert(old_entries[i as int].0@ != old_entries[j].0@);
                        }
                    }
                    assert(self.names() =~= names.remove(i as int));
                }
                true
            },
            None => {
                assert(!old(self).has(name@));
                assert(self.view() =~= old(self).view().remove(name@));
                assert(self.names() =~= old(self).names());
                false
            },
        }
    }

    /// The names and values in the order of the names' first insertion.
    pub fn entries(&self) -> (r: &Vec<(String, V)>)
        requires
            self.wf(),
        ensures
            r@.len() == self.names().len(),
            forall|i: int| 0 <= i < r@.len() ==> #[trigger] r@[i].0@ == self.names()[i]
                && self.view().contains_key(r@[i].0@) && self.view()[r@[i].0@] == r@[i].1,
    {
        assert forall|i: int| 0 <= i < self.entries@.len() implies #[trigger] self.entries@[i].0@ == self.names()[i]
            && self.view().contains_key(self.entries@[i].0@) && self.view()[self.entries@[i].0@] == self.entries@[i].1 by {
            let k = self.entries@[i].0@;
            assert(self.has(k));
            let c = choose|c: int| 0 <= c < self.entries@.len() && #[trigger] self.entries@[c].0@ == k;
            assert(c == i);
        }
        &self.entries
    }
}

/// Whether two string slices hold the same characters.
pub(crate) fn str_eq(a: &str, b: &str) -> (r: bool)
    ensures
        r == (a@ == b@),
{
    let n = a.unicode_len();
    if n != b.unicode_len() {
        return false;
    }
    let mut i: usize = 0;
    while i < n
        invariant
            n == a@.len(),
            n == b@.len(),
            i <= n,
            forall|j: int| 0 <= j < i ==> a@[j] == b@[j],
        decreases n - i,
    {
        if a.get_char(i) != b.get_char(i) {
            return false;
        }
        i = i + 1;
    }
    assert(a@ =~= b@);
    true
}

} // verus!
