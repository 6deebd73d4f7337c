use vstd::prelude::*;
use crate::common::utils::labels::str_eq;
use std::hash::{Hash, Hasher};

verus! {

/// The value `DefaultHasher::new()` gives for a key after hashing it.
pub uninterp spec fn default_hash(key: Seq<char>) -> u64;

/// `DefaultHasher::new()`, `Hash::hash` and `Hasher::finish` on a key. The
/// hasher made by `new` always starts from the same keys, so one key gets
/// one value within a program; that value is named, not stated.
#[verifier::external_body]
fn hash_key(key: &str) -> (r: u64)
    ensures
        r == default_hash(key@),
{
    let mut hasher = std::hash::DefaultHasher::new();
    key.hash(&mut hasher);
    hasher.finish()
}

/// An entry of a bucket: a key and its value.
struct HTNode<E> {
    key: String,
    elem: E,
}

impl<E> HTNode<E> {
    fn new(key: String, elem: E) -> (r: Self)
        ensures
            r.key == key,
            r.elem == elem,
    {
        HTNode { key, elem }
    }
}

/// A hash table from names to values with a fixed number `N` of buckets;
/// a key lives in the bucket its hash picks, modulo `N`.
pub struct ArrayHashTable<E, const N: usize> {
    elems: Vec<Vec<HTNode<E>>>,
}

/// The bucket of a key.
pub open spec fn bucket_of(key: Seq<char>, n: usize) -> int {
    (default_hash(key) as nat % n as nat) as int
}

/// Setting the value of entry `i` of bucket `b` changes the map at that
/// entry's key and nothing else.
proof fn lemma_set_value<E, const N: usize>(t: ArrayHashTable<E, N>, u: ArrayHashTable<E, N>, b: int, i: int, v: E)
    requires
        t.wf(),
        N > 0,
        0 <= b < N,
        0 <= i < t.elems@[b].len(),
        u.elems@ == t.elems@.update(b, u.elems@[b]),
        u.elems@[b]@ == t.elems@[b]@.update(i, HTNode { key: t.elems@[b]@[i].key, elem: v }),
    ensures
        u.wf(),
        u.view() == t.view().insert(t.elems@[b]@[i].key@, v),
{
    let k = t.elems@[b]@[i].key@;
    assert(u.elems@[b][i].key@ == k);
    assert(u.wf()) by {
        assert forall|bb: int, ii: int| 0 <= bb < N && 0 <= ii < u.elems@[bb].len() implies bucket_of(#[trigger] u.elems@[bb][ii].key@, N) == bb by {
            if bb == b {
                assert(u.elems@[bb][ii].key@ == t.elems@[bb][ii].key@);
            }
        }
        assert forall|bb: int, ii: int, jj: int| 0 <= bb < N && 0 <= ii < jj < u.elems@[bb].len() implies #[trigger] u.elems@[bb][ii].key@
            != #[trigger] u.elems@[bb][jj].key@ by {
            if bb == b {
                assert(u.elems@[bb][ii].key@ == t.elems@[bb][ii].key@);
                assert(u.elems@[bb][jj].key@ == t.elems@[bb][jj].key@);
            }
        }
    }
    assert forall|kk: Seq<char>| #![auto] u.view().contains_key(kk) == t.view().insert(k, v).contains_key(kk) by {
        if bucket_of(kk, N) == b {
            if t.has(kk) {
                let j = choose|j: int| 0 <= j < t.elems@[b].len() && #[trigger] t.elems@[b][j].key@ == kk;
                assert(u.elems@[b][j].key@ == kk);
            }
            if u.has(kk) {
                let j = choose|j: int| 0 <= j < u.elems@[b].len() && #[trigger] u.elems@[b][j].key@ == kk;
                assert(t.elems@[b][j].key@ == kk);
            }
            if kk == k {
                assert(t.has(k));
            }
        } else {
            assert(u.elems@[bucket_of(kk, N)] == t.elems@[bucket_of(kk, N)]);
        }
    }
    assert forall|kk: Seq<char>| #![auto] u.view().contains_key(kk) implies u.view()[kk] == t.view().insert(k, v)[kk] by {
        if bucket_of(kk, N) == b {
            let j = choose|j: int| 0 <= j < u.elems@[b].len() && #[trigger] u.elems@[b][j].key@ == kk;
            if kk == k {
                assert(j == i);
            } else {
                assert(t.elems@[b][j].key@ == kk);
                let j2 = choose|j: int| 0 <= j < t.elems@[b].len() && #[trigger] t.elems@[b][j].key@ == kk;
                assert(j2 == j);
            }
        } else {
            assert(u.elems@[bucket_of(kk, N)] == t.elems@[bucket_of(kk, N)]);
        }
    }
    assert(u.view() =~= t.view().insert(k, v));
}

/// The bucket `b`, for changing in place.
fn bucket_mut<E>(elems: &mut Vec<Vec<HTNode<E>>>, b: usize) -> (r: &mut Vec<HTNode<E>>)
    requires
        b < old(elems)@.len(),
    ensures
        *r == old(elems)@[b as int],
        final(elems)@ == old(elems)@.update(b as int, *final(r)),
        final(elems)@[b as int] == *final(r),
{
    &mut elems[b]
}

/// The value of entry `i` of a bucket, for changing in place.
fn value_mut<E>(bucket: &mut Vec<HTNode<E>>, i: usize) -> (r: &mut E)
    requires
        i < old(bucket)@.len(),
    ensures
        *r == old(bucket)@[i as int].elem,
        final(bucket)@ == old(bucket)@.update(i as int, HTNode { key: old(bucket)@[i as int].key, elem: *final(r) }),
        final(bucket)@[i as int].elem == *final(r),
{
    let entry = &mut bucket[i];
    &mut entry.elem
}

impl<E, const N: usize> ArrayHashTable<E, N> {
    /// Each key lives in its bucket, once.
    pub closed spec fn wf(&self) -> bool {
        &&& self.elems@.len() == N
        &&& forall|b: int, i: int|
            0 <= b < N && 0 <= i < self.elems@[b].len() ==> bucket_of(#[trigger] self.elems@[b][i].key@, N) == b
        &&& forall|b: int, i: int, j: int|
            0 <= b < N && 0 <= i < j < self.elems@[b].len() ==> #[trigger] self.elems@[b][i].key@
                != #[trigger] self.elems@[b][j].key@
    }

    pub closed spec fn has(&self, k: Seq<char>) -> bool {
        N > 0 && exists|i: int|
            0 <= i < self.elems@[bucket_of(k, N)].len() && #[trigger] self.elems@[bucket_of(k, N)][i].key@ == k
    }

    pub closed spec fn at(&self, k: Seq<char>) -> E {
        let i = choose|i: int|
            0 <= i < self.elems@[bucket_of(k, N)].len() && #[trigger] self.elems@[bucket_of(k, N)][i].key@ == k;
        self.elems@[bucket_of(k, N)][i].elem
    }

    /// The table as a map.
    pub closed spec fn view(&self) -> Map<Seq<char>, E> {
        Map::new(|k: Seq<char>| self.has(k), |k: Seq<char>| self.at(k))
    }

    pub fn new() -> (r: Self)
        ensures
            r.wf(),
            r.view() == Map::<Seq<char>, E>::empty(),
    {
        let mut elems: Vec<Vec<HTNode<E>>> = Vec::new();
        let mut i: usize = 0;
        while i < N
            invariant
                i <= N,
                elems@.len() == i,
                forall|b: int| 0 <= b < i ==> (#[trigger] elems@[b]).len() == 0,
            decreases N - i,
        {
            elems.push(Vec::new());
            i = i + 1;
        }
        let r = ArrayHashTable { elems };
        assert(r.view() =~= Map::<Seq<char>, E>::empty());
        r
    }

    /// The position of `key` in its bucket `b`.
    fn find(&self, b: usize, key: &str) -> (r: Option<usize>)
        requires
            self.wf(),
            b < N,
        ensures
            match r {
                Some(i) => i < self.elems@[b as int].len() && self.elems@[b as int][i as int].key@ == key@,
                None => forall|i: int| 0 <= i < self.elems@[b as int].len() ==> #[trigger] self.elems@[b as int][i].key@ != key@,
            },
    {
        let bucket = &self.elems[b];
        let mut i: usize = 0;
        while i < bucket.len()
            invariant
                bucket@ == self.elems@[b as int]@,
                i <= bucket@.len(),
                forall|j: int| 0 <= j < i ==> #[trigger] bucket@[j].key@ != key@,
            decreases bucket@.len() - i,
        {
            if str_eq(bucket[i].key.as_str(), key) {
                return Some(i);
            }
            i = i + 1;
        }
        None
    }

    fn bucket(key: &str) -> (b: usize)
        requires
            N > 0,
        ensures
            b == bucket_of(key@, N),
            b < N,
    {
        let h = hash_key(key);
        let n = N as u64;
        (h % n) as usize
    }

    /// Maps `key` to `v`, replacing an earlier value.
    pub fn insert(&mut self, key: String, v: E)
        requires
            old(self).wf(),
            N > 0,
        ensures
            final(self).wf(),
            final(self).view() == old(self).view().insert(key@, v),
    {
        let b = Self::bucket(key.as_str());
        let ghost k = key@;
        match self.find(b, key.as_str()) {
            Some(i) => {
                let mut bucket = self.elems.remove(b);
                let ghost old_bucket = bucket@;
                bucket.set(i, HTNode::new(key, v));
                self.elems.insert(b, bucket);
                assert(self.elems@ =~= old(self).elems@.update(b as int, self.elems@[b as int]));
                proof {
                    assert forall|kk: Seq<char>| #![auto] self.view().contains_key(kk) == old(self).view().insert(k, v).contains_key(kk) by {
                        if kk != k && bucket_of(kk, N) == b {
                            if old(self).has(kk) {
                                let j = choose|j: int| 0 <= j < old_bucket.len() && #[trigger] old_bucket[j].key@ == kk;
                                assert(self.elems@[b as int][j].key@ == kk);
                            }
                            if self.has(kk) {
                                let j = choose|j: int| 0 <= j < self.elems@[b as int].len() && #[trigger] self.elems@[b as int][j].key@ == kk;
                                assert(old_bucket[j].key@ == kk);
                            }
                        }
                        if kk == k {
                            assert(self.elems@[b as int][i as int].key@ == k);
                            assert(self.has(k));
                        }
                        if bucket_of(kk, N) != b {
                            assert(self.elems@[bucket_of(kk, N)] == old(self).elems@[bucket_of(kk, N)]);
                        }
                    }
                    assert forall|kk: Seq<char>| #![auto] self.view().contains_key(kk) implies self.view()[kk] == old(self).view().insert(k, v)[kk] by {
                        if kk == k {
                            let j = choose|j: int| 0 <= j < self.elems@[b as int].len() && #[trigger] self.elems@[b as int][j].key@ == kk;
                            assert(j == i);
                        } else if bucket_of(kk, N) == b {
                            let j = choose|j: int| 0 <= j < self.elems@[b as int].len() && #[trigger] self.elems@[b as int][j].key@ == kk;
                            assert(old_bucket[j].key@ == kk);
                            let j2 = choose|j: int| 0 <= j < old_bucket.len() && #[trigger] old_bucket[j].key@ == kk;
                            assert(j2 == j);
                        }
                    }
                    assert(self.view() =~= old(self).view().insert(k, v));
                }
            },
            None => {
                let mut bucket = self.elems.remove(b);
                let ghost old_bucket = bucket@;
                bucket.push(HTNode::new(key, v));
                self.elems.insert(b, bucket);
                assert(self.elems@ =~= old(self).elems@.update(b as int, self.elems@[b as int]));
                proof {
                    assert forall|kk: Seq<char>| #![auto] self.view().contains_key(kk) == old(self).view().insert(k, v).contains_key(kk) by {
                        if kk != k && bucket_of(kk, N) == b {
                            if old(self).has(kk) {
                                let j = choose|j: int| 0 <= j < old_bucket.len() && #[trigger] old_bucket[j].key@ == kk;
                                assert(self.elems@[b as int][j].key@ == kk);
                            }
                            if self.has(kk) {
                                let j = choose|j: int| 0 <= j < self.elems@[b as int].len() && #[trigger] self.elems@[b as int][j].key@ == kk;
                                assert(old_bucket[j].key@ == kk);
                            }
                        }
                        if kk == k {
                            assert(self.elems@[b as int][old_bucket.len() as int].key@ == k);
                            assert(self.has(k));
                        }
                        if bucket_of(kk, N) != b {
                            assert(self.elems@[bucket_of(kk, N)] == old(self).elems@[bucket_of(kk, N)]);
                        }
                    }
                    assert forall|kk: Seq<char>| #![auto] self.view().contains_key(kk) implies self.view()[kk] == old(self).view().insert(k, v)[kk] by {
                        if kk == k {
                            let j = choose|j: int| 0 <= j < self.elems@[b as int].len() && #[trigger] self.elems@[b as int][j].key@ == kk;
                            assert(j == old_bucket.len());
                        } else if bucket_of(kk, N) == b {
                            let j = choose|j: int| 0 <= j < self.elems@[b as int].len() && #[trigger] self.elems@[b as int][j].key@ == kk;
                            assert(old_bucket[j].key@ == kk);
                            let j2 = choose|j: int| 0 <= j < old_bucket.len() && #[trigger] old_bucket[j].key@ == kk;
                            assert(j2 == j);
                        }
                    }
                    assert(self.view() =~= old(self).view().insert(k, v));
                }
            },
        }
    }

    /// Whether `key` has a value.
    pub fn contains(&mut self, key: &str) -> (r: bool)
        requires
            old(self).wf(),
            N > 0,
        ensures
            r == old(self).view().contains_key(key@),
            *final(self) == *old(self),
    {
        let b = Self::bucket(key);
        match self.find(b, key) {
            Some(i) => {
                assert(self.has(key@));
                true
            },
            None => false,
        }
    }

    /// The value of `key`, if it has one.
    pub fn get(&self, key: &str) -> (r: Option<&E>)
        requires
            self.wf(),
            N > 0,
        ensures
            r == (if self.view().contains_key(key@) {
                Some(&self.view()[key@])
            } else {
                None
            }),
    {
        let b = Self::bucket(key);
        match self.find(b, key) {
            Some(i) => {
                assert(self.has(key@));
                let j = Ghost(choose|j: int| 0 <= j < self.elems@[b as int].len() && #[trigger] self.elems@[b as int][j].key@ == key@);
                assert(j@ == i);
                Some(&self.elems[b][i].elem)
            },
            None => None,
        }
    }

    /// The value of `key` for changing in place, if it has one.
    pub fn get_mut(&mut self, key: &str) -> (r: Option<&mut E>)
        requires
            old(self).wf(),
            N > 0,
        ensures
            match r {
                Some(e) => old(self).view().contains_key(key@) && *e == old(self).view()[key@]
                    && final(self).wf() && final(self).view() == old(self).view().insert(key@, *final(e)),
                None => !old(self).view().contains_key(key@) && *final(self) == *old(self),
            },
    {
        let b = Self::bucket(key);
        match self.find(b, key) {
            Some(i) => {
                assert(self.has(key@));
                let ghost j = choose|j: int| 0 <= j < self.elems@[b as int].len() && #[trigger] self.elems@[b as int][j].key@ == key@;
                assert(j == i);
                proof {
                    assert forall|u: ArrayHashTable<E, N>|
                        u.elems@ == old(self).elems@.update(b as int, u.elems@[b as int])
                        && u.elems@[b as int]@ == old(self).elems@[b as int]@.update(
                            i as int,
                            HTNode { key: old(self).elems@[b as int]@[i as int].key, elem: u.elems@[b as int]@[i as int].elem },
                        )
                        implies #[trigger] u.wf() && u.view() == old(self).view().insert(key@, u.elems@[b as int]@[i as int].elem) by {
                        lemma_set_value(*old(self), u, b as int, i as int, u.elems@[b as int]@[i as int].elem);
                    }
                }
                let bucket = bucket_mut(&mut self.elems, b);
                Some(value_mut(bucket, i))
            },
            None => None,
        }
    }
}

impl<E, const N: usize> ArrayHashTable<E, N> {
    /// The value of `key`, which has one.
    pub fn index(&self, key: &str) -> (r: &E)
        requires
            self.wf(),
            N > 0,
            self.view().contains_key(key@),
        ensures
            *r == self.view()[key@],
    {
        match self.get(key) {
            Some(v) => v,
            None => vstd::pervasive::unreached(),
        }
    }

    /// The value of `key`, which has one, for changing in place.
    pub fn index_mut(&mut self, key: &str) -> (r: &mut E)
        requires
            old(self).wf(),
            N > 0,
            old(self).view().contains_key(key@),
        ensures
            *r == old(self).view()[key@],
            final(self).wf(),
            final(self).view() == old(self).view().insert(key@, *final(r)),
    {
        match self.get_mut(key) {
            Some(v) => v,
            None => vstd::pervasive::unreached(),
        }
    }
}

/// After `insert(k, v)`, reading `k` gives `v`, and every other key is
/// present exactly when it was before, with the value it had.
pub proof fn law_read_after_write<E, const N: usize>(
    before: ArrayHashTable<E, N>,
    after: ArrayHashTable<E, N>,
    k: Seq<char>,
    v: E,
    other: Seq<char>,
)
    requires
        after.view() == before.view().insert(k, v),
        other != k,
    ensures
        after.view().contains_key(k) && after.view()[k] == v,
        after.view().contains_key(other) == before.view().contains_key(other),
        before.view().contains_key(other) ==> after.view()[other] == before.view()[other],
{
}

/// The map made by inserting the pairs of `ops`, in order, into an empty
/// table.
pub open spec fn inserts_view<E>(ops: Seq<(Seq<char>, E)>) -> Map<Seq<char>, E>
    decreases ops.len(),
{
    if ops.len() == 0 {
        Map::empty()
    } else {
        inserts_view(ops.drop_last()).insert(ops.last().0, ops.last().1)
    }
}

/// The value of the last pair of `ops` with key `k`, if there is one.
pub open spec fn last_value<E>(ops: Seq<(Seq<char>, E)>, k: Seq<char>) -> Option<E>
    decreases ops.len(),
{
    if ops.len() == 0 {
        None
    } else if ops.last().0 == k {
        Some(ops.last().1)
    } else {
        last_value(ops.drop_last(), k)
    }
}

proof fn lemma_inserts_last<E>(ops: Seq<(Seq<char>, E)>, k: Seq<char>)
    ensures
        match last_value(ops, k) {
            Some(v) => inserts_view(ops).contains_key(k) && inserts_view(ops)[k] == v,
            None => !inserts_view(ops).contains_key(k),
        },
    decreases ops.len(),
{
    if ops.len() > 0 {
        lemma_inserts_last(ops.drop_last(), k);
    }
}

/// A table made by `new` and then `insert` of each pair of `ops` in order
/// (`new` gives the empty map, and each `insert` adds one pair, so its view
/// is `inserts_view(ops)`) holds under each key the value of the last pair
/// with that key, and holds no key that no pair has.
pub proof fn law_insert_history<E, const N: usize>(t: ArrayHashTable<E, N>, ops: Seq<(Seq<char>, E)>, k: Seq<char>)
    requires
        t.view() == inserts_view(ops),
    ensures
        inserts_view(Seq::<(Seq<char>, E)>::empty()) == Map::<Seq<char>, E>::empty(),
        forall|x: (Seq<char>, E)| #[trigger] inserts_view(ops.push(x)) == inserts_view(ops).insert(x.0, x.1),
        match last_value(ops, k) {
            Some(v) => t.view().contains_key(k) && t.view()[k] == v,
            None => !t.view().contains_key(k),
        },
{
    assert forall|x: (Seq<char>, E)| #[trigger] inserts_view(ops.push(x)) == inserts_view(ops).insert(x.0, x.1) by {
        assert(ops.push(x).drop_last() =~= ops);
    }
    lemma_inserts_last(ops, k);
}

} // verus!
