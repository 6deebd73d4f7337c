use vstd::prelude::*;
use crate::common::utils::labels::str_eq;

pub mod compile_message;
pub mod modules;

verus! {

/// The kind of a compiler message.
#[derive(Copy, Clone, Debug, PartialEq, Eq, Structural)]
pub enum CompileMessageType {
    Error,
    Warning,
    Info,
}

/// Items that a registry can tell apart by their views.
pub trait RegistryItem: View + Sized {
    fn same(&self, other: &Self) -> (r: bool)
        ensures
            r == (self@ == other@);
}

impl RegistryItem for String {
    fn same(&self, other: &Self) -> (r: bool) {
        str_eq(self.as_str(), other.as_str())
    }
}

/// A list of distinct items, each known by its position: adding an item
/// that is already there gives its position back.
pub struct Registry<T: RegistryItem> {
    pub items: Vec<T>,
}

impl<T: RegistryItem> Registry<T> {
    /// The views of the items, by position.
    pub closed spec fn view(&self) -> Seq<T::V> {
        self.items@.map_values(|t: T| t@)
    }

    /// No item occurs twice.
    pub open spec fn wf(&self) -> bool {
        forall|i: int, j: int| 0 <= i < j < self.view().len() ==> #[trigger] self.view()[i] != #[trigger] self.view()[j]
    }

    pub fn new() -> (r: Self)
        ensures
            r.wf(),
            r.view() == Seq::<T::V>::empty(),
    {
        let r = Registry { items: Vec::new() };
        assert(r.view() =~= Seq::<T::V>::empty());
        r
    }

    /// The id of `item`: its position when it is already there, else the
    /// next position, where it is added.
    pub fn add(&mut self, item: T) -> (id: u32)
        requires
            old(self).wf(),
            old(self).view().len() < u32::MAX,
        ensures
            final(self).wf(),
            (final(self).view(), id as int) == registered(old(self).view(), item@),
    {
        let mut i: usize = 0;
        while i < self.items.len()
            invariant
                i <= self.items@.len(),
                self.view().len() == self.items@.len(),
                self.wf(),
                self.view() == old(self).view(),
                self.view().len() < u32::MAX,
                forall|j: int| 0 <= j < i ==> self.view()[j] != item@,
            decreases self.items@.len() - i,
        {
            if self.items[i].same(&item) {
                assert(self.view()[i as int] == self.items@[i as int]@);
                proof {
                    lemma_position_unique(self.view(), item@, i as int);
                }
                return i as u32;
            }
            assert(self.view()[i as int] == self.items@[i as int]@);
            i = i + 1;
        }
        assert(!self.view().contains(item@));
        let id = self.items.len();
        self.items.push(item);
        assert(self.view() =~= old(self).view().push(item@));
        id as u32
    }
}

/// The position of `x` in `s`, for an `x` that occurs in `s`.
pub open spec fn position_of<V>(s: Seq<V>, x: V) -> int {
    choose|i: int| 0 <= i < s.len() && s[i] == x
}

/// Registering `x` in the list `s`: the list and the id of `x`.
pub open spec fn registered<V>(s: Seq<V>, x: V) -> (Seq<V>, int) {
    if s.contains(x) {
        (s, position_of(s, x))
    } else {
        (s.push(x), s.len() as int)
    }
}

proof fn lemma_position_unique<V>(s: Seq<V>, x: V, i: int)
    requires
        0 <= i < s.len(),
        s[i] == x,
        forall|a: int, b: int| 0 <= a < b < s.len() ==> #[trigger] s[a] != #[trigger] s[b],
    ensures
        position_of(s, x) == i,
{
    let j = position_of(s, x);
    assert(0 <= j < s.len() && s[j] == x);
    if j < i {
        assert(s[j] != s[i]);
    } else if i < j {
        assert(s[i] != s[j]);
    }
}

/// Registering an item a second time changes nothing and gives the same
/// id, and the registered item is found at its id.
pub proof fn law_register_twice<V>(s: Seq<V>, x: V)
    requires
        forall|a: int, b: int| 0 <= a < b < s.len() ==> #[trigger] s[a] != #[trigger] s[b],
    ensures
        registered(registered(s, x).0, x) == registered(s, x),
        registered(s, x).0[registered(s, x).1] == x,
        0 <= registered(s, x).1 < registered(s, x).0.len(),
{
    let (t, id) = registered(s, x);
    if s.contains(x) {
        let i = choose|i: int| 0 <= i < s.len() && s[i] == x;
        lemma_position_unique(s, x, i);
    } else {
        assert(t[s.len() as int] == x);
        assert(forall|a: int, b: int| 0 <= a < b < t.len() ==> #[trigger] t[a] != #[trigger] t[b]) by {
            assert forall|a: int, b: int| 0 <= a < b < t.len() implies #[trigger] t[a] != #[trigger] t[b] by {
                if b == s.len() {
                    assert(t[a] == s[a]);
                    assert(s.contains(s[a]));
                } else {
                    assert(t[a] == s[a] && t[b] == s[b]);
                }
            }
        }
        assert(t.contains(x));
        lemma_position_unique(t, x, s.len() as int);
    }
}

} // verus!
