use vstd::prelude::*;
use crate::common::utils::labels::str_eq;
use crate::common::utils::modulepath::ModulePath;

verus! {

/// A named type, with its size in bytes when that is known.
#[derive(Clone, Debug)]
pub struct TypeName {
    pub modulepath: ModulePath,
    pub size: Option<usize>,
}

/// The types of a compilation; the position of a type is its id.
#[derive(Clone, Debug)]
pub struct TypeContext {
    types: Vec<TypeName>,
}

/// The last position in `names` that holds `name`, or -1.
pub open spec fn last_index_of(names: Seq<Seq<char>>, name: Seq<char>) -> int
    decreases names.len(),
{
    if names.len() == 0 {
        -1
    } else if names.last() == name {
        names.len() - 1
    } else {
        last_index_of(names.drop_last(), name)
    }
}

proof fn lemma_last_index_bounds(names: Seq<Seq<char>>, name: Seq<char>)
    ensures
        -1 <= last_index_of(names, name) < names.len(),
        last_index_of(names, name) >= 0 ==> names[last_index_of(names, name)] == name,
    decreases names.len(),
{
    if names.len() > 0 && names.last() != name {
        lemma_last_index_bounds(names.drop_last(), name);
    }
}

impl TypeContext {
    /// The types in the order they were added.
    pub closed spec fn view(&self) -> Seq<TypeName> {
        self.types@
    }

    /// The module paths of the types, by id.
    pub open spec fn names(&self) -> Seq<Seq<char>> {
        self.view().map_values(|t: TypeName| t.modulepath.path@)
    }

    pub fn new() -> (r: Self)
        ensures
            r.view() == Seq::<TypeName>::empty(),
    {
        TypeContext { types: Vec::new() }
    }

    /// Adds a type; its id is the number of types before it. A later type
    /// with the same path is the one found by that path.
    pub fn add_type(&mut self, ty: TypeName) -> (r: u64)
        ensures
            r == old(self).view().len(),
            final(self).view() == old(self).view().push(ty),
    {
        let res = self.types.len() as u64;
        self.types.push(ty);
        res
    }

    pub fn get_type_by_id(&self, id: u64) -> (r: Option<&TypeName>)
        ensures
            r == (if id < self.view().len() {
                Some(&self.view()[id as int])
            } else {
                None
            }),
    {
        if id < self.types.len() as u64 {
            Some(&self.types[id as usize])
        } else {
            None
        }
    }

    /// The type added last under `name`.
    pub fn get_type_by_name(&self, name: &ModulePath) -> (r: Option<&TypeName>)
        ensures
            r == (if last_index_of(self.names(), name.path@) >= 0 {
                Some(&self.view()[last_index_of(self.names(), name.path@)])
            } else {
                None
            }),
    {
        let mut i: usize = self.types.len();
        assert(self.names().subrange(0, i as int) =~= self.names());
        while i > 0
            invariant
                i <= self.types@.len(),
                self.names().len() == self.types@.len(),
                last_index_of(self.names(), name.path@) == last_index_of(self.names().subrange(0, i as int), name.path@),
            decreases i,
        {
            let sub = Ghost(self.names().subrange(0, i as int));
            assert(sub@.drop_last() =~= self.names().subrange(0, i - 1));
            if str_eq(self.types[i - 1].modulepath.path.as_str(), name.path.as_str()) {
                assert(sub@.last() == self.names()[i - 1]);
                return Some(&self.types[i - 1]);
            }
            i = i - 1;
        }
        assert(self.names().subrange(0, 0) =~= Seq::<Seq<char>>::empty());
        None
    }
}

/// A type added to a context is found by its id, and by its path.
pub proof fn law_added_type_found(names: Seq<Seq<char>>, name: Seq<char>)
    ensures
        last_index_of(names.push(name), name) == names.len(),
{
    assert(names.push(name).last() == name);
}

proof fn lemma_last_index_is_last(names: Seq<Seq<char>>, name: Seq<char>)
    ensures
        last_index_of(names, name) >= 0 <==> exists|i: int| 0 <= i < names.len() && names[i] == name,
        last_index_of(names, name) >= 0 ==> names[last_index_of(names, name)] == name,
        forall|j: int| last_index_of(names, name) < j < names.len() ==> names[j] != name,
    decreases names.len(),
{
    lemma_last_index_bounds(names, name);
    if names.len() > 0 && names.last() != name {
        let d = names.drop_last();
        lemma_last_index_is_last(d, name);
        if exists|i: int| 0 <= i < names.len() && names[i] == name {
            let i = choose|i: int| 0 <= i < names.len() && names[i] == name;
            assert(i < names.len() - 1);
            assert(d[i] == name);
        }
        assert forall|j: int| last_index_of(names, name) < j < names.len() implies names[j] != name by {
            if j < names.len() - 1 {
                assert(d[j] == names[j]);
            }
        }
        if last_index_of(names, name) >= 0 {
            assert(d[last_index_of(d, name)] == names[last_index_of(d, name)]);
        }
    } else if names.len() > 0 {
        assert(names[names.len() - 1] == name);
    }
}

/// A context made by `new` and then `add_type` of each type of a list in
/// order holds exactly that list, with ids from zero; looking a path up
/// finds the type added last under that path (with the id that `add_type`
/// gave it), and nothing when no type was added under it.
pub proof fn law_lookup_history(ctx: TypeContext, added: Seq<TypeName>, name: Seq<char>)
    requires
        ctx.view() == added,
    ensures
        ({
            let k = last_index_of(ctx.names(), name);
            &&& (k >= 0 <==> exists|i: int| 0 <= i < added.len() && added[i].modulepath.path@ == name)
            &&& k >= 0 ==> added[k].modulepath.path@ == name
            &&& forall|j: int| k < j < added.len() ==> added[j].modulepath.path@ != name
        }),
{
    let names = ctx.names();
    lemma_last_index_is_last(names, name);
    lemma_last_index_bounds(names, name);
    assert(forall|i: int| 0 <= i < added.len() ==> names[i] == #[trigger] added[i].modulepath.path@);
}

} // verus!
