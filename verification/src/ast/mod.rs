use vstd::prelude::*;
use crate::common::sourcemap::SourceMap;

pub mod grammar;
pub mod items;
pub mod parse;
pub mod statements;
pub mod token;
pub mod ty;

verus! {

/// A piece of syntax with the span of source it was read from.
pub struct GenericSyntax<T> {
    pub data: T,
    pub smap: SourceMap,
}

impl<T> GenericSyntax<T> {
    pub fn new(data: T, smap: SourceMap) -> (r: Self)
        ensures
            r.data == data,
            r.smap == smap,
    {
        GenericSyntax { data, smap }
    }
}

} // verus!
