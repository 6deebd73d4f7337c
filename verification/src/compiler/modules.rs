use vstd::prelude::*;
use crate::ast::items::structure::{Item, ItemV, items_view, module_items_spec, parse_items};
use crate::ast::token::Token;
use crate::common::sourcemap::SourceMap;
use crate::common::utils::modulepath::ModulePath;
use crate::compiler::compile_message::{CompileMessage, msgs_view};

verus! {

/// A module read into items, with the modules it depends on.
pub struct LModule {
    pub smap: SourceMap,
    pub ast: Vec<Item>,
    pub dependencies: Vec<ModulePath>,
}

impl LModule {
    /// Reads the items of a module from its tokens (see
    /// `module_items_spec`); errors are added to `msgs`.
    pub fn parse_untyped(_path: ModulePath, tokens: Vec<Token>, smap: SourceMap, dependencies: Vec<ModulePath>, msgs: &mut Vec<CompileMessage>) -> (r: LModule)
        ensures
            (items_view(r.ast@), msgs_view(final(msgs)@)) == module_items_spec(tokens@, Seq::<ItemV>::empty(), msgs_view(old(msgs)@)),
            r.smap == smap,
            r.dependencies == dependencies,
    {
        let mut tokens = tokens;
        let acc: Vec<Item> = Vec::new();
        assert(items_view(acc@) =~= Seq::<ItemV>::empty());
        let ast = parse_items(&mut tokens, acc, msgs);
        LModule { smap, ast, dependencies }
    }
}

} // verus!
