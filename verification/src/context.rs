use vstd::prelude::*;
use crate::compiler::Registry;
use crate::lang::source_map::{Source, SourceMap};

verus! {

/// The kind of a message gathered while reading sources.
#[derive(Copy, Clone, Debug, PartialEq, Eq, Structural)]
pub enum CompileMessageKind {
    Warning,
    TokenError,
}

/// A message about a span, with an optional text.
pub struct CompileMessage {
    pub kind: CompileMessageKind,
    pub message: Option<String>,
    pub source: SourceMap,
}

/// What a compilation knows as it goes: its arguments, the messages so
/// far and the sources it has read.
pub struct Context<A> {
    compiler_arguments: A,
    errors: Vec<CompileMessage>,
    sources: Registry<Source>,
}

impl<A> Context<A> {
    /// The messages in the order they were emitted.
    pub closed spec fn messages(&self) -> Seq<CompileMessage> {
        self.errors@
    }

    pub closed spec fn arguments(&self) -> A {
        self.compiler_arguments
    }

    pub closed spec fn source_list(&self) -> Seq<(Option<Seq<char>>, Seq<char>)> {
        self.sources.view()
    }

    pub fn new(args: A) -> (r: Self)
        ensures
            r.arguments() == args,
            r.messages().len() == 0,
            r.source_list().len() == 0,
    {
        Context { compiler_arguments: args, errors: Vec::new(), sources: Registry::new() }
    }

    /// The messages so far.
    pub fn errors(&self) -> (r: &Vec<CompileMessage>)
        ensures
            r@ == self.messages(),
    {
        &self.errors
    }

    pub fn emit_warning(&mut self, source: SourceMap, message: Option<String>)
        ensures
            final(self).messages() == old(self).messages().push(
                CompileMessage { kind: CompileMessageKind::Warning, message, source },
            ),
            final(self).arguments() == old(self).arguments(),
            final(self).source_list() == old(self).source_list(),
    {
        self.errors.push(CompileMessage { kind: CompileMessageKind::Warning, message, source });
    }

    pub fn emit_token_error(&mut self, source: SourceMap, message: Option<String>)
        ensures
            final(self).messages() == old(self).messages().push(
                CompileMessage { kind: CompileMessageKind::TokenError, message, source },
            ),
            final(self).arguments() == old(self).arguments(),
            final(self).source_list() == old(self).source_list(),
    {
        self.errors.push(CompileMessage { kind: CompileMessageKind::TokenError, message, source });
    }
}

} // verus!
