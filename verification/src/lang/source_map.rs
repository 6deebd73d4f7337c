use vstd::prelude::*;
use crate::common::utils::labels::str_eq;
use crate::compiler::RegistryItem;
use crate::common::utils::chars::{append_decimal, decimal};

verus! {

/// A source text with an optional label, such as the name of its file.
#[derive(Clone, Debug)]
pub struct Source {
    label: Option<String>,
    source_str: String,
}

impl View for Source {
    /// The label and the text.
    type V = (Option<Seq<char>>, Seq<char>);

    closed spec fn view(&self) -> (Option<Seq<char>>, Seq<char>) {
        (
            match self.label {
                Some(l) => Some(l@),
                None => None,
            },
            self.source_str@,
        )
    }
}

impl Source {
    pub fn new(label: String, contents: String) -> (r: Self)
        ensures
            r@ == (Some(label@), contents@),
    {
        Source { label: Some(label), source_str: contents }
    }

    pub fn get_source(&self) -> (r: &str)
        ensures
            r@ == self@.1,
    {
        self.source_str.as_str()
    }

    pub fn get_label(&self) -> (r: Option<&str>)
        ensures
            match r {
                Some(l) => self@.0 == Some(l@),
                None => self@.0 is None,
            },
    {
        match &self.label {
            Some(l) => Some(l.as_str()),
            None => None,
        }
    }
}

impl From<String> for Source {
    /// A source without a label.
    fn from(value: String) -> (r: Self) {
        Source { label: None, source_str: value }
    }
}

impl vstd::std_specs::convert::FromSpecImpl<String> for Source {
    open spec fn obeys_from_spec() -> bool {
        true
    }

    closed spec fn from_spec(v: String) -> Self {
        Source { label: None, source_str: v }
    }
}

impl RegistryItem for Source {
    fn same(&self, other: &Self) -> (r: bool) {
        let text_same = str_eq(self.source_str.as_str(), other.source_str.as_str());
        match (&self.label, &other.label) {
            (Some(a), Some(b)) => text_same && str_eq(a.as_str(), b.as_str()),
            (None, None) => text_same,
            _ => false,
        }
    }
}

/// A span in a registered source: `len` characters from `offset`, starting
/// on `line` at column `char`, in the source with id `source`.
#[derive(Copy, Clone, Debug)]
pub struct SourceMap {
    pub source: u32,
    pub line: u32,
    pub char: u32,
    pub offset: u32,
    pub len: u32,
}

impl SourceMap {
    /// The span as messages show it: `line L, char C, len N`.
    pub fn describe(&self) -> (r: String)
        ensures
            r@ == "line "@ + decimal(self.line as nat) + ", char "@ + decimal(self.char as nat) + ", len "@
                + decimal(self.len as nat),
    {
        let mut s = String::new();
        s.append("line ");
        append_decimal(&mut s, self.line as u128);
        s.append(", char ");
        append_decimal(&mut s, self.char as u128);
        s.append(", len ");
        append_decimal(&mut s, self.len as u128);
        s
    }

    /// Extends the span to the end of `other` when `other` lies in the same
    /// source, starts later and ends later; says whether it did.
    pub fn extend(&mut self, other: &SourceMap) -> (r: bool)
        requires
            old(self).offset + old(self).len <= u32::MAX,
            other.offset + other.len <= u32::MAX,
        ensures
            r == (old(self).source == other.source && other.offset > old(self).offset
                && other.offset + other.len > old(self).offset + old(self).len),
            r ==> *final(self) == (SourceMap { len: (other.offset + other.len - old(self).offset) as u32, ..*old(self) }),
            !r ==> *final(self) == *old(self),
    {
        if self.source == other.source && other.offset > self.offset && other.offset + other.len > self.offset
            + self.len {
            self.len = (other.offset + other.len) - self.offset;
            true
        } else {
            false
        }
    }
}

/// A span that was extended still starts where it did and now ends where
/// the other span ends.
pub proof fn law_extend_reaches_other(s: SourceMap, other: SourceMap)
    requires
        s.source == other.source,
        other.offset > s.offset,
        other.offset + other.len > s.offset + s.len,
        s.offset + s.len <= u32::MAX,
        other.offset + other.len <= u32::MAX,
    ensures
        ({
            let t = SourceMap { len: (other.offset + other.len - s.offset) as u32, ..s };
            t.offset == s.offset && t.offset + t.len == other.offset + other.len && t.len > s.len
        }),
{
}

} // verus!
