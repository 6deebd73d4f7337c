use vstd::prelude::*;
use crate::common::source_owner::{SourceDescriptor, SourceOwner};

verus! {

/// A span of source text: `len` characters from `offset` in the text of
/// `owner`, starting on `line` at column `char`.
#[derive(Clone, Hash, Debug)]
pub struct SourceMap {
    pub owner: SourceOwner,
    pub offset: usize,
    pub line: usize,
    pub char: usize,
    pub len: usize,
}

/// The smallest span holding both spans `(o1, l1)` and `(o2, l2)`, an empty
/// span being no part of it.
pub open spec fn joined_span(o1: usize, l1: usize, o2: usize, l2: usize) -> (int, int) {
    if l2 == 0 {
        (o1 as int, l1 as int)
    } else if l1 == 0 {
        (o2 as int, l2 as int)
    } else {
        let start = if o1 <= o2 { o1 as int } else { o2 as int };
        let end = if o1 + l1 >= o2 + l2 { o1 + l1 } else { o2 + l2 };
        (start, end - start)
    }
}

impl Default for SourceMap {
    fn default() -> (r: Self)
        ensures
            r.owner.descriptor == SourceDescriptor::RustString,
            r.owner.name@ == "default"@,
            r.offset == 0 && r.line == 0 && r.char == 0 && r.len == 0,
    {
        SourceMap {
            owner: SourceOwner::new(SourceDescriptor::RustString, String::from_str("default")),
            offset: 0,
            line: 0,
            char: 0,
            len: 0,
        }
    }
}

impl SourceMap {
    /// The position just after the span.
    pub fn end(&self) -> (r: usize)
        requires
            self.offset + self.len <= usize::MAX,
        ensures
            r == self.offset + self.len,
    {
        self.offset + self.len
    }

    /// The empty span at the end of this one; its line is this span's line
    /// and its column is this span's column plus its offset.
    pub fn end_source(&self) -> (r: SourceMap)
        requires
            self.offset + self.len <= usize::MAX,
            self.char + self.offset <= usize::MAX,
        ensures
            r.owner == self.owner,
            r.offset == self.offset + self.len,
            r.line == self.line,
            r.char == self.char + self.offset,
            r.len == 0,
    {
        SourceMap {
            owner: self.owner.duplicate(),
            offset: self.end(),
            line: self.line,
            char: self.char + self.offset,
            len: 0,
        }
    }

    /// Grows the span to cover `other` too; an empty span adds nothing, and
    /// an empty span grows to the other one.
    pub fn extend(&mut self, other: &SourceMap)
        requires
            old(self).offset + old(self).len <= usize::MAX,
            other.offset + other.len <= usize::MAX,
        ensures
            (final(self).offset as int, final(self).len as int)
                == joined_span(old(self).offset, old(self).len, other.offset, other.len),
            final(self).owner == old(self).owner,
            final(self).line == old(self).line,
            final(self).char == old(self).char,
    {
        if other.len == 0 {
            return;
        }
        if self.len == 0 {
            self.offset = other.offset;
            self.len = other.len;
            return;
        }
        let new_start = if self.offset <= other.offset { self.offset } else { other.offset };
        let e1 = self.end();
        let e2 = other.end();
        let new_end = if e1 >= e2 { e1 } else { e2 };
        self.offset = new_start;
        self.len = new_end - new_start;
    }
}

/// Whether the end of the span fits in a `usize`, as it does for every span
/// of a text in memory.
pub open spec fn fits(s: SourceMap) -> bool {
    s.offset + s.len <= usize::MAX
}

/// The span `a` grown to cover `b` too (see `joined_span`); a span whose end
/// does not fit in a `usize` is left as it is.
pub open spec fn join(a: SourceMap, b: SourceMap) -> SourceMap {
    if fits(a) && fits(b) {
        let (o, l) = joined_span(a.offset, a.len, b.offset, b.len);
        SourceMap { owner: a.owner, offset: o as usize, line: a.line, char: a.char, len: l as usize }
    } else {
        a
    }
}

impl SourceMap {
    /// A copy of the span.
    pub fn duplicate(&self) -> (r: Self)
        ensures
            r == *self,
    {
        SourceMap {
            owner: self.owner.duplicate(),
            offset: self.offset,
            line: self.line,
            char: self.char,
            len: self.len,
        }
    }

    /// Grows the span to cover `other` too (see `join`).
    pub fn join_with(&mut self, other: &SourceMap)
        ensures
            *final(self) == join(*old(self), *other),
    {
        if self.offset <= usize::MAX - self.len && other.offset <= usize::MAX - other.len {
            proof {
                law_extend_covers(self.offset, self.len, other.offset, other.len);
            }
            self.extend(other);
        }
    }
}

/// Extending a span covers both spans: the result starts no later and ends
/// no earlier than each non-empty one, and starts and ends at one of them.
pub proof fn law_extend_covers(o1: usize, l1: usize, o2: usize, l2: usize)
    requires
        o1 + l1 <= usize::MAX,
        o2 + l2 <= usize::MAX,
    ensures
        ({
            let (s, l) = joined_span(o1, l1, o2, l2);
            &&& l1 > 0 ==> s <= o1 && o1 + l1 <= s + l
            &&& l2 > 0 ==> s <= o2 && o2 + l2 <= s + l
            &&& (s == o1 && l1 > 0) || (s == o2 && l2 > 0) || (l1 == 0 && l2 == 0)
            &&& s + l <= usize::MAX
        }),
{
}

} // verus!
