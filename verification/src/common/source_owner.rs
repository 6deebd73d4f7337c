use vstd::prelude::*;

verus! {

/// Where a piece of source text comes from.
#[derive(Clone, Copy, PartialEq, Eq, Structural, Hash, Debug)]
pub enum SourceDescriptor {
    RustString,
    File,
}

impl SourceDescriptor {
    /// How the kind of source is written in messages.
    pub fn describe(&self) -> (r: &'static str)
        ensures
            r@ == (match *self {
                SourceDescriptor::File => "file"@,
                SourceDescriptor::RustString => "rust string"@,
            }),
    {
        match self {
            SourceDescriptor::File => "file",
            SourceDescriptor::RustString => "rust string",
        }
    }
}

/// The owner of a piece of source text: its kind and its name.
#[derive(Clone, PartialEq, Eq, Hash, Debug)]
pub struct SourceOwner {
    pub descriptor: SourceDescriptor,
    pub name: String,
}

impl SourceOwner {
    pub fn new(descriptor: SourceDescriptor, name: String) -> (r: Self)
        ensures
            r.descriptor == descriptor,
            r.name == name,
    {
        SourceOwner { descriptor, name }
    }

    /// A copy of the owner.
    pub fn duplicate(&self) -> (r: Self)
        ensures
            r == *self,
    {
        SourceOwner { descriptor: self.descriptor, name: self.name.clone() }
    }
}

} // verus!
