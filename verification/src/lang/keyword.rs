use vstd::prelude::*;

verus! {

/// The keywords of the language.
#[derive(Copy, Clone, Debug, PartialEq, Eq, Structural)]
pub enum Keyword {
    Let,
    Fn,
    Return,
}

impl Keyword {
    /// How the keyword is spelled.
    pub open spec fn text(self) -> Seq<char> {
        match self {
            Keyword::Let => seq!['l', 'e', 't'],
            Keyword::Fn => seq!['f', 'n'],
            Keyword::Return => seq!['r', 'e', 't', 'u', 'r', 'n'],
        }
    }

    /// The number of characters in the keyword.
    pub fn len(&self) -> (r: usize)
        ensures
            r == self.text().len(),
    {
        match self {
            Keyword::Let => 3,
            Keyword::Fn => 2,
            Keyword::Return => 6,
        }
    }
}

} // verus!
