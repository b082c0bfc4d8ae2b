//! A race word and its place on the screen.

use vstd::prelude::*;

verus! {

/// A word of the race with the screen cell its first character occupies.
#[derive(Clone, Debug, PartialEq, Eq)]
pub struct Word {
    pub value: String,
    pub x: u16,
    pub y: u16,
}

/// The mathematical content of a [`Word`].
pub struct WordView {
    pub text: Seq<char>,
    pub x: u16,
    pub y: u16,
}

impl View for Word {
    type V = WordView;

    open spec fn view(&self) -> WordView {
        WordView { text: self.value@, x: self.x, y: self.y }
    }
}

impl DeepView for Word {
    type V = WordView;

    open spec fn deep_view(&self) -> WordView {
        self@
    }
}

impl Word {
    /// Builds a word from its text and coordinates.
    pub fn new(value: &str, x: u16, y: u16) -> (word: Self)
        ensures
            word@ == (WordView { text: value@, x, y }),
    {
        Self { value: value.to_owned(), x, y }
    }
}

} // verus!
