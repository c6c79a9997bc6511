//! The words accepted as guesses.

use vstd::prelude::*;

use crate::word::same_letters;

verus! {

/// A fixed list of accepted words, read only for membership.
pub struct Dictionary {
    words: Vec<Vec<char>>,
}

impl View for Dictionary {
    type V = Seq<Seq<char>>;

    closed spec fn view(&self) -> Seq<Seq<char>> {
        self.words@.map_values(|w: Vec<char>| w@)
    }
}

impl Dictionary {
    /// A dictionary of the given words.
    pub fn new(words: Vec<Vec<char>>) -> (r: Self)
        ensures
            r@ == words@.map_values(|w: Vec<char>| w@),
    {
        Dictionary { words }
    }

    /// Whether `w` is one of the words.
    pub fn contains(&self, w: &Vec<char>) -> (r: bool)
        ensures
            r == self@.contains(w@),
    {
        let mut i: usize = 0;
        while i < self.words.len()
            invariant
                i <= self.words@.len(),
                self@.len() == self.words@.len(),
                forall|k: int| 0 <= k < i ==> #[trigger] self@[k] != w@,
            decreases self.words@.len() - i,
        {
            if same_letters(&self.words[i], w) {
                assert(self@[i as int] == w@);
                return true;
            }
            i = i + 1;
        }
        false
    }
}

} // verus!
