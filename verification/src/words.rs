//! Word entries: one word in its American, British and Indian variants.

use vstd::prelude::*;
use vstd::string::*;

verus! {

/// One entry of the vocabulary: the same word as three variants of English
/// write it. An entry has no identity beyond its place in a list, and any
/// text, the empty one included, is a valid variant.
#[derive(Debug)]
pub struct Word {
    pub american: String,
    pub british: String,
    pub indian: String,
}

/// What a [`Word`] holds, as plain sequences of characters.
pub struct WordText {
    pub american: Seq<char>,
    pub british: Seq<char>,
    pub indian: Seq<char>,
}

impl View for Word {
    type V = WordText;

    open spec fn view(&self) -> WordText {
        WordText { american: self.american@, british: self.british@, indian: self.indian@ }
    }
}

impl Word {
    /// An entry with the three variants given.
    pub fn new(american: &str, british: &str, indian: &str) -> (word: Word)
        ensures
            word@.american == american@,
            word@.british == british@,
            word@.indian == indian@,
    {
        Word {
            american: String::from_str(american),
            british: String::from_str(british),
            indian: String::from_str(indian),
        }
    }
}

/// The entries of a word document, in the order of the document.
#[derive(Debug)]
pub struct WordList {
    pub words: Vec<Word>,
}

/// The texts of a sequence of entries, in the same order.
pub open spec fn word_texts(words: Seq<Word>) -> Seq<WordText> {
    words.map_values(|w: Word| w@)
}

impl View for WordList {
    type V = Seq<WordText>;

    open spec fn view(&self) -> Seq<WordText> {
        word_texts(self.words@)
    }
}

} // verus!
