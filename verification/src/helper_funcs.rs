//! Small text predicates shared by the classifier.

use crate::text::{
    chars_of, find_char, first_index_of, lemma_first_index_from, prefix_of, same_chars,
    string_from_chars, to_uppercase, uppercase_of,
};
use vstd::prelude::*;

verus! {

/// The part of `text` before its first `(`, or all of it if it holds none.
pub open spec fn cue_of(text: Seq<char>) -> Seq<char> {
    text.take(first_index_of(text, '('))
}

/// Whether the part of `text` before its first `(` is not empty and equals
/// its own upper-case form.
pub open spec fn cue_is_uppercase(text: Seq<char>) -> bool {
    cue_of(text).len() > 0 && uppercase_of(cue_of(text)) == cue_of(text)
}

/// Decides whether a cue is written in upper case, given the cue and its
/// upper-case form.
pub fn cue_matches_uppercase(cue: &Vec<char>, upper: &Vec<char>) -> (matches: bool)
    ensures
        matches == (cue@.len() > 0 && upper@ == cue@),
{
    cue.len() > 0 && same_chars(upper, cue)
}

/// Whether the text is in upper case up to its first `(`, and that part is
/// not empty.
pub fn only_uppercase_until_parenthesis(text: &String) -> (uppercase: bool)
    ensures
        uppercase == cue_is_uppercase(text@),
{
    let chars = chars_of(text.as_str());
    let end = find_char(&chars, '(');
    proof {
        lemma_first_index_from(chars@, '(', 0);
    }
    let cue = prefix_of(&chars, end);
    let cue_text = string_from_chars(prefix_of(&chars, end));
    let upper = chars_of(to_uppercase(cue_text.as_str()).as_str());
    cue_matches_uppercase(&cue, &upper)
}

} // verus!
