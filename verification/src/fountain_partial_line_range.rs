//! Ranges of invisible text: within one line, and across several lines.

use crate::fountain_line::FNLine;
use uuid::Uuid;
use vstd::prelude::*;

verus! {

/// `uuid::Uuid`, an identifier that a range may carry. The parser hands it
/// on and never looks inside.
#[verifier::external_type_specification]
#[verifier::external_body]
pub struct ExUuid(Uuid);

/// An invisible range inside one self-contained partial line.
#[derive(Debug, PartialEq)]
pub struct FNPartialLineRange {
    /// Identity of the range, for later reference.
    pub id: Option<Uuid>,
    /// Index of the line in the document.
    pub global_index: Option<usize>,
    /// Offset in the line at which the range starts.
    pub local_start: Option<usize>,
    /// Offset in the line at which the range ends.
    pub local_end: Option<usize>,
    /// The line with the invisible text of the range left out.
    pub visible_fnline: Option<FNLine>,
}

impl Default for FNPartialLineRange {
    fn default() -> (range: Self)
        ensures
            range.id is None,
            range.global_index is None,
            range.local_start is None,
            range.local_end is None,
            range.visible_fnline is None,
    {
        FNPartialLineRange {
            id: None,
            global_index: None,
            local_start: None,
            local_end: None,
            visible_fnline: None,
        }
    }
}

impl Clone for FNPartialLineRange {
    fn clone(&self) -> (copy: Self)
        ensures
            copy.id == self.id,
            copy.global_index == self.global_index,
            copy.local_start == self.local_start,
            copy.local_end == self.local_end,
            copy.visible_fnline is Some == self.visible_fnline is Some,
            copy.visible_fnline is Some ==> copy.visible_fnline->0@ == self.visible_fnline->0@,
    {
        FNPartialLineRange {
            id: self.id,
            global_index: self.global_index,
            local_start: self.local_start,
            local_end: self.local_end,
            visible_fnline: match &self.visible_fnline {
                Some(line) => Some(line.clone()),
                None => None,
            },
        }
    }
}

/// An invisible range that starts with an orphaned open on one line and
/// ends with an orphaned close on a later line.
#[derive(Debug, PartialEq)]
pub struct FNPartialMultilineRange {
    /// Identity of the range, for later reference.
    pub id: Option<Uuid>,
    /// Index of the line that holds the open delimiter.
    pub global_start: Option<usize>,
    /// Offset of the open delimiter in its line, in grapheme clusters.
    pub local_start: Option<usize>,
    /// Index of the line that holds the close delimiter.
    pub global_end: Option<usize>,
    /// Offset of the close delimiter in its line, in grapheme clusters.
    pub local_end: Option<usize>,
}

impl Default for FNPartialMultilineRange {
    fn default() -> (range: Self)
        ensures
            range.id is None,
            range.global_start is None,
            range.local_start is None,
            range.global_end is None,
            range.local_end is None,
    {
        FNPartialMultilineRange {
            id: None,
            global_start: None,
            local_start: None,
            global_end: None,
            local_end: None,
        }
    }
}

impl Clone for FNPartialMultilineRange {
    fn clone(&self) -> (copy: Self)
        ensures
            copy == *self,
    {
        FNPartialMultilineRange {
            id: self.id,
            global_start: self.global_start,
            local_start: self.local_start,
            global_end: self.global_end,
            local_end: self.local_end,
        }
    }
}

} // verus!
