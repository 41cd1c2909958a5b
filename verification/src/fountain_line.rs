//! One physical line of a screenplay document.

use crate::fountain_enums::{FNLineType, FNPartialLineType};
use crate::location_and_length::LocationAndLength;
use crate::text::{
    byte_len, byte_length, chars_of, cluster_equals, cluster_is, ends_with, find_char,
    first_index_of, grapheme_clusters, graphemes, has_suffix, lemma_first_index_from,
    lowercase_of, prefix_of, string_from_chars, to_lowercase,
};
use std::collections::HashSet;
use vstd::prelude::*;

verus! {

/// One line of the document, with its type, its text and where it stands.
#[derive(Debug, PartialEq)]
pub struct FNLine {
    /// The screenplay element this line is.
    pub fn_type: FNLineType,
    /// The visible text of the line.
    pub string: String,
    /// The text of the line as it stands in the document.
    pub raw_string: String,
    /// Number of grapheme clusters in the document before this line.
    pub position: usize,
    /// Number of grapheme clusters in the line.
    pub length: usize,
    /// Depth of the section, for outline elements.
    pub section_depth: i32,
    /// Scene number, filled in by a later outline pass.
    pub scene_number: String,
    /// Colour tag of an outline element.
    pub color: String,
    /// Whether a marker character decided the type of the line.
    pub is_forced: bool,
    /// Whether an editor forced this line to be a character cue.
    pub forced_character_cue: bool,
    pub bold_ranges: HashSet<usize>,
    pub italic_ranges: HashSet<usize>,
    pub underlined_ranges: HashSet<usize>,
    pub bold_italic_ranges: HashSet<usize>,
    pub strikeout_ranges: HashSet<usize>,
    pub note_ranges: HashSet<usize>,
    pub omitted_ranges: HashSet<usize>,
    pub escape_ranges: HashSet<usize>,
    pub removal_suggestion_ranges: HashSet<usize>,
    /// How the line relates to note delimiters, if it holds any.
    pub note_type: Option<FNPartialLineType>,
    /// How the line relates to boneyard delimiters, if it holds any.
    pub boneyard_type: Option<FNPartialLineType>,
}

/// The mathematical content of an [`FNLine`].
pub ghost struct FNLineView {
    pub fn_type: FNLineType,
    pub string: Seq<char>,
    pub raw_string: Seq<char>,
    pub position: nat,
    pub length: nat,
    pub section_depth: int,
    pub scene_number: Seq<char>,
    pub color: Seq<char>,
    pub is_forced: bool,
    pub forced_character_cue: bool,
    pub bold_ranges: Set<usize>,
    pub italic_ranges: Set<usize>,
    pub underlined_ranges: Set<usize>,
    pub bold_italic_ranges: Set<usize>,
    pub strikeout_ranges: Set<usize>,
    pub note_ranges: Set<usize>,
    pub omitted_ranges: Set<usize>,
    pub escape_ranges: Set<usize>,
    pub removal_suggestion_ranges: Set<usize>,
    pub note_type: Option<FNPartialLineType>,
    pub boneyard_type: Option<FNPartialLineType>,
}

impl View for FNLine {
    type V = FNLineView;

    open spec fn view(&self) -> FNLineView {
        FNLineView {
            fn_type: self.fn_type,
            string: self.string@,
            raw_string: self.raw_string@,
            position: self.position as nat,
            length: self.length as nat,
            section_depth: self.section_depth as int,
            scene_number: self.scene_number@,
            color: self.color@,
            is_forced: self.is_forced,
            forced_character_cue: self.forced_character_cue,
            bold_ranges: self.bold_ranges@,
            italic_ranges: self.italic_ranges@,
            underlined_ranges: self.underlined_ranges@,
            bold_italic_ranges: self.bold_italic_ranges@,
            strikeout_ranges: self.strikeout_ranges@,
            note_ranges: self.note_ranges@,
            omitted_ranges: self.omitted_ranges@,
            escape_ranges: self.escape_ranges@,
            removal_suggestion_ranges: self.removal_suggestion_ranges@,
            note_type: self.note_type,
            boneyard_type: self.boneyard_type,
        }
    }
}

/// The characters ` to`, which end the text before the colon of a
/// transition such as `CUT TO:`.
pub open spec fn to_suffix() -> Seq<char> {
    seq![' ', 't', 'o']
}

/// The title page key that a line yields, given the offset of its first
/// colon (the length of the text if it has none), whether its first cluster
/// is a space, and the lower-case form of the text before the colon.
pub open spec fn title_page_key_from(
    text_len: int,
    colon: int,
    leading_space: bool,
    lowered: Seq<char>,
) -> Seq<char> {
    if colon >= text_len || colon == 0 || leading_space || ends_with(lowered, to_suffix()) {
        Seq::empty()
    } else {
        lowered
    }
}

/// The title page key of a line of text: the text before its first colon in
/// lower case, or nothing if the line has no colon, starts with the colon or
/// with a space, or if that text ends in ` to`.
pub open spec fn title_page_key_of(text: Seq<char>) -> Seq<char> {
    title_page_key_from(
        text.len() as int,
        first_index_of(text, ':'),
        cluster_is(grapheme_clusters(text), 0, ' '),
        lowercase_of(text.take(first_index_of(text, ':'))),
    )
}

/// Chooses the title page key from what was read off a line: the offset of
/// its first colon, whether it starts with a space cluster, and the
/// lower-case form of the text before the colon.
pub fn title_page_key_with(
    text_len: usize,
    colon: usize,
    leading_space: bool,
    lowered: String,
) -> (key: String)
    ensures
        key@ == title_page_key_from(text_len as int, colon as int, leading_space, lowered@),
{
    if colon >= text_len || colon == 0 || leading_space {
        return String::new();
    }
    let lowered_chars = chars_of(lowered.as_str());
    let suffix: Vec<char> = vec![' ', 't', 'o'];
    assert(suffix@ =~= to_suffix());
    if has_suffix(&lowered_chars, &suffix) {
        return String::new();
    }
    lowered
}

/// The title page key of a line of text.
pub fn title_page_key(text: &String) -> (key: String)
    ensures
        key@ == title_page_key_of(text@),
{
    let chars = chars_of(text.as_str());
    let colon = find_char(&chars, ':');
    proof {
        lemma_first_index_from(chars@, ':', 0);
    }
    let clusters = graphemes(text.as_str());
    let leading_space = cluster_equals(&clusters, 0, ' ');
    let before = string_from_chars(prefix_of(&chars, colon));
    let lowered = to_lowercase(before.as_str());
    title_page_key_with(chars.len(), colon, leading_space, lowered)
}

/// The views of the lines of a document, in order.
pub open spec fn line_views(lines: Seq<FNLine>) -> Seq<FNLineView> {
    Seq::new(lines.len(), |i: int| lines[i]@)
}

/// The line every new line starts from: unparsed, without text, at offset 0.
pub open spec fn blank_line() -> FNLineView {
    FNLineView {
        fn_type: FNLineType::Unparsed,
        string: Seq::empty(),
        raw_string: Seq::empty(),
        position: 0,
        length: 0,
        section_depth: 0,
        scene_number: Seq::empty(),
        color: Seq::empty(),
        is_forced: false,
        forced_character_cue: false,
        bold_ranges: Set::empty(),
        italic_ranges: Set::empty(),
        underlined_ranges: Set::empty(),
        bold_italic_ranges: Set::empty(),
        strikeout_ranges: Set::empty(),
        note_ranges: Set::empty(),
        omitted_ranges: Set::empty(),
        escape_ranges: Set::empty(),
        removal_suggestion_ranges: Set::empty(),
        note_type: None,
        boneyard_type: None,
    }
}

/// Calls `HashSet::clone`.
///
/// Trusted: the copy holds exactly the offsets of the set it was made from.
#[verifier::external_body]
fn clone_marks(marks: &HashSet<usize>) -> (copy: HashSet<usize>)
    ensures
        copy@ == marks@,
{
    marks.clone()
}

impl Default for FNLine {
    fn default() -> (line: Self)
        ensures
            line@ == blank_line(),
    {
        FNLine {
            fn_type: FNLineType::Unparsed,
            string: String::new(),
            raw_string: String::new(),
            position: 0,
            length: 0,
            section_depth: 0,
            scene_number: String::new(),
            color: String::new(),
            is_forced: false,
            forced_character_cue: false,
            bold_ranges: HashSet::new(),
            italic_ranges: HashSet::new(),
            underlined_ranges: HashSet::new(),
            bold_italic_ranges: HashSet::new(),
            strikeout_ranges: HashSet::new(),
            note_ranges: HashSet::new(),
            omitted_ranges: HashSet::new(),
            escape_ranges: HashSet::new(),
            removal_suggestion_ranges: HashSet::new(),
            note_type: None,
            boneyard_type: None,
        }
    }
}

impl Clone for FNLine {
    fn clone(&self) -> (copy: Self)
        ensures
            copy@ == self@,
    {
        FNLine {
            fn_type: self.fn_type,
            string: self.string.clone(),
            raw_string: self.raw_string.clone(),
            position: self.position,
            length: self.length,
            section_depth: self.section_depth,
            scene_number: self.scene_number.clone(),
            color: self.color.clone(),
            is_forced: self.is_forced,
            forced_character_cue: self.forced_character_cue,
            bold_ranges: clone_marks(&self.bold_ranges),
            italic_ranges: clone_marks(&self.italic_ranges),
            underlined_ranges: clone_marks(&self.underlined_ranges),
            bold_italic_ranges: clone_marks(&self.bold_italic_ranges),
            strikeout_ranges: clone_marks(&self.strikeout_ranges),
            note_ranges: clone_marks(&self.note_ranges),
            omitted_ranges: clone_marks(&self.omitted_ranges),
            escape_ranges: clone_marks(&self.escape_ranges),
            removal_suggestion_ranges: clone_marks(&self.removal_suggestion_ranges),
            note_type: self.note_type,
            boneyard_type: self.boneyard_type,
        }
    }
}

impl FNLineType {
    /// Title, credit, author, draft date, contact or source.
    pub open spec fn is_title_page(self) -> bool {
        self == FNLineType::TitlePageTitle || self == FNLineType::TitlePageCredit || self
            == FNLineType::TitlePageAuthor || self == FNLineType::TitlePageDraftDate || self
            == FNLineType::TitlePageContact || self == FNLineType::TitlePageSource
    }

    /// Character, parenthetical, dialogue or more.
    pub open spec fn is_dialogue(self) -> bool {
        self == FNLineType::Character || self == FNLineType::Parenthetical || self
            == FNLineType::Dialogue || self == FNLineType::More
    }

    /// Any dual dialogue element, the character cue included.
    pub open spec fn is_dual_dialogue(self) -> bool {
        self == FNLineType::DualDialogue || self == FNLineType::DualDialogueCharacter || self
            == FNLineType::DualDialogueParenthetical || self == FNLineType::DualDialogueMore
    }
}

impl FNLine {
    /// Where the line starts, and the length of its visible text in bytes.
    pub fn get_loc_len(&self) -> (span: LocationAndLength)
        ensures
            span.location == self.position,
            span.length == byte_len(self.string@),
    {
        LocationAndLength { location: self.position, length: byte_length(self.string.as_str()) }
    }

    /// The title page key of the line: the visible text before its first
    /// colon in lower case. The key is empty if the line has no colon,
    /// starts with the colon or with a space, or if the text before the
    /// colon ends in ` to`, as a transition does.
    pub fn get_title_page_key(&self) -> (key: String)
        ensures
            key@ == title_page_key_of(self.string@),
    {
        title_page_key(&self.string)
    }

    /// Action, lyrics and centered text may be split across pages.
    pub fn can_be_split_paragraph(&self) -> (can: bool)
        ensures
            can == (self.fn_type == FNLineType::Action || self.fn_type == FNLineType::Lyrics
                || self.fn_type == FNLineType::Centered),
    {
        self.fn_type == FNLineType::Action || self.fn_type == FNLineType::Lyrics || self.fn_type
            == FNLineType::Centered
    }

    /// Headings and sections form the outline.
    pub fn is_outline_element(&self) -> (outline: bool)
        ensures
            outline == (self.fn_type == FNLineType::Heading || self.fn_type
                == FNLineType::Section),
    {
        self.fn_type == FNLineType::Heading || self.fn_type == FNLineType::Section
    }

    /// Whether the line is a title page element that a following line may
    /// continue.
    pub fn is_title_page(&self) -> (title: bool)
        ensures
            title == self.fn_type.is_title_page(),
    {
        match self.fn_type {
            FNLineType::TitlePageTitle
            | FNLineType::TitlePageCredit
            | FNLineType::TitlePageAuthor
            | FNLineType::TitlePageDraftDate
            | FNLineType::TitlePageContact
            | FNLineType::TitlePageSource => true,
            _ => false,
        }
    }

    /// Whether the line carries a partial-type tag for notes or boneyards.
    pub fn is_partial_line(&self) -> (partial: bool)
        ensures
            partial == (self.note_type is Some || self.boneyard_type is Some),
    {
        self.note_type.is_some() || self.boneyard_type.is_some()
    }

    /// Whether the line never prints: sections, synopses and title page
    /// elements.
    pub fn is_invisible(self) -> (invisible: bool)
        ensures
            invisible == (self.fn_type == FNLineType::Section || self.fn_type
                == FNLineType::Synopse || self.fn_type.is_title_page()),
    {
        self.fn_type == FNLineType::Section || self.fn_type == FNLineType::Synopse
            || self.is_title_page()
    }

    /// Any dialogue element, single or dual.
    pub fn is_any_sort_of_dialogue(&self) -> (dialogue: bool)
        ensures
            dialogue == (self.fn_type.is_dialogue() || self.fn_type.is_dual_dialogue()),
    {
        self.is_dialogue() || self.is_dual_dialogue()
    }

    /// Any dialogue element of a single dialogue block, the cue included.
    pub fn is_dialogue(&self) -> (dialogue: bool)
        ensures
            dialogue == self.fn_type.is_dialogue(),
    {
        self.fn_type == FNLineType::Character || self.fn_type == FNLineType::Parenthetical
            || self.fn_type == FNLineType::Dialogue || self.fn_type == FNLineType::More
    }

    /// Parenthetical or dialogue of a single dialogue block.
    pub fn is_dialogue_element(&self) -> (element: bool)
        ensures
            element == (self.fn_type == FNLineType::Parenthetical || self.fn_type
                == FNLineType::Dialogue),
    {
        self.fn_type == FNLineType::Parenthetical || self.fn_type == FNLineType::Dialogue
    }

    /// Any element of a dual dialogue block, the cue included.
    pub fn is_dual_dialogue(&self) -> (dual: bool)
        ensures
            dual == self.fn_type.is_dual_dialogue(),
    {
        self.fn_type == FNLineType::DualDialogue || self.fn_type
            == FNLineType::DualDialogueCharacter || self.fn_type
            == FNLineType::DualDialogueParenthetical || self.fn_type
            == FNLineType::DualDialogueMore
    }

    /// Any element of a dual dialogue block but the cue.
    pub fn is_dual_dialogue_element(&self) -> (element: bool)
        ensures
            element == (self.fn_type == FNLineType::DualDialogueParenthetical || self.fn_type
                == FNLineType::DualDialogue || self.fn_type == FNLineType::DualDialogueMore),
    {
        self.fn_type == FNLineType::DualDialogueParenthetical || self.fn_type
            == FNLineType::DualDialogue || self.fn_type == FNLineType::DualDialogueMore
    }

    /// A character cue, single or dual.
    pub fn is_any_character(&self) -> (character: bool)
        ensures
            character == (self.fn_type == FNLineType::Character || self.fn_type
                == FNLineType::DualDialogueCharacter),
    {
        self.fn_type == FNLineType::Character || self.fn_type
            == FNLineType::DualDialogueCharacter
    }

    /// A parenthetical, single or dual.
    pub fn is_any_parenthetical(&self) -> (parenthetical: bool)
        ensures
            parenthetical == (self.fn_type == FNLineType::Parenthetical || self.fn_type
                == FNLineType::DualDialogueParenthetical),
    {
        self.fn_type == FNLineType::Parenthetical || self.fn_type
            == FNLineType::DualDialogueParenthetical
    }

    /// A line of dialogue, single or dual.
    pub fn is_any_dialogue(&self) -> (dialogue: bool)
        ensures
            dialogue == (self.fn_type == FNLineType::Dialogue || self.fn_type
                == FNLineType::DualDialogue),
    {
        self.fn_type == FNLineType::Dialogue || self.fn_type == FNLineType::DualDialogue
    }
}

} // verus!
