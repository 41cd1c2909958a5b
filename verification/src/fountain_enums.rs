//! The closed sets of tags used by the parser: screenplay line types,
//! invisible element kinds and partial-line types.

use vstd::prelude::*;
use vstd::string::StringExecFns;

verus! {

/// The screenplay element a line is classified as.
#[derive(Debug, PartialEq, Eq, Structural, Clone, Copy)]
pub enum FNLineType {
    Empty,
    Section,
    Synopse,
    TitlePageTitle,
    TitlePageAuthor,
    TitlePageCredit,
    TitlePageSource,
    TitlePageContact,
    TitlePageDraftDate,
    TitlePageUnknown,
    Heading,
    Action,
    Character,
    Parenthetical,
    Dialogue,
    DualDialogueCharacter,
    DualDialogueParenthetical,
    DualDialogue,
    TransitionLine,
    Lyrics,
    PageBreak,
    Centered,
    Shot,
    /// Pseudo element used only when exporting.
    More,
    /// Pseudo element used only when exporting.
    DualDialogueMore,
    /// Marks the end of the ordinary line types.
    TypeCount,
    /// The type of a line that has not been classified yet.
    Unparsed,
    PartialLine,
}

impl Default for FNLineType {
    fn default() -> (line_type: Self)
        ensures
            line_type == FNLineType::Unparsed,
    {
        FNLineType::Unparsed
    }
}

/// Every line type, in declaration order.
pub open spec fn all_line_types() -> Seq<FNLineType> {
    seq![
        FNLineType::Empty,
        FNLineType::Section,
        FNLineType::Synopse,
        FNLineType::TitlePageTitle,
        FNLineType::TitlePageAuthor,
        FNLineType::TitlePageCredit,
        FNLineType::TitlePageSource,
        FNLineType::TitlePageContact,
        FNLineType::TitlePageDraftDate,
        FNLineType::TitlePageUnknown,
        FNLineType::Heading,
        FNLineType::Action,
        FNLineType::Character,
        FNLineType::Parenthetical,
        FNLineType::Dialogue,
        FNLineType::DualDialogueCharacter,
        FNLineType::DualDialogueParenthetical,
        FNLineType::DualDialogue,
        FNLineType::TransitionLine,
        FNLineType::Lyrics,
        FNLineType::PageBreak,
        FNLineType::Centered,
        FNLineType::Shot,
        FNLineType::More,
        FNLineType::DualDialogueMore,
        FNLineType::TypeCount,
        FNLineType::Unparsed,
        FNLineType::PartialLine,
    ]
}

impl FNLineType {
    /// Lists every line type once, in declaration order.
    pub fn vec_of_line_types() -> (types: Vec<FNLineType>)
        ensures
            types@ == all_line_types(),
    {
        let types = vec![
            FNLineType::Empty,
            FNLineType::Section,
            FNLineType::Synopse,
            FNLineType::TitlePageTitle,
            FNLineType::TitlePageAuthor,
            FNLineType::TitlePageCredit,
            FNLineType::TitlePageSource,
            FNLineType::TitlePageContact,
            FNLineType::TitlePageDraftDate,
            FNLineType::TitlePageUnknown,
            FNLineType::Heading,
            FNLineType::Action,
            FNLineType::Character,
            FNLineType::Parenthetical,
            FNLineType::Dialogue,
            FNLineType::DualDialogueCharacter,
            FNLineType::DualDialogueParenthetical,
            FNLineType::DualDialogue,
            FNLineType::TransitionLine,
            FNLineType::Lyrics,
            FNLineType::PageBreak,
            FNLineType::Centered,
            FNLineType::Shot,
            FNLineType::More,
            FNLineType::DualDialogueMore,
            FNLineType::TypeCount,
            FNLineType::Unparsed,
            FNLineType::PartialLine,
        ];
        assert(types@ =~= all_line_types());
        types
    }
}

/// Every line type occurs in the list of all line types.
pub proof fn lemma_line_types_are_enumerated(line_type: FNLineType)
    ensures
        all_line_types().contains(line_type),
{
    let all = all_line_types();
    match line_type {
        FNLineType::Empty => assert(all[0] == line_type),
        FNLineType::Section => assert(all[1] == line_type),
        FNLineType::Synopse => assert(all[2] == line_type),
        FNLineType::TitlePageTitle => assert(all[3] == line_type),
        FNLineType::TitlePageAuthor => assert(all[4] == line_type),
        FNLineType::TitlePageCredit => assert(all[5] == line_type),
        FNLineType::TitlePageSource => assert(all[6] == line_type),
        FNLineType::TitlePageContact => assert(all[7] == line_type),
        FNLineType::TitlePageDraftDate => assert(all[8] == line_type),
        FNLineType::TitlePageUnknown => assert(all[9] == line_type),
        FNLineType::Heading => assert(all[10] == line_type),
        FNLineType::Action => assert(all[11] == line_type),
        FNLineType::Character => assert(all[12] == line_type),
        FNLineType::Parenthetical => assert(all[13] == line_type),
        FNLineType::Dialogue => assert(all[14] == line_type),
        FNLineType::DualDialogueCharacter => assert(all[15] == line_type),
        FNLineType::DualDialogueParenthetical => assert(all[16] == line_type),
        FNLineType::DualDialogue => assert(all[17] == line_type),
        FNLineType::TransitionLine => assert(all[18] == line_type),
        FNLineType::Lyrics => assert(all[19] == line_type),
        FNLineType::PageBreak => assert(all[20] == line_type),
        FNLineType::Centered => assert(all[21] == line_type),
        FNLineType::Shot => assert(all[22] == line_type),
        FNLineType::More => assert(all[23] == line_type),
        FNLineType::DualDialogueMore => assert(all[24] == line_type),
        FNLineType::TypeCount => assert(all[25] == line_type),
        FNLineType::Unparsed => assert(all[26] == line_type),
        FNLineType::PartialLine => assert(all[27] == line_type),
    }
}

/// How a line relates to the delimiters of one invisible element kind.
#[derive(Debug, PartialEq, Eq, Structural, Clone, Copy)]
pub enum FNPartialLineType {
    /// Visible text together with complete invisible spans.
    SelfContained,
    /// An open delimiter that is not closed on the same line.
    OrphanedOpen,
    /// A close delimiter that is not opened on the same line.
    OrphanedClose,
    /// An orphaned close followed by a new orphaned open.
    OrphanedOpenAndClose,
    /// The whole line is consumed by one invisible element.
    InvisibleOnly,
}

/// A family of invisible elements, with its open and close delimiters.
#[derive(Debug, PartialEq)]
pub enum FNRangedElementType {
    Boneyard { open: String, close: String },
    Note { open: String, close: String },
    Other { open: String, close: String },
}

impl Clone for FNRangedElementType {
    fn clone(&self) -> (copy: Self)
        ensures
            copy == *self,
    {
        match self {
            FNRangedElementType::Boneyard { open, close } => FNRangedElementType::Boneyard {
                open: open.clone(),
                close: close.clone(),
            },
            FNRangedElementType::Note { open, close } => FNRangedElementType::Note {
                open: open.clone(),
                close: close.clone(),
            },
            FNRangedElementType::Other { open, close } => FNRangedElementType::Other {
                open: open.clone(),
                close: close.clone(),
            },
        }
    }
}

/// The characters of the boneyard open delimiter, `/*`.
pub open spec fn boneyard_open() -> Seq<char> {
    seq!['/', '*']
}

/// The characters of the boneyard close delimiter, `*/`.
pub open spec fn boneyard_close() -> Seq<char> {
    seq!['*', '/']
}

/// The characters of the note open delimiter, `[[`.
pub open spec fn note_open() -> Seq<char> {
    seq!['[', '[']
}

/// The characters of the note close delimiter, `]]`.
pub open spec fn note_close() -> Seq<char> {
    seq![']', ']']
}

impl FNRangedElementType {
    /// The open delimiter of this kind.
    pub open spec fn open_pattern(self) -> Seq<char> {
        match self {
            FNRangedElementType::Boneyard { open, close } => open@,
            FNRangedElementType::Note { open, close } => open@,
            FNRangedElementType::Other { open, close } => open@,
        }
    }

    /// The close delimiter of this kind.
    pub open spec fn close_pattern(self) -> Seq<char> {
        match self {
            FNRangedElementType::Boneyard { open, close } => close@,
            FNRangedElementType::Note { open, close } => close@,
            FNRangedElementType::Other { open, close } => close@,
        }
    }

    /// The boneyard kind, delimited by `/*` and `*/`.
    pub fn boneyard() -> (kind: Self)
        ensures
            kind is Boneyard,
            kind.open_pattern() == boneyard_open(),
            kind.close_pattern() == boneyard_close(),
    {
        proof {
            reveal_strlit("/*");
            reveal_strlit("*/");
        }
        let kind = FNRangedElementType::Boneyard {
            open: String::from_str("/*"),
            close: String::from_str("*/"),
        };
        assert(kind.open_pattern() =~= boneyard_open());
        assert(kind.close_pattern() =~= boneyard_close());
        kind
    }

    /// The note kind, delimited by `[[` and `]]`.
    pub fn note() -> (kind: Self)
        ensures
            kind is Note,
            kind.open_pattern() == note_open(),
            kind.close_pattern() == note_close(),
    {
        proof {
            reveal_strlit("[[");
            reveal_strlit("]]");
        }
        let kind = FNRangedElementType::Note {
            open: String::from_str("[["),
            close: String::from_str("]]"),
        };
        assert(kind.open_pattern() =~= note_open());
        assert(kind.close_pattern() =~= note_close());
        kind
    }

    /// Copies of the open and close delimiters of this kind.
    pub fn get_open_and_close_patterns(&self) -> (patterns: (String, String))
        ensures
            patterns.0@ == self.open_pattern(),
            patterns.1@ == self.close_pattern(),
    {
        match self {
            FNRangedElementType::Boneyard { open, close } => (open.clone(), close.clone()),
            FNRangedElementType::Note { open, close } => (open.clone(), close.clone()),
            FNRangedElementType::Other { open, close } => (open.clone(), close.clone()),
        }
    }
}

} // verus!
