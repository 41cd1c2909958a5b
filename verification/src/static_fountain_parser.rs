//! The line segmenter and the continuous line classifier.
//!
//! A document is split into lines, and every line gets a screenplay type
//! from its own text and from the line before it.

use crate::fountain_enums::FNLineType;
use crate::fountain_line::{
    blank_line, line_views, title_page_key, title_page_key_of, FNLine, FNLineView,
};
use crate::helper_funcs::{cue_is_uppercase, only_uppercase_until_parenthesis};
use crate::text::{
    all_whitespace, byte_len, byte_length, chars_of, cluster_equals, cluster_is, concat_all,
    find_char_from, first_index_from, grapheme_clusters, graphemes, is_blank, lemma_cluster_count,
    lemma_first_index_from, lowercase_of, matches_at, same_chars, seqs_of, slice_of, starts_with,
    string_from_chars, to_lowercase, to_uppercase, uppercase_of,
};
use vstd::prelude::*;

verus! {

/// What the classifier reads from the text of one line.
#[derive(Debug, PartialEq)]
pub struct FNLineShape {
    /// The characters of the text.
    pub chars: Vec<char>,
    /// The length of the text in bytes.
    pub byte_len: usize,
    /// The grapheme clusters of the text.
    pub clusters: Vec<Vec<char>>,
    /// Whether the text holds nothing but whitespace.
    pub blank: bool,
    /// Whether the text equals its own upper-case form.
    pub uppercase: bool,
    /// Whether the text before the first `(` is not empty and in upper case.
    pub cue_uppercase: bool,
    /// The first three clusters of the text, joined and in lower case.
    pub heading_prefix: Vec<char>,
    /// The title page key of the text.
    pub title_key: Vec<char>,
}

/// The mathematical content of an [`FNLineShape`].
pub ghost struct FNLineShapeView {
    pub chars: Seq<char>,
    pub byte_len: nat,
    pub clusters: Seq<Seq<char>>,
    pub blank: bool,
    pub uppercase: bool,
    pub cue_uppercase: bool,
    pub heading_prefix: Seq<char>,
    pub title_key: Seq<char>,
}

impl View for FNLineShape {
    type V = FNLineShapeView;

    open spec fn view(&self) -> FNLineShapeView {
        FNLineShapeView {
            chars: self.chars@,
            byte_len: self.byte_len as nat,
            clusters: seqs_of(self.clusters@),
            blank: self.blank,
            uppercase: self.uppercase,
            cue_uppercase: self.cue_uppercase,
            heading_prefix: self.heading_prefix@,
            title_key: self.title_key@,
        }
    }
}

/// What the classifier reads from the line before the one it classifies.
#[derive(Debug, PartialEq, Eq, Structural, Clone, Copy)]
pub struct FNPreviousLine {
    /// The type already given to that line.
    pub fn_type: FNLineType,
    /// Whether that line has any text.
    pub has_text: bool,
    /// Whether that line has a title page key.
    pub has_title_key: bool,
}

/// The first clusters of a text, three at most.
pub open spec fn leading_clusters(clusters: Seq<Seq<char>>) -> Seq<Seq<char>> {
    if clusters.len() <= 3 {
        clusters
    } else {
        clusters.take(3)
    }
}

/// The shape of a line of text.
pub open spec fn shape_of_text(text: Seq<char>) -> FNLineShapeView {
    FNLineShapeView {
        chars: text,
        byte_len: byte_len(text),
        clusters: grapheme_clusters(text),
        blank: all_whitespace(text),
        uppercase: uppercase_of(text) == text,
        cue_uppercase: cue_is_uppercase(text),
        heading_prefix: lowercase_of(concat_all(leading_clusters(grapheme_clusters(text)))),
        title_key: title_page_key_of(text),
    }
}

/// Whether a line with no line before it, or after an empty line, is being
/// classified.
pub open spec fn previous_is_empty(previous: Option<FNPreviousLine>) -> bool {
    match previous {
        Some(line) => line.fn_type == FNLineType::Empty,
        None => true,
    }
}

impl FNLineShapeView {
    /// Whether the first cluster is the character `c`.
    pub open spec fn first_is(self, c: char) -> bool {
        cluster_is(self.clusters, 0, c)
    }

    /// Whether the last cluster is the character `c`.
    pub open spec fn last_is(self, c: char) -> bool {
        cluster_is(self.clusters, self.clusters.len() - 1, c)
    }

    /// Whether the text is whitespace kept on purpose: at least two
    /// characters, with a space as first and as last cluster.
    pub open spec fn is_forced_whitespace(self) -> bool {
        self.first_is(' ') && self.last_is(' ') && self.chars.len() > 1
    }

    /// Whether the text begins with two spaces and no third.
    pub open spec fn has_two_leading_spaces(self) -> bool {
        starts_with(self.chars, seq![' ', ' ']) && !starts_with(self.chars, seq![' ', ' ', ' '])
    }
}

/// A line without text is empty.
pub open spec fn empty_line_rule(shape: FNLineShapeView) -> Option<FNLineType> {
    if shape.chars.len() == 0 {
        Some(FNLineType::Empty)
    } else {
        None
    }
}

/// The type that a marker at the start or the end of the line forces.
pub open spec fn forced_element_rule(shape: FNLineShapeView, previous_empty: bool) -> Option<
    FNLineType,
> {
    if shape.clusters.len() == 0 {
        None
    } else if shape.blank && !shape.is_forced_whitespace() {
        Some(FNLineType::Empty)
    } else if shape.chars == seq!['=', '=', '='] {
        Some(FNLineType::PageBreak)
    } else if shape.first_is('!') {
        if cluster_is(shape.clusters, 1, '!') {
            Some(FNLineType::Shot)
        } else {
            Some(FNLineType::Action)
        }
    } else if shape.first_is('.') && !previous_empty {
        if cluster_is(shape.clusters, 1, '.') {
            None
        } else {
            Some(FNLineType::Heading)
        }
    } else if shape.first_is('>') {
        if shape.last_is('<') {
            Some(FNLineType::Centered)
        } else {
            Some(FNLineType::TransitionLine)
        }
    } else if shape.first_is('~') {
        Some(FNLineType::Lyrics)
    } else if shape.first_is('=') {
        Some(FNLineType::Synopse)
    } else if shape.first_is('#') {
        Some(FNLineType::Section)
    } else if shape.first_is('@') {
        if shape.last_is('^') && previous_empty {
            Some(FNLineType::DualDialogueCharacter)
        } else {
            Some(FNLineType::Character)
        }
    } else if shape.first_is('.') {
        Some(FNLineType::Heading)
    } else {
        None
    }
}

/// The title page type that a key stands for.
pub open spec fn title_type_for_key(key: Seq<char>) -> FNLineType {
    if key == "title"@ {
        FNLineType::TitlePageTitle
    } else if key == "author"@ || key == "authors"@ {
        FNLineType::TitlePageAuthor
    } else if key == "credit"@ {
        FNLineType::TitlePageCredit
    } else if key == "source"@ {
        FNLineType::TitlePageSource
    } else if key == "contact"@ || key == "contacts"@ || key == "contact info"@ {
        FNLineType::TitlePageContact
    } else if key == "draft date"@ || key == "draft"@ {
        FNLineType::TitlePageDraftDate
    } else {
        FNLineType::TitlePageUnknown
    }
}

/// Whether the text is indented as the continuation of a title page value:
/// by a tab or by three spaces.
pub open spec fn is_indented(chars: Seq<char>) -> bool {
    starts_with(chars, seq!['\t']) || starts_with(chars, seq![' ', ' ', ' '])
}

/// The type of a title page line. The rule applies at the start of the
/// document and after a title page line; a line with a key starts an
/// element, a line without one continues the element before it.
pub open spec fn title_page_rule(shape: FNLineShapeView, previous: Option<FNPreviousLine>)
    -> Option<FNLineType> {
    if previous is Some && !previous->0.fn_type.is_title_page() {
        None
    } else if shape.title_key.len() > 0 {
        Some(title_type_for_key(shape.title_key))
    } else if previous is Some && (previous->0.has_title_key || is_indented(shape.chars)) {
        Some(previous->0.fn_type)
    } else {
        None
    }
}

/// An upper-case line of more than two bytes that ends in a colon and
/// follows an empty line is a transition.
pub open spec fn transition_rule(shape: FNLineShapeView, previous_empty: bool) -> Option<
    FNLineType,
> {
    if shape.byte_len > 2 && shape.last_is(':') && shape.uppercase && previous_empty {
        Some(FNLineType::TransitionLine)
    } else {
        None
    }
}

/// Whether a lower-case prefix is one that opens a scene heading.
pub open spec fn is_heading_prefix(prefix: Seq<char>) -> bool {
    prefix == "int"@ || prefix == "ext"@ || prefix == "est"@ || prefix == "i/e"@
}

/// A line after an empty line is a scene heading if it starts with a
/// heading prefix and the cluster that follows the prefix, the fourth of
/// the line, is a dot, a space or a slash.
pub open spec fn heading_rule(shape: FNLineShapeView, previous_empty: bool) -> Option<
    FNLineType,
> {
    if previous_empty && shape.byte_len >= 3 && is_heading_prefix(shape.heading_prefix) && (
    cluster_is(shape.clusters, 3, '.') || cluster_is(shape.clusters, 3, ' ') || cluster_is(
        shape.clusters,
        3,
        '/',
    )) {
        Some(FNLineType::Heading)
    } else {
        None
    }
}

/// After a dual dialogue line, a line with text goes on with the dual
/// dialogue.
pub open spec fn dual_dialogue_rule(shape: FNLineShapeView, previous: Option<FNPreviousLine>)
    -> Option<FNLineType> {
    if previous is Some && previous->0.fn_type.is_dual_dialogue() && shape.clusters.len() > 0 {
        if shape.first_is('(') {
            Some(FNLineType::DualDialogueParenthetical)
        } else {
            Some(FNLineType::DualDialogue)
        }
    } else {
        None
    }
}

/// An upper-case line is a character cue after an empty line, and action
/// after any other line. Whitespace alone is no cue, and neither is a line
/// that begins with two spaces and no third.
pub open spec fn character_rule(shape: FNLineShapeView, previous: Option<FNPreviousLine>)
    -> Option<FNLineType> {
    if !shape.cue_uppercase || shape.chars.len() == 0 || shape.blank
        || shape.has_two_leading_spaces() {
        None
    } else if !previous_is_empty(previous) {
        Some(FNLineType::Action)
    } else if shape.last_is('^') {
        Some(FNLineType::DualDialogueCharacter)
    } else {
        Some(FNLineType::Character)
    }
}

/// After a dialogue line with text, a line goes on with the dialogue.
pub open spec fn dialogue_rule(shape: FNLineShapeView, previous: Option<FNPreviousLine>)
    -> Option<FNLineType> {
    if previous is Some && previous->0.fn_type.is_dialogue() && previous->0.has_text {
        if shape.first_is('(') {
            Some(FNLineType::Parenthetical)
        } else {
            Some(FNLineType::Dialogue)
        }
    } else if previous is Some && previous->0.fn_type == FNLineType::Parenthetical {
        Some(FNLineType::Dialogue)
    } else {
        None
    }
}

/// The type of a line: the first rule that applies decides, and a line
/// that no rule claims is action.
pub open spec fn line_type_for(shape: FNLineShapeView, previous: Option<FNPreviousLine>)
    -> FNLineType {
    let previous_empty = previous_is_empty(previous);
    if empty_line_rule(shape) is Some {
        empty_line_rule(shape)->0
    } else if forced_element_rule(shape, previous_empty) is Some {
        forced_element_rule(shape, previous_empty)->0
    } else if title_page_rule(shape, previous) is Some {
        title_page_rule(shape, previous)->0
    } else if transition_rule(shape, previous_empty) is Some {
        transition_rule(shape, previous_empty)->0
    } else if heading_rule(shape, previous_empty) is Some {
        heading_rule(shape, previous_empty)->0
    } else if dual_dialogue_rule(shape, previous) is Some {
        dual_dialogue_rule(shape, previous)->0
    } else if character_rule(shape, previous) is Some {
        character_rule(shape, previous)->0
    } else if dialogue_rule(shape, previous) is Some {
        dialogue_rule(shape, previous)->0
    } else {
        FNLineType::Action
    }
}

/// Whether a marker character decided the type of the line.
pub open spec fn is_forced_for(shape: FNLineShapeView, previous: Option<FNPreviousLine>)
    -> bool {
    empty_line_rule(shape) is None && forced_element_rule(shape, previous_is_empty(previous))
        is Some && forced_element_rule(shape, previous_is_empty(previous)) != Some(
        FNLineType::Empty,
    )
}

/// The first clusters of a text, three at most, joined into one text.
fn join_leading_clusters(clusters: &Vec<Vec<char>>) -> (joined: Vec<char>)
    ensures
        joined@ == concat_all(leading_clusters(seqs_of(clusters@))),
{
    let count: usize = if clusters.len() <= 3 {
        clusters.len()
    } else {
        3
    };
    let ghost lead = leading_clusters(seqs_of(clusters@));
    let mut joined: Vec<char> = Vec::new();
    let mut k: usize = 0;
    while k < count
        invariant
            k <= count <= clusters.len(),
            lead == leading_clusters(seqs_of(clusters@)),
            lead.len() == count,
            joined@ == concat_all(lead.take(k as int)),
        decreases count - k,
    {
        let cluster = &clusters[k];
        let ghost before = joined@;
        let mut j: usize = 0;
        while j < cluster.len()
            invariant
                j <= cluster.len(),
                joined@ == before + cluster@.take(j as int),
            decreases cluster.len() - j,
        {
            joined.push(cluster[j]);
            assert(cluster@.take(j + 1) =~= cluster@.take(j as int).push(cluster[j as int]));
            j += 1;
        }
        proof {
            assert(cluster@.take(cluster.len() as int) =~= cluster@);
            assert(lead.take(k + 1).drop_last() =~= lead.take(k as int));
            assert(lead.take(k + 1).last() == cluster@);
        }
        k += 1;
    }
    assert(lead.take(count as int) =~= lead);
    joined
}

/// Reads off a line of text what the classifier needs.
pub fn shape_of(text: &String) -> (shape: FNLineShape)
    ensures
        shape@ == shape_of_text(text@),
{
    let chars = chars_of(text.as_str());
    let clusters = graphemes(text.as_str());
    let blank = is_blank(&chars);
    let upper = chars_of(to_uppercase(text.as_str()).as_str());
    let uppercase = same_chars(&upper, &chars);
    let cue_uppercase = only_uppercase_until_parenthesis(text);
    let leading = string_from_chars(join_leading_clusters(&clusters));
    let heading_prefix = chars_of(to_lowercase(leading.as_str()).as_str());
    let title_key = chars_of(title_page_key(text).as_str());
    FNLineShape {
        chars,
        byte_len: byte_length(text.as_str()),
        clusters,
        blank,
        uppercase,
        cue_uppercase,
        heading_prefix,
        title_key,
    }
}

/// Whether the text holds exactly the characters of `word`.
fn is_word(text: &Vec<char>, word: &str) -> (same: bool)
    ensures
        same == (text@ == word@),
{
    let letters = chars_of(word);
    same_chars(text, &letters)
}

/// Whether the last cluster of the line is the character `c`.
fn last_cluster_equals(shape: &FNLineShape, c: char) -> (equal: bool)
    ensures
        equal == shape@.last_is(c),
{
    if shape.clusters.len() == 0 {
        false
    } else {
        cluster_equals(&shape.clusters, shape.clusters.len() - 1, c)
    }
}

/// Whether there is no line before, or an empty one.
pub fn is_previous_empty(previous: Option<FNPreviousLine>) -> (empty: bool)
    ensures
        empty == previous_is_empty(previous),
{
    match previous {
        Some(line) => line.fn_type == FNLineType::Empty,
        None => true,
    }
}

/// A line without text is empty.
pub fn _check_if_empty_line(shape: &FNLineShape) -> (line_type: Option<FNLineType>)
    ensures
        line_type == empty_line_rule(shape@),
{
    if shape.chars.len() == 0 {
        Some(FNLineType::Empty)
    } else {
        None
    }
}

/// The type that a marker at the start or the end of the line forces, if
/// the line has one.
pub fn _check_if_forced_element(shape: &FNLineShape, previous_line_is_empty: bool) -> (line_type:
    Option<FNLineType>)
    ensures
        line_type == forced_element_rule(shape@, previous_line_is_empty),
{
    if shape.clusters.len() == 0 {
        return None;
    }
    let first_is_space = cluster_equals(&shape.clusters, 0, ' ');
    let last_is_space = last_cluster_equals(shape, ' ');
    let forced_whitespace = first_is_space && last_is_space && shape.chars.len() > 1;
    if shape.blank && !forced_whitespace {
        return Some(FNLineType::Empty);
    }
    let page_break: Vec<char> = vec!['=', '=', '='];
    assert(page_break@ =~= seq!['=', '=', '=']);
    if same_chars(&shape.chars, &page_break) {
        return Some(FNLineType::PageBreak);
    }
    if cluster_equals(&shape.clusters, 0, '!') {
        if cluster_equals(&shape.clusters, 1, '!') {
            return Some(FNLineType::Shot);
        }
        return Some(FNLineType::Action);
    }
    if cluster_equals(&shape.clusters, 0, '.') && !previous_line_is_empty {
        if cluster_equals(&shape.clusters, 1, '.') {
            return None;
        }
        return Some(FNLineType::Heading);
    }
    if cluster_equals(&shape.clusters, 0, '>') {
        if last_cluster_equals(shape, '<') {
            return Some(FNLineType::Centered);
        }
        return Some(FNLineType::TransitionLine);
    }
    if cluster_equals(&shape.clusters, 0, '~') {
        return Some(FNLineType::Lyrics);
    }
    if cluster_equals(&shape.clusters, 0, '=') {
        return Some(FNLineType::Synopse);
    }
    if cluster_equals(&shape.clusters, 0, '#') {
        return Some(FNLineType::Section);
    }
    if cluster_equals(&shape.clusters, 0, '@') {
        if last_cluster_equals(shape, '^') && previous_line_is_empty {
            return Some(FNLineType::DualDialogueCharacter);
        }
        return Some(FNLineType::Character);
    }
    if cluster_equals(&shape.clusters, 0, '.') {
        return Some(FNLineType::Heading);
    }
    None
}

/// The title page type that a key stands for.
pub fn title_page_type_for_key(key: &Vec<char>) -> (line_type: FNLineType)
    ensures
        line_type == title_type_for_key(key@),
{
    if is_word(key, "title") {
        FNLineType::TitlePageTitle
    } else if is_word(key, "author") || is_word(key, "authors") {
        FNLineType::TitlePageAuthor
    } else if is_word(key, "credit") {
        FNLineType::TitlePageCredit
    } else if is_word(key, "source") {
        FNLineType::TitlePageSource
    } else if is_word(key, "contact") || is_word(key, "contacts") || is_word(
        key,
        "contact info",
    ) {
        FNLineType::TitlePageContact
    } else if is_word(key, "draft date") || is_word(key, "draft") {
        FNLineType::TitlePageDraftDate
    } else {
        FNLineType::TitlePageUnknown
    }
}

/// The type of a title page line, at the start of the document or after
/// another title page line.
pub fn _check_if_title_page_element(shape: &FNLineShape, previous_line: Option<FNPreviousLine>)
    -> (line_type: Option<FNLineType>)
    ensures
        line_type == title_page_rule(shape@, previous_line),
{
    if let Some(previous) = previous_line {
        if !is_title_page_type(previous.fn_type) {
            return None;
        }
    }
    if shape.title_key.len() > 0 {
        return Some(title_page_type_for_key(&shape.title_key));
    }
    if let Some(previous) = previous_line {
        let tab: Vec<char> = vec!['\t'];
        let spaces: Vec<char> = vec![' ', ' ', ' '];
        assert(tab@ =~= seq!['\t']);
        assert(spaces@ =~= seq![' ', ' ', ' ']);
        if previous.has_title_key || matches_at(&shape.chars, &tab, 0) || matches_at(
            &shape.chars,
            &spaces,
            0,
        ) {
            return Some(previous.fn_type);
        }
    }
    None
}

/// Whether the type is a title page type that a following line may
/// continue.
pub fn is_title_page_type(line_type: FNLineType) -> (title: bool)
    ensures
        title == line_type.is_title_page(),
{
    match line_type {
        FNLineType::TitlePageTitle
        | FNLineType::TitlePageCredit
        | FNLineType::TitlePageAuthor
        | FNLineType::TitlePageDraftDate
        | FNLineType::TitlePageContact
        | FNLineType::TitlePageSource => true,
        _ => false,
    }
}

/// Whether the type belongs to a single dialogue block, the cue included.
pub fn is_dialogue_type(line_type: FNLineType) -> (dialogue: bool)
    ensures
        dialogue == line_type.is_dialogue(),
{
    line_type == FNLineType::Character || line_type == FNLineType::Parenthetical || line_type
        == FNLineType::Dialogue || line_type == FNLineType::More
}

/// Whether the type belongs to a dual dialogue block, the cue included.
pub fn is_dual_dialogue_type(line_type: FNLineType) -> (dual: bool)
    ensures
        dual == line_type.is_dual_dialogue(),
{
    line_type == FNLineType::DualDialogue || line_type == FNLineType::DualDialogueCharacter
        || line_type == FNLineType::DualDialogueParenthetical || line_type
        == FNLineType::DualDialogueMore
}

/// An upper-case line that ends in a colon and follows an empty line is a
/// transition.
pub fn _check_if_transition(shape: &FNLineShape, previous_line_is_empty: bool) -> (line_type:
    Option<FNLineType>)
    ensures
        line_type == transition_rule(shape@, previous_line_is_empty),
{
    if shape.byte_len > 2 && last_cluster_equals(shape, ':') && shape.uppercase
        && previous_line_is_empty {
        return Some(FNLineType::TransitionLine);
    }
    None
}

/// A line after an empty line is a scene heading if it starts with a
/// heading prefix and the cluster that follows the prefix is a dot, a
/// space or a slash.
pub fn _check_if_heading(shape: &FNLineShape, previous_line_is_empty: bool) -> (line_type:
    Option<FNLineType>)
    ensures
        line_type == heading_rule(shape@, previous_line_is_empty),
{
    if !(previous_line_is_empty && shape.byte_len >= 3) {
        return None;
    }
    let prefix = &shape.heading_prefix;
    if !(is_word(prefix, "int") || is_word(prefix, "ext") || is_word(prefix, "est") || is_word(
        prefix,
        "i/e",
    )) {
        return None;
    }
    if cluster_equals(&shape.clusters, 3, '.') || cluster_equals(&shape.clusters, 3, ' ')
        || cluster_equals(&shape.clusters, 3, '/') {
        return Some(FNLineType::Heading);
    }
    None
}

/// After a dual dialogue line, a line with text goes on with the dual
/// dialogue.
pub fn _check_if_dual_dialogue(shape: &FNLineShape, previous_line: Option<FNPreviousLine>)
    -> (line_type: Option<FNLineType>)
    ensures
        line_type == dual_dialogue_rule(shape@, previous_line),
{
    if let Some(previous) = previous_line {
        if !is_dual_dialogue_type(previous.fn_type) {
            return None;
        }
        if shape.clusters.len() > 0 {
            if cluster_equals(&shape.clusters, 0, '(') {
                return Some(FNLineType::DualDialogueParenthetical);
            }
            return Some(FNLineType::DualDialogue);
        }
        return None;
    }
    None
}

/// An upper-case line is a character cue after an empty line, and action
/// after any other line. Whitespace alone is no cue, and neither is a line
/// that begins with two spaces and no third.
pub fn _check_if_character(shape: &FNLineShape, previous_line: Option<FNPreviousLine>)
    -> (line_type: Option<FNLineType>)
    ensures
        line_type == character_rule(shape@, previous_line),
{
    if !(shape.cue_uppercase && shape.chars.len() > 0) || shape.blank {
        return None;
    }
    let two: Vec<char> = vec![' ', ' '];
    let three: Vec<char> = vec![' ', ' ', ' '];
    assert(two@ =~= seq![' ', ' ']);
    assert(three@ =~= seq![' ', ' ', ' ']);
    if matches_at(&shape.chars, &two, 0) && !matches_at(&shape.chars, &three, 0) {
        return None;
    }
    if !is_previous_empty(previous_line) {
        return Some(FNLineType::Action);
    }
    if last_cluster_equals(shape, '^') {
        return Some(FNLineType::DualDialogueCharacter);
    }
    Some(FNLineType::Character)
}

/// After a dialogue line with text, a line goes on with the dialogue.
pub fn _check_if_dialogue_or_parenthetical(
    shape: &FNLineShape,
    previous_line: Option<FNPreviousLine>,
) -> (line_type: Option<FNLineType>)
    ensures
        line_type == dialogue_rule(shape@, previous_line),
{
    if let Some(previous) = previous_line {
        if is_dialogue_type(previous.fn_type) && previous.has_text {
            if cluster_equals(&shape.clusters, 0, '(') {
                return Some(FNLineType::Parenthetical);
            }
            return Some(FNLineType::Dialogue);
        }
        if previous.fn_type == FNLineType::Parenthetical {
            return Some(FNLineType::Dialogue);
        }
    }
    None
}

/// The type of a line, from its shape and from the line before it: the
/// first rule that applies decides, and a line that no rule claims is
/// action.
pub fn line_type_of(shape: &FNLineShape, previous_line: Option<FNPreviousLine>) -> (line_type:
    FNLineType)
    ensures
        line_type == line_type_for(shape@, previous_line),
{
    let previous_line_is_empty = is_previous_empty(previous_line);
    if let Some(line_type) = _check_if_empty_line(shape) {
        return line_type;
    }
    if let Some(line_type) = _check_if_forced_element(shape, previous_line_is_empty) {
        return line_type;
    }
    if let Some(line_type) = _check_if_title_page_element(shape, previous_line) {
        return line_type;
    }
    if let Some(line_type) = _check_if_transition(shape, previous_line_is_empty) {
        return line_type;
    }
    if let Some(line_type) = _check_if_heading(shape, previous_line_is_empty) {
        return line_type;
    }
    if let Some(line_type) = _check_if_dual_dialogue(shape, previous_line) {
        return line_type;
    }
    if let Some(line_type) = _check_if_character(shape, previous_line) {
        return line_type;
    }
    if let Some(line_type) = _check_if_dialogue_or_parenthetical(shape, previous_line) {
        return line_type;
    }
    FNLineType::Action
}

/// Whether a marker character decides the type of the line.
pub fn is_forced_line(shape: &FNLineShape, previous_line: Option<FNPreviousLine>) -> (forced:
    bool)
    ensures
        forced == is_forced_for(shape@, previous_line),
{
    if _check_if_empty_line(shape).is_some() {
        return false;
    }
    match _check_if_forced_element(shape, is_previous_empty(previous_line)) {
        Some(line_type) => line_type != FNLineType::Empty,
        None => false,
    }
}

/// What the classifier reads from a line once it has its type.
pub open spec fn previous_from(text: Seq<char>, fn_type: FNLineType) -> FNPreviousLine {
    FNPreviousLine {
        fn_type,
        has_text: text.len() > 0,
        has_title_key: title_page_key_of(text).len() > 0,
    }
}

/// The visible text of line `index`, or no text if there is no such line.
pub open spec fn text_at(lines: Seq<FNLineView>, index: int) -> Seq<char> {
    if 0 <= index < lines.len() {
        lines[index].string
    } else {
        Seq::empty()
    }
}

/// What the classifier reads from the line before line `index`, with the
/// type that line has now.
pub open spec fn previous_at(lines: Seq<FNLineView>, index: int) -> Option<FNPreviousLine> {
    if 0 < index <= lines.len() {
        Some(previous_from(lines[index - 1].string, lines[index - 1].fn_type))
    } else {
        None
    }
}

/// The visible texts of the lines of a document.
pub open spec fn visible_texts(lines: Seq<FNLineView>) -> Seq<Seq<char>> {
    Seq::new(lines.len(), |i: int| lines[i].string)
}

/// The type that line `i` gets when the forward pass reaches it.
pub open spec fn primary_type(texts: Seq<Seq<char>>, i: int) -> FNLineType
    decreases i,
{
    if i <= 0 {
        line_type_for(shape_of_text(texts[0]), None)
    } else {
        line_type_for(
            shape_of_text(texts[i]),
            Some(previous_from(texts[i - 1], primary_type(texts, i - 1))),
        )
    }
}

/// What the forward pass knows of the line before line `i` when it reaches
/// line `i`.
pub open spec fn previous_in_pass(texts: Seq<Seq<char>>, i: int) -> Option<FNPreviousLine> {
    if i <= 0 {
        None
    } else {
        Some(previous_from(texts[i - 1], primary_type(texts, i - 1)))
    }
}

/// The type that line `i` has after the pass: a character cue that an
/// empty line follows is action after all.
pub open spec fn final_type(texts: Seq<Seq<char>>, i: int) -> FNLineType {
    if primary_type(texts, i) == FNLineType::Character && i + 1 < texts.len() && primary_type(
        texts,
        i + 1,
    ) == FNLineType::Empty {
        FNLineType::Action
    } else {
        primary_type(texts, i)
    }
}

/// The document after classification: every line keeps what it had but
/// its type and its forced flag, which the pass decides from the visible
/// texts alone.
pub open spec fn parsed_lines(lines: Seq<FNLineView>) -> Seq<FNLineView> {
    Seq::new(
        lines.len(),
        |i: int|
            FNLineView {
                fn_type: final_type(visible_texts(lines), i),
                is_forced: is_forced_for(
                    shape_of_text(lines[i].string),
                    previous_in_pass(visible_texts(lines), i),
                ),
                ..lines[i]
            },
    )
}

/// What the classifier reads from the line before line `index`, if there
/// is one.
pub fn previous_line_at(lines: &Vec<FNLine>, index: usize) -> (previous: Option<FNPreviousLine>)
    ensures
        previous == previous_at(line_views(lines@), index as int),
{
    if 0 < index && index <= lines.len() {
        let line = &lines[index - 1];
        let key = title_page_key(&line.string);
        Some(
            FNPreviousLine {
                fn_type: line.fn_type,
                has_text: chars_of(line.string.as_str()).len() > 0,
                has_title_key: chars_of(key.as_str()).len() > 0,
            },
        )
    } else {
        None
    }
}

/// The shape of line `index`, or of an empty text if there is no such
/// line.
pub fn shape_at(lines: &Vec<FNLine>, index: usize) -> (shape: FNLineShape)
    ensures
        shape@ == shape_of_text(text_at(line_views(lines@), index as int)),
{
    if index < lines.len() {
        shape_of(&lines[index].string)
    } else {
        shape_of(&String::new())
    }
}

/// The type of line `index`, from its visible text and from the line
/// before it as it is typed now. A line beyond the end counts as a line
/// without text.
pub fn parse_line_type_for(lines: &Vec<FNLine>, index: usize) -> (line_type: FNLineType)
    ensures
        line_type == line_type_for(
            shape_of_text(text_at(line_views(lines@), index as int)),
            previous_at(line_views(lines@), index as int),
        ),
{
    let shape = shape_at(lines, index);
    let previous_line = previous_line_at(lines, index);
    line_type_of(&shape, previous_line)
}

/// A copy of the line with another type and forced flag.
fn with_type(line: &FNLine, fn_type: FNLineType, is_forced: bool) -> (typed: FNLine)
    ensures
        typed@ == (FNLineView { fn_type, is_forced, ..line@ }),
{
    let mut typed = line.clone();
    typed.fn_type = fn_type;
    typed.is_forced = is_forced;
    typed
}

/// Classifies every line in one forward pass. Each line is typed from its
/// visible text and from the type just given to the line before it; a
/// character cue turns into action as soon as the line after it proves to
/// be empty. The types that the lines come with are not read.
pub fn get_parsed_lines_from_line_vec(lines: Vec<FNLine>) -> (parsed: Vec<FNLine>)
    ensures
        line_views(parsed@) == parsed_lines(line_views(lines@)),
        parsed.len() == lines.len(),
{
    let ghost given = line_views(lines@);
    let ghost texts = visible_texts(given);
    let mut parsed = lines;
    let mut index: usize = 0;
    while index < parsed.len()
        invariant
            index <= parsed.len(),
            parsed.len() == given.len(),
            texts == visible_texts(given),
            forall|j: int|
                0 <= j < index ==> (#[trigger] parsed[j])@ == (FNLineView {
                    fn_type: if j + 1 < index {
                        final_type(texts, j)
                    } else {
                        primary_type(texts, j)
                    },
                    is_forced: is_forced_for(
                        shape_of_text(given[j].string),
                        previous_in_pass(texts, j),
                    ),
                    ..given[j]
                }),
            forall|j: int| index <= j < parsed.len() ==> (#[trigger] parsed[j])@ == given[j],
        decreases parsed.len() - index,
    {
        let ghost before = parsed@;
        let shape = shape_at(&parsed, index);
        let previous_line = previous_line_at(&parsed, index);
        proof {
            assert(text_at(line_views(parsed@), index as int) == texts[index as int]);
            if index > 0 {
                assert(parsed[index - 1]@.string == texts[index - 1]);
            }
            assert(previous_line == previous_in_pass(texts, index as int));
        }
        let line_type = line_type_of(&shape, previous_line);
        let forced = is_forced_line(&shape, previous_line);
        assert(line_type == primary_type(texts, index as int));
        if line_type == FNLineType::Empty && index > 0 {
            if parsed[index - 1].fn_type == FNLineType::Character {
                let action = with_type(
                    &parsed[index - 1],
                    FNLineType::Action,
                    parsed[index - 1].is_forced,
                );
                parsed.set(index - 1, action);
            }
        }
        let typed = with_type(&parsed[index], line_type, forced);
        parsed.set(index, typed);
        index += 1;
    }
    assert(line_views(parsed@) =~= parsed_lines(given));
    parsed
}

/// The text with every carriage return that a line feed follows removed.
pub open spec fn normalize_newlines(text: Seq<char>) -> Seq<char>
    decreases text.len(),
{
    if text.len() == 0 {
        Seq::empty()
    } else if text.len() >= 2 && text[0] == '\r' && text[1] == '\n' {
        seq!['\n'] + normalize_newlines(text.skip(2))
    } else {
        seq![text[0]] + normalize_newlines(text.skip(1))
    }
}

/// The lines of `text` from offset `start` on: each ends before the next
/// line feed or at the end of the text, and a line feed that ends the text
/// starts no further line.
pub open spec fn lines_from(text: Seq<char>, start: int) -> Seq<Seq<char>>
    decreases text.len() + 1 - start,
    via lines_from_decreases
{
    if start < 0 || start >= text.len() {
        Seq::empty()
    } else {
        let end = first_index_from(text, '\n', start);
        seq![text.subrange(start, end)] + lines_from(text, end + 1)
    }
}

#[via_fn]
proof fn lines_from_decreases(text: Seq<char>, start: int) {
    if 0 <= start < text.len() {
        lemma_first_index_from(text, '\n', start);
    }
}

/// The physical lines of a document, line endings left out.
pub open spec fn physical_lines(text: Seq<char>) -> Seq<Seq<char>> {
    lines_from(normalize_newlines(text), 0)
}

/// The number of grapheme clusters of a text.
pub open spec fn grapheme_count(text: Seq<char>) -> nat {
    grapheme_clusters(text).len()
}

/// Where line `i` starts: the clusters of all lines before it, and one
/// more for each line ending between them.
pub open spec fn line_position(texts: Seq<Seq<char>>, i: int) -> nat
    decreases i,
{
    if i <= 0 {
        0
    } else {
        line_position(texts, i - 1) + grapheme_count(texts[i - 1]) + 1
    }
}

/// The line that the segmenter makes of line `i` of the texts: unparsed,
/// with the text as visible and as raw text, its offset and its length in
/// clusters.
pub open spec fn unparsed_line(texts: Seq<Seq<char>>, i: int) -> FNLineView {
    FNLineView {
        string: texts[i],
        raw_string: texts[i],
        position: line_position(texts, i),
        length: grapheme_count(texts[i]),
        ..blank_line()
    }
}

/// The lines that the segmenter makes of the texts.
pub open spec fn unparsed_lines(texts: Seq<Seq<char>>) -> Seq<FNLineView> {
    Seq::new(texts.len(), |i: int| unparsed_line(texts, i))
}

/// The text of a document that may be missing: no document has no text.
pub open spec fn document_text(text: Option<String>) -> Seq<char> {
    match text {
        Some(document) => document@,
        None => Seq::empty(),
    }
}

/// Removes every carriage return that a line feed follows.
pub fn normalized(text: &Vec<char>) -> (fixed: Vec<char>)
    ensures
        fixed@ == normalize_newlines(text@),
        fixed.len() <= text.len(),
{
    let mut fixed: Vec<char> = Vec::new();
    let mut i: usize = 0;
    assert(text@.skip(0) =~= text@);
    assert(fixed@ + normalize_newlines(text@) =~= normalize_newlines(text@));
    while i < text.len()
        invariant
            i <= text.len(),
            fixed.len() <= i,
            normalize_newlines(text@) == fixed@ + normalize_newlines(text@.skip(i as int)),
        decreases text.len() - i,
    {
        let ghost rest = text@.skip(i as int);
        if text[i] == '\r' && i + 1 < text.len() && text[i + 1] == '\n' {
            assert(rest[0] == '\r' && rest[1] == '\n');
            assert(rest.skip(2) =~= text@.skip(i + 2));
            fixed.push('\n');
            assert(fixed@ + normalize_newlines(text@.skip(i + 2)) =~= normalize_newlines(text@));
            i += 2;
        } else {
            assert(rest[0] == text[i as int]);
            assert(rest.len() >= 2 ==> rest[1] == text[i + 1]);
            assert(rest.skip(1) =~= text@.skip(i + 1));
            fixed.push(text[i]);
            assert(fixed@ + normalize_newlines(text@.skip(i + 1)) =~= normalize_newlines(text@));
            i += 1;
        }
    }
    assert(text@.skip(text.len() as int).len() == 0);
    assert(fixed@ + Seq::<char>::empty() =~= fixed@);
    fixed
}

/// Every line ends before the next one starts: the offsets of the lines
/// increase, and no two lines overlap.
pub proof fn lemma_line_offsets_increase(texts: Seq<Seq<char>>, i: int, j: int)
    requires
        0 <= i < j,
    ensures
        line_position(texts, i) + grapheme_count(texts[i]) < line_position(texts, j),
    decreases j - i,
{
    if i + 1 < j {
        lemma_line_offsets_increase(texts, i, j - 1);
    }
}

/// No line holds a line feed: the lines are what stands between the line
/// feeds of the text.
pub proof fn lemma_lines_hold_no_line_feed(text: Seq<char>, start: int, i: int)
    requires
        0 <= start,
        0 <= i < lines_from(text, start).len(),
    ensures
        !lines_from(text, start)[i].contains('\n'),
    decreases text.len() + 1 - start,
{
    if start < text.len() {
        lemma_first_index_from(text, '\n', start);
        let end = first_index_from(text, '\n', start);
        if i > 0 {
            lemma_lines_hold_no_line_feed(text, end + 1, i - 1);
        }
    }
}

/// The number of line feeds in `text` at or after offset `start`.
pub open spec fn line_feeds_from(text: Seq<char>, start: int) -> nat
    decreases text.len() - start,
{
    if start < 0 || start >= text.len() {
        0
    } else if text[start] == '\n' {
        1 + line_feeds_from(text, start + 1)
    } else {
        line_feeds_from(text, start + 1)
    }
}

/// A stretch of text without line feeds adds nothing to their number.
proof fn lemma_no_line_feeds_between(text: Seq<char>, start: int, end: int)
    requires
        0 <= start <= end <= text.len(),
        forall|j: int| start <= j < end ==> text[j] != '\n',
    ensures
        line_feeds_from(text, start) == line_feeds_from(text, end),
    decreases end - start,
{
    if start < end {
        lemma_no_line_feeds_between(text, start + 1, end);
    }
}

/// A text has as many lines as it has line feeds, and one more if it does
/// not end with a line feed.
pub proof fn lemma_line_count(text: Seq<char>, start: int)
    requires
        0 <= start <= text.len(),
    ensures
        lines_from(text, start).len() == line_feeds_from(text, start) + (if start < text.len()
            && text.last() != '\n' {
            1int
        } else {
            0int
        }),
    decreases text.len() + 1 - start,
{
    if start < text.len() {
        lemma_first_index_from(text, '\n', start);
        let end = first_index_from(text, '\n', start);
        lemma_no_line_feeds_between(text, start, end);
        assert(lines_from(text, start).len() == 1 + lines_from(text, end + 1).len());
        if end < text.len() {
            lemma_line_count(text, end + 1);
            assert(line_feeds_from(text, end) == 1 + line_feeds_from(text, end + 1));
        } else {
            assert(lines_from(text, end + 1).len() == 0);
            assert(line_feeds_from(text, end) == 0);
            assert(text.last() == text[text.len() - 1]);
        }
    }
}

/// Splits the document into lines. Line endings are a line feed, alone or
/// after a carriage return; the last line needs none. Each line is
/// unparsed, holds its text as visible and as raw text, and knows its
/// offset and length in grapheme clusters. No text gives no lines.
pub fn get_unparsed_line_array_from_raw_string(text: Option<String>) -> (lines: Vec<FNLine>)
    ensures
        line_views(lines@) == unparsed_lines(physical_lines(document_text(text))),
        lines.len() == physical_lines(document_text(text)).len(),
        forall|i: int, j: int|
            0 <= i < j < lines.len() ==> (#[trigger] lines[i]).position + lines[i].length < (
            #[trigger] lines[j]).position,
        forall|i: int|
            0 <= i < lines.len() ==> (#[trigger] lines[i]).position + lines[i].length
                <= normalize_newlines(document_text(text)).len(),
        forall|i: int|
            0 <= i < lines.len() ==> (#[trigger] lines[i]).position + lines[i].length
                <= document_text(text).len(),
        forall|i: int, j: int|
            0 <= i && j == i + 1 && j < lines.len() ==> (#[trigger] lines[j]).position == (
            #[trigger] lines[i]).position + lines[i].length + 1,
{
    let raw_text = match text {
        Some(document) => document,
        None => String::new(),
    };
    let chars = normalized(&chars_of(raw_text.as_str()));
    let ghost all = lines_from(chars@, 0);
    let mut lines: Vec<FNLine> = Vec::new();
    let mut position: usize = 0;
    let mut start: usize = 0;
    while start < chars.len()
        invariant
            start <= chars.len(),
            all == lines_from(chars@, 0),
            lines.len() <= all.len(),
            all == all.take(lines.len() as int) + lines_from(chars@, start as int),
            forall|j: int| 0 <= j < lines.len() ==> (#[trigger] lines[j])@ == unparsed_line(all, j),
            forall|j: int|
                0 <= j < lines.len() ==> (#[trigger] lines[j]).position + lines[j].length
                    <= chars.len(),
            start < chars.len() ==> position == line_position(all, lines.len() as int),
            position <= start,
        decreases chars.len() - start,
    {
        let end = find_char_from(&chars, '\n', start);
        let ghost done = all.take(lines.len() as int);
        let ghost line_text = chars@.subrange(start as int, end as int);
        proof {
            assert(lines_from(chars@, start as int) == seq![line_text] + lines_from(
                chars@,
                end + 1,
            ));
            assert(all[lines.len() as int] == line_text);
            assert(all.take(lines.len() + 1) =~= done.push(line_text));
            assert(all =~= all.take(lines.len() + 1) + lines_from(chars@, end + 1));
        }
        let string = string_from_chars(slice_of(&chars, start, end));
        let clusters = graphemes(string.as_str());
        proof {
            lemma_cluster_count(seqs_of(clusters@));
        }
        let raw_string = string.clone();
        let mut line = FNLine::default();
        line.string = string;
        line.raw_string = raw_string;
        line.position = position;
        line.length = clusters.len();
        lines.push(line);
        if end < chars.len() {
            position = position + clusters.len() + 1;
            start = end + 1;
        } else {
            start = end;
        }
    }
    proof {
        assert(lines_from(chars@, start as int) =~= Seq::<Seq<char>>::empty());
        assert(all.take(lines.len() as int) + Seq::<Seq<char>>::empty() =~= all.take(
            lines.len() as int,
        ));
        assert(all.take(lines.len() as int).len() == lines.len());
        assert(line_views(lines@) =~= unparsed_lines(all));
        assert forall|i: int, j: int| 0 <= i < j < lines.len() implies (
        #[trigger] lines[i]).position + lines[i].length < (#[trigger] lines[j]).position by {
            lemma_line_offsets_increase(all, i, j);
            assert(lines[i]@ == unparsed_line(all, i));
            assert(lines[j]@ == unparsed_line(all, j));
        }
        assert forall|i: int, j: int| 0 <= i && j == i + 1 && j < lines.len() implies (
        #[trigger] lines[j]).position == (#[trigger] lines[i]).position + lines[i].length
            + 1 by {
            assert(lines[i]@ == unparsed_line(all, i));
            assert(lines[j]@ == unparsed_line(all, j));
        }
    }
    lines
}

/// Splits the document into lines and classifies every line.
pub fn get_parsed_lines_from_raw_string(text: String) -> (lines: Vec<FNLine>)
    ensures
        line_views(lines@) == parsed_lines(unparsed_lines(physical_lines(text@))),
        lines.len() == physical_lines(text@).len(),
{
    let lines = get_unparsed_line_array_from_raw_string(Some(text));
    get_parsed_lines_from_line_vec(lines)
}

/// Whether the type is one that the classifier gives to a line: a
/// screenplay element, not a marker of the type set itself and not an
/// element made up for export.
pub open spec fn is_classified_type(line_type: FNLineType) -> bool {
    line_type != FNLineType::Unparsed && line_type != FNLineType::TypeCount && line_type
        != FNLineType::PartialLine && line_type != FNLineType::More && line_type
        != FNLineType::DualDialogueMore
}

/// Classification is total: whatever the text and the line before it,
/// the line gets the type of a screenplay element.
pub proof fn lemma_every_line_is_classified(
    shape: FNLineShapeView,
    previous: Option<FNPreviousLine>,
)
    ensures
        is_classified_type(line_type_for(shape, previous)),
{
}

/// The types that the pass gives are those of screenplay elements.
pub proof fn lemma_parsed_types_are_classified(lines: Seq<FNLineView>, i: int)
    requires
        0 <= i < lines.len(),
    ensures
        is_classified_type(parsed_lines(lines)[i].fn_type),
{
    let texts = visible_texts(lines);
    if i == 0 {
        lemma_every_line_is_classified(shape_of_text(texts[0]), None);
    } else {
        lemma_every_line_is_classified(
            shape_of_text(texts[i]),
            Some(previous_from(texts[i - 1], primary_type(texts, i - 1))),
        );
    }
}

/// After the pass no character cue stands before an empty line.
pub proof fn lemma_character_is_followed_by_text(lines: Seq<FNLineView>, i: int)
    requires
        0 <= i,
        i + 1 < lines.len(),
        parsed_lines(lines)[i].fn_type == FNLineType::Character,
    ensures
        parsed_lines(lines)[i + 1].fn_type != FNLineType::Empty,
{
}

/// The pass reads the visible texts only: documents with the same
/// visible texts get the same types and forced flags, whatever types they
/// came with.
pub proof fn lemma_types_depend_on_texts_only(a: Seq<FNLineView>, b: Seq<FNLineView>, i: int)
    requires
        visible_texts(a) == visible_texts(b),
        0 <= i < a.len(),
    ensures
        parsed_lines(a)[i].fn_type == parsed_lines(b)[i].fn_type,
        parsed_lines(a)[i].is_forced == parsed_lines(b)[i].is_forced,
{
    assert(a.len() == visible_texts(a).len());
    assert(b.len() == visible_texts(b).len());
    assert(a[i].string == visible_texts(a)[i]);
    assert(b[i].string == visible_texts(b)[i]);
}

/// Classification is idempotent: classifying classified lines once more
/// changes nothing.
pub proof fn lemma_parsing_is_idempotent(lines: Seq<FNLineView>)
    ensures
        parsed_lines(parsed_lines(lines)) == parsed_lines(lines),
{
    let once = parsed_lines(lines);
    assert(visible_texts(once) =~= visible_texts(lines));
    assert(parsed_lines(once) =~= once);
}

/// Segmenting the raw texts of classified lines again and classifying
/// the result gives every line the type it had.
pub proof fn lemma_reparsing_raw_text_keeps_types(texts: Seq<Seq<char>>, i: int)
    requires
        0 <= i < texts.len(),
    ensures
        parsed_lines(unparsed_lines(visible_texts(parsed_lines(unparsed_lines(texts)))))[i].fn_type
            == parsed_lines(unparsed_lines(texts))[i].fn_type,
        visible_texts(parsed_lines(unparsed_lines(texts))) == texts,
{
    let once = parsed_lines(unparsed_lines(texts));
    assert(visible_texts(once) =~= texts);
}

} // verus!
