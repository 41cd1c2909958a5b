//! Partial lines: lines that hold the delimiters of invisible elements
//! (notes and boneyards), and the ranges that such elements span across
//! several lines.

use crate::fountain_enums::{FNPartialLineType, FNRangedElementType};
use crate::fountain_line::{line_views, FNLine, FNLineView};
use crate::fountain_partial_line_range::FNPartialMultilineRange;
use crate::text::{
    chars_of, ends_with, grapheme_clusters, graphemes, has_suffix, matches_at, occurs_at,
    seqs_of, starts_with,
};
use std::collections::HashMap;
use vstd::prelude::*;

verus! {

broadcast use vstd::std_specs::hash::group_hash_axioms;

/// How far the search moves on after a match: by the length of the
/// pattern, and by one character if the pattern is empty.
pub open spec fn step_after(pattern: Seq<char>) -> int {
    if pattern.len() == 0 {
        1
    } else {
        pattern.len() as int
    }
}

/// The character offsets at or after `from` at which `pattern` stands in
/// `text`, found from left to right; a match does not overlap the one
/// before it.
pub open spec fn occurrences_from(text: Seq<char>, pattern: Seq<char>, from: int) -> Seq<int>
    decreases text.len() + 1 - from,
{
    if from < 0 || from + pattern.len() > text.len() {
        Seq::empty()
    } else if occurs_at(text, pattern, from) {
        seq![from] + occurrences_from(text, pattern, from + step_after(pattern))
    } else {
        occurrences_from(text, pattern, from + 1)
    }
}

/// Whether `pattern` stands somewhere in `text`.
pub open spec fn contains_pattern(text: Seq<char>, pattern: Seq<char>) -> bool {
    exists|at: int| occurs_at(text, pattern, at)
}

/// The index of the cluster in which the character at offset `at` falls:
/// the number of clusters that end at or before that offset.
pub open spec fn cluster_index_of(clusters: Seq<Seq<char>>, at: int) -> int
    decreases clusters.len(),
{
    if clusters.len() == 0 || at < clusters[0].len() {
        0
    } else {
        1 + cluster_index_of(clusters.drop_first(), at - clusters[0].len())
    }
}

/// The offsets of `pattern` in `text`, counted in clusters.
pub open spec fn local_offsets_in(
    text: Seq<char>,
    clusters: Seq<Seq<char>>,
    pattern: Seq<char>,
) -> Seq<int> {
    Seq::new(
        occurrences_from(text, pattern, 0).len(),
        |i: int| cluster_index_of(clusters, occurrences_from(text, pattern, 0)[i]),
    )
}

/// The offsets of `pattern` in `text`, counted in grapheme clusters.
pub open spec fn local_offsets(text: Seq<char>, pattern: Seq<char>) -> Seq<int> {
    local_offsets_in(text, grapheme_clusters(text), pattern)
}

/// The offsets as mathematical integers.
pub open spec fn ints_of(offsets: Seq<usize>) -> Seq<int> {
    Seq::new(offsets.len(), |i: int| offsets[i] as int)
}

/// The first offset, if there is one.
pub open spec fn first_of(offsets: Seq<int>) -> Option<int> {
    if offsets.len() == 0 {
        None
    } else {
        Some(offsets[0])
    }
}

/// The last offset, if there is one.
pub open spec fn last_of(offsets: Seq<int>) -> Option<int> {
    if offsets.len() == 0 {
        None
    } else {
        Some(offsets[offsets.len() - 1])
    }
}

/// Whether `a` comes before `b`, where no offset comes before any offset.
pub open spec fn comes_before(a: Option<int>, b: Option<int>) -> bool {
    match (a, b) {
        (None, Some(_)) => true,
        (Some(x), Some(y)) => x < y,
        _ => false,
    }
}

/// Whether some open offset lies behind some close offset.
pub open spec fn open_follows_close(opens: Seq<int>, closes: Seq<int>) -> bool {
    exists|i: int, j: int|
        0 <= i < opens.len() && 0 <= j < closes.len() && #[trigger] opens[i] > #[trigger] closes[j]
}

/// How a line relates to one kind of invisible element, given its raw
/// text, the delimiters of the kind and the offsets at which they were
/// found.
///
/// A line without either delimiter is no partial line. With opens only it
/// is an orphaned open, with closes only an orphaned close. With both, an
/// open behind the last close trails as an orphan, and a close before the
/// first open leads as an orphan. With neither, the line is invisible only
/// if it starts with the open delimiter, ends with the close delimiter and
/// has no open behind a close; else it is self-contained.
pub open spec fn partial_type_for(
    raw: Seq<char>,
    open: Seq<char>,
    close: Seq<char>,
    opens: Seq<int>,
    closes: Seq<int>,
) -> Option<FNPartialLineType> {
    let has_open = contains_pattern(raw, open);
    let has_close = contains_pattern(raw, close);
    let trailing_open = comes_before(last_of(closes), last_of(opens));
    let leading_close = comes_before(first_of(closes), first_of(opens));
    if !has_open && !has_close {
        None
    } else if !has_close {
        Some(FNPartialLineType::OrphanedOpen)
    } else if !has_open {
        Some(FNPartialLineType::OrphanedClose)
    } else if trailing_open && leading_close {
        Some(FNPartialLineType::OrphanedOpenAndClose)
    } else if trailing_open {
        Some(FNPartialLineType::OrphanedOpen)
    } else if leading_close {
        Some(FNPartialLineType::OrphanedClose)
    } else if !starts_with(raw, open) || !ends_with(raw, close) {
        Some(FNPartialLineType::SelfContained)
    } else if open_follows_close(opens, closes) {
        Some(FNPartialLineType::SelfContained)
    } else {
        Some(FNPartialLineType::InvisibleOnly)
    }
}

/// How a line of raw text relates to the invisible elements with the given
/// delimiters.
pub open spec fn partial_type_of(raw: Seq<char>, open: Seq<char>, close: Seq<char>) -> Option<
    FNPartialLineType,
> {
    partial_type_for(raw, open, close, local_offsets(raw, open), local_offsets(raw, close))
}

/// The character offsets at which `pattern` stands in `text`, found from
/// left to right without overlap.
pub fn find_occurrences(text: &Vec<char>, pattern: &Vec<char>) -> (found: Vec<usize>)
    ensures
        ints_of(found@) == occurrences_from(text@, pattern@, 0),
        forall|i: int| 0 <= i < found.len() ==> #[trigger] found[i] <= text.len(),
{
    let mut found: Vec<usize> = Vec::new();
    if pattern.len() > text.len() {
        assert(ints_of(found@) =~= occurrences_from(text@, pattern@, 0));
        return found;
    }
    let last: usize = text.len() - pattern.len();
    let ghost total = occurrences_from(text@, pattern@, 0);
    let mut from: usize = 0;
    let mut done = false;
    assert(ints_of(found@) + total =~= total);
    while !done
        invariant
            from <= last,
            last == text.len() - pattern.len(),
            total == occurrences_from(text@, pattern@, 0),
            !done ==> total == ints_of(found@) + occurrences_from(text@, pattern@, from as int),
            done ==> total == ints_of(found@),
            forall|i: int| 0 <= i < found.len() ==> #[trigger] found[i] <= text.len(),
        decreases last - from + (if done { 0int } else { 1int }),
    {
        let ghost before = ints_of(found@);
        let hit = matches_at(text, pattern, from);
        if hit {
            found.push(from);
            assert(ints_of(found@) =~= before + seq![from as int]);
        }
        let step: usize = if hit && pattern.len() > 0 {
            pattern.len()
        } else {
            1
        };
        proof {
            let rest = occurrences_from(text@, pattern@, from + step);
            assert(total =~= ints_of(found@) + rest);
            if step > last - from {
                assert(rest =~= Seq::<int>::empty());
                assert(ints_of(found@) + rest =~= ints_of(found@));
            }
        }
        if step > last - from {
            done = true;
        } else {
            from += step;
        }
    }
    found
}

/// Whether `pattern` stands somewhere in `text`.
pub fn has_pattern(text: &Vec<char>, pattern: &Vec<char>) -> (found: bool)
    ensures
        found == contains_pattern(text@, pattern@),
{
    if pattern.len() > text.len() {
        return false;
    }
    let last: usize = text.len() - pattern.len();
    let mut at: usize = 0;
    while at <= last
        invariant
            last == text.len() - pattern.len(),
            at <= last + 1,
            forall|k: int| 0 <= k < at ==> !occurs_at(text@, pattern@, k),
        decreases last + 1 - at,
    {
        if matches_at(text, pattern, at) {
            return true;
        }
        if at == last {
            assert(forall|k: int| 0 <= k <= last ==> !occurs_at(text@, pattern@, k));
            return false;
        }
        at += 1;
    }
    false
}

/// The index of the cluster in which the character at offset `at` falls.
pub fn cluster_index(clusters: &Vec<Vec<char>>, at: usize) -> (index: usize)
    ensures
        index == cluster_index_of(seqs_of(clusters@), at as int),
        index <= clusters.len(),
{
    let ghost all = seqs_of(clusters@);
    let mut index: usize = 0;
    let mut rest: usize = at;
    assert(all.skip(0) =~= all);
    while index < clusters.len() && rest >= clusters[index].len()
        invariant
            index <= clusters.len(),
            all == seqs_of(clusters@),
            cluster_index_of(all, at as int) == index + cluster_index_of(
                all.skip(index as int),
                rest as int,
            ),
        decreases clusters.len() - index,
    {
        proof {
            let tail = all.skip(index as int);
            assert(tail[0] == clusters[index as int]@);
            assert(tail.drop_first() =~= all.skip(index + 1));
        }
        rest -= clusters[index].len();
        index += 1;
    }
    proof {
        let tail = all.skip(index as int);
        if index < clusters.len() {
            assert(tail[0] == clusters[index as int]@);
        }
    }
    index
}

/// The offsets of `pattern` in `text`, counted in the clusters given.
pub fn local_offsets_with(
    text: &Vec<char>,
    clusters: &Vec<Vec<char>>,
    pattern: &Vec<char>,
) -> (offsets: Vec<usize>)
    ensures
        ints_of(offsets@) == local_offsets_in(text@, seqs_of(clusters@), pattern@),
{
    let found = find_occurrences(text, pattern);
    let mut offsets: Vec<usize> = Vec::new();
    let mut i: usize = 0;
    while i < found.len()
        invariant
            i <= found.len(),
            offsets.len() == i,
            ints_of(found@) == occurrences_from(text@, pattern@, 0),
            forall|k: int|
                0 <= k < i ==> #[trigger] offsets[k] == cluster_index_of(
                    seqs_of(clusters@),
                    found[k] as int,
                ),
        decreases found.len() - i,
    {
        offsets.push(cluster_index(clusters, found[i]));
        i += 1;
    }
    proof {
        let total = occurrences_from(text@, pattern@, 0);
        assert(total.len() == found.len());
        assert forall|k: int| 0 <= k < found.len() implies total[k] == found[k] as int by {
            assert(ints_of(found@)[k] == found[k] as int);
        }
        assert(ints_of(offsets@) =~= local_offsets_in(text@, seqs_of(clusters@), pattern@));
    }
    offsets
}

/// The offsets of the open and of the close delimiter of the kind in the
/// raw text of the line, each list in ascending order and counted in
/// grapheme clusters.
pub fn get_local_indices_of_ranged_element(
    line: &FNLine,
    ranged_element_type: &FNRangedElementType,
) -> (offsets: (Vec<usize>, Vec<usize>))
    ensures
        ints_of(offsets.0@) == local_offsets(
            line.raw_string@,
            ranged_element_type.open_pattern(),
        ),
        ints_of(offsets.1@) == local_offsets(
            line.raw_string@,
            ranged_element_type.close_pattern(),
        ),
{
    let (opens_pattern, closes_pattern) = ranged_element_type.get_open_and_close_patterns();
    let text = chars_of(line.raw_string.as_str());
    let clusters = graphemes(line.raw_string.as_str());
    let opens = local_offsets_with(&text, &clusters, &chars_of(opens_pattern.as_str()));
    let closes = local_offsets_with(&text, &clusters, &chars_of(closes_pattern.as_str()));
    (opens, closes)
}

/// Whether `a` comes before `b`, where no offset comes before any offset.
fn offset_comes_before(a: Option<usize>, b: Option<usize>) -> (before: bool)
    ensures
        before == comes_before(
            match a {
                Some(x) => Some(x as int),
                None => None,
            },
            match b {
                Some(y) => Some(y as int),
                None => None,
            },
        ),
{
    match (a, b) {
        (None, Some(_)) => true,
        (Some(x), Some(y)) => x < y,
        _ => false,
    }
}

/// The first offset of the list, if there is one.
pub fn first_offset(offsets: &Vec<usize>) -> (first: Option<usize>)
    ensures
        match first {
            Some(x) => first_of(ints_of(offsets@)) == Some(x as int),
            None => first_of(ints_of(offsets@)) is None,
        },
{
    if offsets.len() == 0 {
        None
    } else {
        Some(offsets[0])
    }
}

/// The last offset of the list, if there is one.
pub fn last_offset(offsets: &Vec<usize>) -> (last: Option<usize>)
    ensures
        match last {
            Some(x) => last_of(ints_of(offsets@)) == Some(x as int),
            None => last_of(ints_of(offsets@)) is None,
        },
{
    if offsets.len() == 0 {
        None
    } else {
        Some(offsets[offsets.len() - 1])
    }
}

/// Whether some open offset lies behind some close offset.
fn any_open_follows_close(opens: &Vec<usize>, closes: &Vec<usize>) -> (follows: bool)
    ensures
        follows == open_follows_close(ints_of(opens@), ints_of(closes@)),
{
    let ghost o = ints_of(opens@);
    let ghost c = ints_of(closes@);
    let mut i: usize = 0;
    while i < opens.len()
        invariant
            i <= opens.len(),
            o == ints_of(opens@),
            c == ints_of(closes@),
            forall|a: int, b: int|
                0 <= a < i && 0 <= b < c.len() ==> !(#[trigger] o[a] > #[trigger] c[b]),
        decreases opens.len() - i,
    {
        let mut j: usize = 0;
        while j < closes.len()
            invariant
                i < opens.len(),
                j <= closes.len(),
                o == ints_of(opens@),
                c == ints_of(closes@),
                forall|b: int| 0 <= b < j ==> !(o[i as int] > #[trigger] c[b]),
            decreases closes.len() - j,
        {
            if opens[i] > closes[j] {
                assert(o[i as int] > c[j as int]);
                return true;
            }
            j += 1;
        }
        i += 1;
    }
    false
}

/// How a line relates to one kind of invisible element, given the offsets
/// at which the open and the close delimiter were found; a list that is
/// not given counts as empty. The line's raw text decides whether it
/// holds the delimiters, starts with the open and ends with the close one.
pub fn get_local_partial_type_for_single_line(
    line: &FNLine,
    ranged_element_type: &FNRangedElementType,
    opens_locals_opt: Option<&Vec<usize>>,
    closes_locals_opt: Option<&Vec<usize>>,
) -> (partial_type: Option<FNPartialLineType>)
    ensures
        partial_type == partial_type_for(
            line.raw_string@,
            ranged_element_type.open_pattern(),
            ranged_element_type.close_pattern(),
            match opens_locals_opt {
                Some(opens) => ints_of(opens@),
                None => Seq::empty(),
            },
            match closes_locals_opt {
                Some(closes) => ints_of(closes@),
                None => Seq::empty(),
            },
        ),
{
    let (opens_pattern, closes_pattern) = ranged_element_type.get_open_and_close_patterns();
    let text = chars_of(line.raw_string.as_str());
    let open = chars_of(opens_pattern.as_str());
    let close = chars_of(closes_pattern.as_str());
    let contains_opens = has_pattern(&text, &open);
    let contains_closes = has_pattern(&text, &close);
    if !contains_opens && !contains_closes {
        return None;
    }
    if contains_opens && !contains_closes {
        return Some(FNPartialLineType::OrphanedOpen);
    }
    if !contains_opens && contains_closes {
        return Some(FNPartialLineType::OrphanedClose);
    }
    let none: Vec<usize> = Vec::new();
    assert(ints_of(none@) =~= Seq::<int>::empty());
    let opens_local_indices: &Vec<usize> = match opens_locals_opt {
        Some(opens) => opens,
        None => &none,
    };
    let closes_local_indices: &Vec<usize> = match closes_locals_opt {
        Some(closes) => closes,
        None => &none,
    };
    let has_orphaned_opens = offset_comes_before(
        last_offset(closes_local_indices),
        last_offset(opens_local_indices),
    );
    let has_orphaned_closes = offset_comes_before(
        first_offset(closes_local_indices),
        first_offset(opens_local_indices),
    );
    if has_orphaned_closes && has_orphaned_opens {
        return Some(FNPartialLineType::OrphanedOpenAndClose);
    }
    if has_orphaned_opens {
        return Some(FNPartialLineType::OrphanedOpen);
    }
    if has_orphaned_closes {
        return Some(FNPartialLineType::OrphanedClose);
    }
    if !matches_at(&text, &open, 0) {
        return Some(FNPartialLineType::SelfContained);
    }
    if !has_suffix(&text, &close) {
        return Some(FNPartialLineType::SelfContained);
    }
    if any_open_follows_close(opens_local_indices, closes_local_indices) {
        return Some(FNPartialLineType::SelfContained);
    }
    Some(FNPartialLineType::InvisibleOnly)
}

impl FNLineView {
    /// The partial-type tag that the line has for the kind. Tags are kept
    /// for boneyards and notes only.
    pub open spec fn partial_tag(self, kind: FNRangedElementType) -> Option<FNPartialLineType> {
        match kind {
            FNRangedElementType::Boneyard { .. } => self.boneyard_type,
            FNRangedElementType::Note { .. } => self.note_type,
            FNRangedElementType::Other { .. } => None,
        }
    }

    /// The line with the tag set for the kind.
    pub open spec fn with_partial_tag(
        self,
        kind: FNRangedElementType,
        tag: FNPartialLineType,
    ) -> FNLineView {
        match kind {
            FNRangedElementType::Boneyard { .. } => FNLineView {
                boneyard_type: Some(tag),
                ..self
            },
            FNRangedElementType::Note { .. } => FNLineView { note_type: Some(tag), ..self },
            FNRangedElementType::Other { .. } => self,
        }
    }
}

/// Whether the raw text holds the open or the close delimiter of the kind.
pub open spec fn holds_delimiter(raw: Seq<char>, kind: FNRangedElementType) -> bool {
    contains_pattern(raw, kind.open_pattern()) || contains_pattern(raw, kind.close_pattern())
}

/// How the raw text of a line relates to the kind.
pub open spec fn partial_type_of_kind(raw: Seq<char>, kind: FNRangedElementType) -> Option<
    FNPartialLineType,
> {
    partial_type_of(raw, kind.open_pattern(), kind.close_pattern())
}

/// The partial-type tag that the line carries for the kind.
pub fn partial_tag_of(line: &FNLine, ranged_element_type: &FNRangedElementType) -> (tag: Option<
    FNPartialLineType,
>)
    ensures
        tag == line@.partial_tag(*ranged_element_type),
{
    match ranged_element_type {
        FNRangedElementType::Boneyard { .. } => line.boneyard_type,
        FNRangedElementType::Note { .. } => line.note_type,
        FNRangedElementType::Other { .. } => None,
    }
}

/// The line with its partial-type tag for the kind set. There is nothing
/// to set without a partial type, and no tag is kept for other kinds than
/// boneyards and notes: then no line is returned.
pub fn get_copy_of_fnline_with_new_partial_type(
    line: FNLine,
    partial_type_opt: &Option<FNPartialLineType>,
    ranged_element_type: &FNRangedElementType,
) -> (tagged: Option<FNLine>)
    ensures
        match *partial_type_opt {
            Some(partial_type) => if *ranged_element_type is Other {
                tagged is None
            } else {
                tagged is Some && tagged->0@ == line@.with_partial_tag(
                    *ranged_element_type,
                    partial_type,
                )
            },
            None => tagged is None,
        },
{
    let mut line = line;
    match partial_type_opt {
        Some(partial_type) => match ranged_element_type {
            FNRangedElementType::Boneyard { .. } => {
                line.boneyard_type = Some(*partial_type);
            },
            FNRangedElementType::Note { .. } => {
                line.note_type = Some(*partial_type);
            },
            FNRangedElementType::Other { .. } => {
                return None;
            },
        },
        None => {
            return None;
        },
    }
    Some(line)
}

/// Whether the raw text of the line holds the open or the close delimiter
/// of the kind.
pub fn line_holds_delimiter(line: &FNLine, ranged_element_type: &FNRangedElementType) -> (holds:
    bool)
    ensures
        holds == holds_delimiter(line.raw_string@, *ranged_element_type),
{
    let (opens_pattern, closes_pattern) = ranged_element_type.get_open_and_close_patterns();
    let text = chars_of(line.raw_string.as_str());
    has_pattern(&text, &chars_of(opens_pattern.as_str())) || has_pattern(
        &text,
        &chars_of(closes_pattern.as_str()),
    )
}

/// The indices of the lines whose raw text holds the open or the close
/// delimiter of the kind, in ascending order.
pub fn get_global_indices_of_ranged_element(
    lines: &Vec<FNLine>,
    ranged_element_type: &FNRangedElementType,
) -> (indices: Vec<usize>)
    ensures
        forall|a: int, b: int| 0 <= a < b < indices.len() ==> indices[a] < indices[b],
        forall|i: usize|
            indices@.contains(i) <==> i < lines.len() && holds_delimiter(
                #[trigger] lines[i as int].raw_string@,
                *ranged_element_type,
            ),
{
    let mut indices: Vec<usize> = Vec::new();
    let mut idx: usize = 0;
    while idx < lines.len()
        invariant
            idx <= lines.len(),
            forall|a: int, b: int| 0 <= a < b < indices.len() ==> indices[a] < indices[b],
            forall|a: int| 0 <= a < indices.len() ==> indices[a] < idx,
            forall|i: usize|
                indices@.contains(i) <==> i < idx && holds_delimiter(
                    #[trigger] lines[i as int].raw_string@,
                    *ranged_element_type,
                ),
        decreases lines.len() - idx,
    {
        let ghost before = indices@;
        if line_holds_delimiter(&lines[idx], ranged_element_type) {
            indices.push(idx);
            assert(indices@[before.len() as int] == idx);
            assert forall|i: usize| indices@.contains(i) implies i == idx || before.contains(
                i,
            ) by {
                let k = choose|k: int| 0 <= k < indices.len() && indices[k] == i;
                if k < before.len() {
                    assert(before[k] == i);
                }
            }
            assert forall|i: usize| before.contains(i) implies indices@.contains(i) by {
                let k = choose|k: int| 0 <= k < before.len() && before[k] == i;
                assert(indices[k] == i);
            }
        }
        idx += 1;
    }
    indices
}

/// For one kind, the lines that hold its delimiters: the open offsets of
/// each line that holds the open delimiter, and the close offsets of each
/// line that holds the close delimiter, by line index.
#[derive(Debug, PartialEq)]
pub struct FNRangedElementIndices {
    /// Offsets of the open delimiter, by line index.
    pub opens: HashMap<usize, Vec<usize>>,
    /// Offsets of the close delimiter, by line index.
    pub closes: HashMap<usize, Vec<usize>>,
}

/// Whether the map holds, for exactly the lines whose raw text holds the
/// pattern, the offsets of the pattern in that line.
pub open spec fn indexes_pattern(
    index: Map<usize, Vec<usize>>,
    lines: Seq<FNLineView>,
    pattern: Seq<char>,
) -> bool {
    &&& forall|i: usize|
        index.dom().contains(i) <==> i < lines.len() && contains_pattern(
            #[trigger] lines[i as int].raw_string,
            pattern,
        )
    &&& forall|i: usize| #[trigger]
        index.dom().contains(i) ==> ints_of(index[i]@) == local_offsets(
            lines[i as int].raw_string,
            pattern,
        )
}

/// Takes the next line into the index: a line that holds the pattern is
/// entered with the offsets of the pattern, another line is passed over.
fn index_next_line(
    index: &mut HashMap<usize, Vec<usize>>,
    lines: &Vec<FNLine>,
    global_idx: usize,
    text: &Vec<char>,
    clusters: &Vec<Vec<char>>,
    pattern: &Vec<char>,
)
    requires
        global_idx < lines.len(),
        text@ == lines[global_idx as int].raw_string@,
        seqs_of(clusters@) == grapheme_clusters(text@),
        indexes_pattern(old(index)@, line_views(lines@).take(global_idx as int), pattern@),
    ensures
        indexes_pattern(final(index)@, line_views(lines@).take(global_idx + 1), pattern@),
{
    let ghost before = index@;
    let ghost seen = line_views(lines@).take(global_idx as int);
    let ghost next = line_views(lines@).take(global_idx + 1);
    if has_pattern(text, pattern) {
        index.insert(global_idx, local_offsets_with(text, clusters, pattern));
    }
    proof {
        assert(next[global_idx as int].raw_string == text@);
        assert forall|i: usize|
            index@.dom().contains(i) <==> i < next.len() && contains_pattern(
                #[trigger] next[i as int].raw_string,
                pattern@,
            ) by {
            if i < global_idx {
                assert(next[i as int] == seen[i as int]);
                assert(before.dom().contains(i) <==> contains_pattern(
                    seen[i as int].raw_string,
                    pattern@,
                ));
            }
        }
        assert forall|i: usize| #[trigger] index@.dom().contains(i) implies ints_of(index@[i]@)
            == local_offsets(next[i as int].raw_string, pattern@) by {
            if i < global_idx {
                assert(next[i as int] == seen[i as int]);
                assert(before.dom().contains(i));
            }
        }
    }
}

/// Indexes the delimiters of the kind over the whole document.
pub fn get_global_and_local_indices_of_ranged_element(
    lines: &Vec<FNLine>,
    ranged_element_type: &FNRangedElementType,
) -> (indices: Option<FNRangedElementIndices>)
    ensures
        indices is Some,
        indexes_pattern(
            indices->0.opens@,
            line_views(lines@),
            ranged_element_type.open_pattern(),
        ),
        indexes_pattern(
            indices->0.closes@,
            line_views(lines@),
            ranged_element_type.close_pattern(),
        ),
{
    let (opens_pattern, closes_pattern) = ranged_element_type.get_open_and_close_patterns();
    let open = chars_of(opens_pattern.as_str());
    let close = chars_of(closes_pattern.as_str());
    let mut indices_opens_map: HashMap<usize, Vec<usize>> = HashMap::new();
    let mut indices_closes_map: HashMap<usize, Vec<usize>> = HashMap::new();
    let mut global_idx: usize = 0;
    while global_idx < lines.len()
        invariant
            global_idx <= lines.len(),
            indexes_pattern(
                indices_opens_map@,
                line_views(lines@).take(global_idx as int),
                open@,
            ),
            indexes_pattern(
                indices_closes_map@,
                line_views(lines@).take(global_idx as int),
                close@,
            ),
        decreases lines.len() - global_idx,
    {
        let line = &lines[global_idx];
        let text = chars_of(line.raw_string.as_str());
        let clusters = graphemes(line.raw_string.as_str());
        index_next_line(&mut indices_opens_map, lines, global_idx, &text, &clusters, &open);
        index_next_line(&mut indices_closes_map, lines, global_idx, &text, &clusters, &close);
        global_idx += 1;
    }
    assert(line_views(lines@).take(lines.len() as int) =~= line_views(lines@));
    Some(FNRangedElementIndices { opens: indices_opens_map, closes: indices_closes_map })
}

/// Whether the map holds exactly the lines that are partial lines of the
/// kind, each under its index and tagged with its partial type.
pub open spec fn holds_partial_lines(
    partials: Map<usize, FNLine>,
    lines: Seq<FNLineView>,
    kind: FNRangedElementType,
) -> bool {
    &&& forall|i: usize|
        partials.dom().contains(i) <==> i < lines.len() && !(kind is Other)
            && partial_type_of_kind(#[trigger] lines[i as int].raw_string, kind) is Some
    &&& forall|i: usize| #[trigger]
        partials.dom().contains(i) ==> partials[i]@ == lines[i as int].with_partial_tag(
            kind,
            partial_type_of_kind(lines[i as int].raw_string, kind)->0,
        )
}

/// The partial lines of the document for one kind: each line that holds a
/// delimiter of the kind, under its index and tagged with its partial
/// type. No tags are kept for other kinds than boneyards and notes, so
/// their map is empty.
pub fn get_partial_fnline_map_for_ranged_element_type(
    lines: &Vec<FNLine>,
    ranged_element_type: &FNRangedElementType,
) -> (partials: Option<HashMap<usize, FNLine>>)
    ensures
        partials is Some,
        holds_partial_lines(partials->0@, line_views(lines@), *ranged_element_type),
{
    let mut fnline_map: HashMap<usize, FNLine> = HashMap::new();
    let ghost views = line_views(lines@);
    let ghost kind = *ranged_element_type;
    let mut global_idx: usize = 0;
    while global_idx < lines.len()
        invariant
            global_idx <= lines.len(),
            views == line_views(lines@),
            kind == *ranged_element_type,
            holds_partial_lines(fnline_map@, views.take(global_idx as int), kind),
        decreases lines.len() - global_idx,
    {
        let line = &lines[global_idx];
        let ghost before = fnline_map@;
        let (opens, closes) = get_local_indices_of_ranged_element(line, ranged_element_type);
        let partial_type = get_local_partial_type_for_single_line(
            line,
            ranged_element_type,
            Some(&opens),
            Some(&closes),
        );
        assert(partial_type == partial_type_of_kind(line.raw_string@, kind));
        if let Some(tagged) = get_copy_of_fnline_with_new_partial_type(
            line.clone(),
            &partial_type,
            ranged_element_type,
        ) {
            fnline_map.insert(global_idx, tagged);
        }
        proof {
            let seen = views.take(global_idx as int);
            let next = views.take(global_idx + 1);
            assert(next[global_idx as int] == line@);
            assert forall|i: usize|
                fnline_map@.dom().contains(i) <==> i < next.len() && !(kind is Other)
                    && partial_type_of_kind(#[trigger] next[i as int].raw_string, kind)
                    is Some by {
                if i < global_idx {
                    assert(next[i as int] == seen[i as int]);
                    assert(before.dom().contains(i) <==> !(kind is Other)
                        && partial_type_of_kind(seen[i as int].raw_string, kind) is Some);
                }
            }
            assert forall|i: usize| #[trigger]
                fnline_map@.dom().contains(i) implies fnline_map@[i]@ == next[i
                as int].with_partial_tag(
                kind,
                partial_type_of_kind(next[i as int].raw_string, kind)->0,
            ) by {
                if i < global_idx {
                    assert(next[i as int] == seen[i as int]);
                    assert(before.dom().contains(i));
                }
            }
        }
        global_idx += 1;
    }
    assert(views.take(lines.len() as int) =~= views);
    Some(fnline_map)
}

/// An open delimiter that waits for its close.
#[derive(Debug, PartialEq, Eq, Structural, Clone, Copy)]
pub struct FNPendingOpen {
    /// Index of the line that holds the open delimiter.
    pub global_index: usize,
    /// Offset of the open delimiter in that line, if the line holds one.
    pub local_index: Option<usize>,
}

/// The ranges resolved so far, and the open that is still pending.
pub ghost struct FNRangeAssembly {
    pub ranges: Seq<FNPartialMultilineRange>,
    pub pending: Option<FNPendingOpen>,
}

/// The range from a pending open to a close on a later line.
pub open spec fn range_between(
    pending: FNPendingOpen,
    global_end: usize,
    local_end: Option<usize>,
) -> FNPartialMultilineRange {
    FNPartialMultilineRange {
        id: None,
        global_start: Some(pending.global_index),
        local_start: pending.local_index,
        global_end: Some(global_end),
        local_end,
    }
}

/// Whether a line with this tag ends the range of a pending open.
pub open spec fn closes_range(tag: Option<FNPartialLineType>) -> bool {
    tag == Some(FNPartialLineType::OrphanedClose) || tag == Some(
        FNPartialLineType::OrphanedOpenAndClose,
    )
}

/// Whether a line with this tag may start a range.
pub open spec fn opens_range(tag: Option<FNPartialLineType>) -> bool {
    tag == Some(FNPartialLineType::OrphanedOpen) || tag == Some(
        FNPartialLineType::OrphanedOpenAndClose,
    )
}

/// Whether a line with this tag may not stand inside a range.
pub open spec fn interrupts_range(tag: Option<FNPartialLineType>) -> bool {
    tag == Some(FNPartialLineType::SelfContained) || tag == Some(
        FNPartialLineType::InvisibleOnly,
    )
}

/// The ranges after a line has been visited: a line that closes ends the
/// range of the pending open at its first close delimiter.
pub open spec fn ranges_after(
    ranges: Seq<FNPartialMultilineRange>,
    pending: Option<FNPendingOpen>,
    global_index: usize,
    tag: Option<FNPartialLineType>,
    first_close: Option<usize>,
) -> Seq<FNPartialMultilineRange> {
    if pending is Some && closes_range(tag) {
        ranges.push(range_between(pending->0, global_index, first_close))
    } else {
        ranges
    }
}

/// The pending open after a line has been visited. A line that ends with
/// an orphaned open after an orphaned close always leaves its own open
/// pending. An orphaned open becomes pending unless an earlier one
/// already is. An orphaned close, a self-contained line and an invisible
/// line leave nothing pending: the first ends the range, the others break
/// it. A line without a tag changes nothing.
pub open spec fn pending_after(
    pending: Option<FNPendingOpen>,
    global_index: usize,
    tag: Option<FNPartialLineType>,
    last_open: Option<usize>,
) -> Option<FNPendingOpen> {
    match tag {
        Some(FNPartialLineType::OrphanedOpenAndClose) => Some(
            FNPendingOpen { global_index, local_index: last_open },
        ),
        Some(FNPartialLineType::OrphanedOpen) => if pending is Some {
            pending
        } else {
            Some(FNPendingOpen { global_index, local_index: last_open })
        },
        Some(_) => None,
        None => pending,
    }
}

/// The first offset of the pattern in the raw text, in grapheme clusters.
pub open spec fn first_local_offset(raw: Seq<char>, pattern: Seq<char>) -> Option<usize> {
    if local_offsets(raw, pattern).len() == 0 {
        None
    } else {
        Some(local_offsets(raw, pattern)[0] as usize)
    }
}

/// The last offset of the pattern in the raw text, in grapheme clusters.
pub open spec fn last_local_offset(raw: Seq<char>, pattern: Seq<char>) -> Option<usize> {
    if local_offsets(raw, pattern).len() == 0 {
        None
    } else {
        Some(local_offsets(raw, pattern)[local_offsets(raw, pattern).len() - 1] as usize)
    }
}

/// The state of the assembler after it has visited, in ascending order,
/// every line of the map with an index below `upto`.
pub open spec fn assembly_upto(
    partials: Map<usize, FNLine>,
    kind: FNRangedElementType,
    upto: int,
) -> FNRangeAssembly
    decreases upto,
{
    if upto <= 0 {
        FNRangeAssembly { ranges: Seq::empty(), pending: None }
    } else {
        let before = assembly_upto(partials, kind, upto - 1);
        let index = (upto - 1) as usize;
        if partials.dom().contains(index) {
            let line = partials[index]@;
            FNRangeAssembly {
                ranges: ranges_after(
                    before.ranges,
                    before.pending,
                    index,
                    line.partial_tag(kind),
                    first_local_offset(line.raw_string, kind.close_pattern()),
                ),
                pending: pending_after(
                    before.pending,
                    index,
                    line.partial_tag(kind),
                    last_local_offset(line.raw_string, kind.open_pattern()),
                ),
            }
        } else {
            before
        }
    }
}

/// Visits one partial line: ends the range of the pending open if the line
/// closes it, and returns the open that is pending after the line.
pub fn resolve_partial_line(
    ranges: &mut Vec<FNPartialMultilineRange>,
    pending: Option<FNPendingOpen>,
    global_index: usize,
    partial_type: Option<FNPartialLineType>,
    last_open: Option<usize>,
    first_close: Option<usize>,
) -> (next: Option<FNPendingOpen>)
    ensures
        final(ranges)@ == ranges_after(
            old(ranges)@,
            pending,
            global_index,
            partial_type,
            first_close,
        ),
        next == pending_after(pending, global_index, partial_type, last_open),
{
    let here = FNPendingOpen { global_index, local_index: last_open };
    match partial_type {
        Some(FNPartialLineType::OrphanedOpenAndClose) => {
            if let Some(open) = pending {
                ranges.push(
                    FNPartialMultilineRange {
                        id: None,
                        global_start: Some(open.global_index),
                        local_start: open.local_index,
                        global_end: Some(global_index),
                        local_end: first_close,
                    },
                );
            }
            Some(here)
        },
        Some(FNPartialLineType::OrphanedClose) => {
            if let Some(open) = pending {
                ranges.push(
                    FNPartialMultilineRange {
                        id: None,
                        global_start: Some(open.global_index),
                        local_start: open.local_index,
                        global_end: Some(global_index),
                        local_end: first_close,
                    },
                );
            }
            None
        },
        Some(FNPartialLineType::OrphanedOpen) => {
            if pending.is_some() {
                pending
            } else {
                Some(here)
            }
        },
        Some(_) => None,
        None => pending,
    }
}

/// Pairs orphaned opens with orphaned closes into ranges that span several
/// lines.
///
/// The lines of the document are visited in ascending order; a line takes
/// part if the map holds it under its index. One open at most is pending.
/// An orphaned close ends the range of the pending open at its first close
/// delimiter; a line with an orphaned close and a later orphaned open ends
/// that range too and leaves its last open pending. A self-contained or
/// an invisible line breaks the pending open, so that no range holds such
/// a line. An orphaned open is kept pending until then, and a later one
/// is passed over while it is.
pub fn get_partial_multiline_ranges_from_partial_map(
    partials_map: &HashMap<usize, FNLine>,
    lines: &Vec<FNLine>,
    ranged_element_type: &FNRangedElementType,
) -> (ranges: Vec<FNPartialMultilineRange>)
    ensures
        ranges@ == assembly_upto(
            partials_map@,
            *ranged_element_type,
            lines.len() as int,
        ).ranges,
{
    let mut partial_line_ranges_vec: Vec<FNPartialMultilineRange> = Vec::new();
    let mut last_unresolved_open: Option<FNPendingOpen> = None;
    let mut global_idx: usize = 0;
    while global_idx < lines.len()
        invariant
            global_idx <= lines.len(),
            assembly_upto(partials_map@, *ranged_element_type, global_idx as int) == (
            FNRangeAssembly { ranges: partial_line_ranges_vec@, pending: last_unresolved_open }),
        decreases lines.len() - global_idx,
    {
        if let Some(ln) = partials_map.get(&global_idx) {
            let partial_type = partial_tag_of(ln, ranged_element_type);
            let (open_locals, close_locals) = get_local_indices_of_ranged_element(
                ln,
                ranged_element_type,
            );
            last_unresolved_open =
            resolve_partial_line(
                &mut partial_line_ranges_vec,
                last_unresolved_open,
                global_idx,
                partial_type,
                last_offset(&open_locals),
                first_offset(&close_locals),
            );
        }
        global_idx += 1;
    }
    partial_line_ranges_vec
}

/// The partial-type tag of the line that the map holds under the index,
/// if it holds one.
pub open spec fn tag_at(
    partials: Map<usize, FNLine>,
    kind: FNRangedElementType,
    index: usize,
) -> Option<FNPartialLineType> {
    if partials.dom().contains(index) {
        partials[index]@.partial_tag(kind)
    } else {
        None
    }
}

/// Whether no line strictly between the two indices breaks or ends a
/// range.
pub open spec fn is_uninterrupted(
    partials: Map<usize, FNLine>,
    kind: FNRangedElementType,
    start: int,
    end: int,
) -> bool {
    forall|k: usize|
        start < k < end ==> !interrupts_range(#[trigger] tag_at(partials, kind, k))
            && !closes_range(tag_at(partials, kind, k))
}

/// Whether the range runs from the last open delimiter of a line with an
/// orphaned open to the first close delimiter of the nearest later line
/// with an orphaned close, with no self-contained or invisible line
/// between the two.
pub open spec fn is_valid_range(
    partials: Map<usize, FNLine>,
    kind: FNRangedElementType,
    range: FNPartialMultilineRange,
) -> bool {
    &&& range.id is None
    &&& range.global_start is Some
    &&& range.global_end is Some
    &&& range.global_start->0 < range.global_end->0
    &&& opens_range(tag_at(partials, kind, range.global_start->0))
    &&& closes_range(tag_at(partials, kind, range.global_end->0))
    &&& is_uninterrupted(partials, kind, range.global_start->0 as int, range.global_end->0 as int)
    &&& range.local_start == last_local_offset(
        partials[range.global_start->0]@.raw_string,
        kind.open_pattern(),
    )
    &&& range.local_end == first_local_offset(
        partials[range.global_end->0]@.raw_string,
        kind.close_pattern(),
    )
}

/// Whether the pending open, if there is one, is the last open delimiter
/// of a line with an orphaned open below `upto`, and nothing has broken or
/// ended its range since.
pub open spec fn is_valid_pending(
    partials: Map<usize, FNLine>,
    kind: FNRangedElementType,
    upto: int,
    pending: Option<FNPendingOpen>,
) -> bool {
    pending is Some ==> {
        &&& pending->0.global_index < upto
        &&& opens_range(tag_at(partials, kind, pending->0.global_index))
        &&& is_uninterrupted(partials, kind, pending->0.global_index as int, upto)
        &&& pending->0.local_index == last_local_offset(
            partials[pending->0.global_index]@.raw_string,
            kind.open_pattern(),
        )
    }
}

/// Whether the assembler is in a sound state after the lines below
/// `upto`: every range is valid and ends below `upto`, the ranges follow
/// one another without overlap, and the pending open is valid and starts
/// no earlier than the last range ends.
pub open spec fn is_sound_assembly(
    partials: Map<usize, FNLine>,
    kind: FNRangedElementType,
    upto: int,
    state: FNRangeAssembly,
) -> bool {
    &&& is_valid_pending(partials, kind, upto, state.pending)
    &&& forall|r: int|
        0 <= r < state.ranges.len() ==> is_valid_range(partials, kind, #[trigger] state.ranges[r])
            && state.ranges[r].global_end->0 < upto
    &&& forall|r: int, s: int|
        0 <= r < s < state.ranges.len() ==> (#[trigger] state.ranges[r]).global_end->0 <= (
        #[trigger] state.ranges[s]).global_start->0
    &&& forall|r: int|
        0 <= r < state.ranges.len() && state.pending is Some ==> (
        #[trigger] state.ranges[r]).global_end->0 <= state.pending->0.global_index
}

/// The assembler is in a sound state after any number of lines.
pub proof fn lemma_assembly_is_sound(
    partials: Map<usize, FNLine>,
    kind: FNRangedElementType,
    upto: int,
)
    requires
        0 <= upto <= usize::MAX + 1,
    ensures
        is_sound_assembly(partials, kind, upto, assembly_upto(partials, kind, upto)),
    decreases upto,
{
    if upto > 0 {
        lemma_assembly_is_sound(partials, kind, upto - 1);
        let before = assembly_upto(partials, kind, upto - 1);
        let after = assembly_upto(partials, kind, upto);
        let index = (upto - 1) as usize;
        let tag = tag_at(partials, kind, index);
        assert(is_valid_pending(partials, kind, upto, after.pending)) by {
            if after.pending is Some {
                let open = after.pending->0;
                if open.global_index == index {
                    assert(is_uninterrupted(partials, kind, index as int, upto));
                } else {
                    assert(after.pending == before.pending);
                    assert forall|k: usize| open.global_index < k < upto implies !interrupts_range(
                        #[trigger] tag_at(partials, kind, k),
                    ) && !closes_range(tag_at(partials, kind, k)) by {
                        if k < index {
                            assert(is_uninterrupted(
                                partials,
                                kind,
                                open.global_index as int,
                                upto - 1,
                            ));
                        }
                    }
                }
            }
        }
        assert forall|r: int| 0 <= r < after.ranges.len() implies is_valid_range(
            partials,
            kind,
            #[trigger] after.ranges[r],
        ) && after.ranges[r].global_end->0 < upto by {
            if r < before.ranges.len() {
                assert(after.ranges[r] == before.ranges[r]);
            }
        }
        assert forall|r: int, s: int| 0 <= r < s < after.ranges.len() implies (
        #[trigger] after.ranges[r]).global_end->0 <= (
        #[trigger] after.ranges[s]).global_start->0 by {
            assert(after.ranges[r] == before.ranges[r]);
            if s < before.ranges.len() {
                assert(after.ranges[s] == before.ranges[s]);
            }
        }
        assert forall|r: int| 0 <= r < after.ranges.len() && after.pending is Some implies (
        #[trigger] after.ranges[r]).global_end->0 <= after.pending->0.global_index by {
            if r < before.ranges.len() {
                assert(after.ranges[r] == before.ranges[r]);
            }
        }
    }
}

/// Every range that the assembler makes of the lines below `upto` is
/// valid: it starts at the last open delimiter of a line with an orphaned
/// open and ends at the first close delimiter of the nearest later line
/// with an orphaned close, it spans two lines at least, and no
/// self-contained or invisible line stands between its two ends.
pub proof fn lemma_ranges_are_valid(
    partials: Map<usize, FNLine>,
    kind: FNRangedElementType,
    upto: int,
    r: int,
)
    requires
        0 <= upto <= usize::MAX + 1,
        0 <= r < assembly_upto(partials, kind, upto).ranges.len(),
    ensures
        is_valid_range(partials, kind, assembly_upto(partials, kind, upto).ranges[r]),
        assembly_upto(partials, kind, upto).ranges[r].global_end->0 < upto,
{
    lemma_assembly_is_sound(partials, kind, upto);
}

/// The ranges that the assembler makes follow one another in the
/// document and do not overlap.
pub proof fn lemma_ranges_are_ordered(
    partials: Map<usize, FNLine>,
    kind: FNRangedElementType,
    upto: int,
    r: int,
    s: int,
)
    requires
        0 <= upto <= usize::MAX + 1,
        0 <= r < s < assembly_upto(partials, kind, upto).ranges.len(),
    ensures
        assembly_upto(partials, kind, upto).ranges[r].global_end->0 <= assembly_upto(
            partials,
            kind,
            upto,
        ).ranges[s].global_start->0,
{
    lemma_assembly_is_sound(partials, kind, upto);
}

/// A line is a partial line of a kind exactly if its raw text holds the
/// open or the close delimiter of the kind.
pub proof fn lemma_partial_type_needs_delimiter(
    raw: Seq<char>,
    open: Seq<char>,
    close: Seq<char>,
    opens: Seq<int>,
    closes: Seq<int>,
)
    ensures
        partial_type_for(raw, open, close, opens, closes) is Some <==> contains_pattern(raw, open)
            || contains_pattern(raw, close),
{
}

/// The search finds an occurrence at or after `from` exactly if the
/// pattern stands somewhere at or after `from`, and every offset it finds
/// is one at which the pattern stands.
pub proof fn lemma_occurrences_are_matches(text: Seq<char>, pattern: Seq<char>, from: int)
    requires
        0 <= from,
    ensures
        forall|i: int|
            0 <= i < occurrences_from(text, pattern, from).len() ==> from <= (
            #[trigger] occurrences_from(text, pattern, from)[i]) && occurs_at(
                text,
                pattern,
                occurrences_from(text, pattern, from)[i],
            ),
        occurrences_from(text, pattern, from).len() > 0 <==> exists|at: int|
            from <= at && occurs_at(text, pattern, at),
    decreases text.len() + 1 - from,
{
    if from + pattern.len() <= text.len() {
        if occurs_at(text, pattern, from) {
            lemma_occurrences_are_matches(text, pattern, from + step_after(pattern));
        } else {
            lemma_occurrences_are_matches(text, pattern, from + 1);
            if exists|at: int| from <= at && occurs_at(text, pattern, at) {
                let at = choose|at: int| from <= at && occurs_at(text, pattern, at);
                assert(from + 1 <= at && occurs_at(text, pattern, at));
            }
        }
    }
}

/// A text holds a pattern exactly if the search finds an occurrence.
pub proof fn lemma_contains_iff_found(text: Seq<char>, pattern: Seq<char>)
    ensures
        contains_pattern(text, pattern) <==> occurrences_from(text, pattern, 0).len() > 0,
{
    lemma_occurrences_are_matches(text, pattern, 0);
    if contains_pattern(text, pattern) {
        let at = choose|at: int| occurs_at(text, pattern, at);
        assert(0 <= at && occurs_at(text, pattern, at));
    }
}

/// The open that is pending once the line under `open` has been visited,
/// if that line leaves its own open pending.
pub open spec fn pending_at(
    partials: Map<usize, FNLine>,
    kind: FNRangedElementType,
    open: usize,
) -> FNPendingOpen {
    FNPendingOpen {
        global_index: open,
        local_index: last_local_offset(partials[open]@.raw_string, kind.open_pattern()),
    }
}

/// While only untagged lines and further orphaned opens follow a pending
/// open, it stays pending and no range is added.
proof fn lemma_open_stays_pending(
    partials: Map<usize, FNLine>,
    kind: FNRangedElementType,
    open: usize,
    upto: int,
)
    requires
        open < upto <= usize::MAX + 1,
        assembly_upto(partials, kind, open + 1).pending == Some(pending_at(partials, kind, open)),
        forall|k: usize|
            open < k < upto ==> #[trigger] tag_at(partials, kind, k) is None || tag_at(
                partials,
                kind,
                k,
            ) == Some(FNPartialLineType::OrphanedOpen),
    ensures
        assembly_upto(partials, kind, upto) == (FNRangeAssembly {
            ranges: assembly_upto(partials, kind, open + 1).ranges,
            pending: Some(pending_at(partials, kind, open)),
        }),
    decreases upto,
{
    if upto > open + 1 {
        lemma_open_stays_pending(partials, kind, open, upto - 1);
        let index = (upto - 1) as usize;
        assert(tag_at(partials, kind, index) is None || tag_at(partials, kind, index) == Some(
            FNPartialLineType::OrphanedOpen,
        ));
    }
}

/// An orphaned open pairs with the nearest orphaned close behind it: if
/// no open is pending when the open is reached, and only untagged lines
/// and further orphaned opens stand between the two, the assembler adds
/// exactly the range from the last open delimiter of the one line to the
/// first close delimiter of the other.
pub proof fn lemma_open_pairs_with_next_close(
    partials: Map<usize, FNLine>,
    kind: FNRangedElementType,
    open: usize,
    close: usize,
)
    requires
        open < close,
        opens_range(tag_at(partials, kind, open)),
        assembly_upto(partials, kind, open as int).pending is None,
        closes_range(tag_at(partials, kind, close)),
        forall|k: usize|
            open < k < close ==> #[trigger] tag_at(partials, kind, k) is None || tag_at(
                partials,
                kind,
                k,
            ) == Some(FNPartialLineType::OrphanedOpen),
    ensures
        assembly_upto(partials, kind, close + 1).ranges == assembly_upto(
            partials,
            kind,
            open as int,
        ).ranges.push(
            range_between(
                pending_at(partials, kind, open),
                close,
                first_local_offset(partials[close]@.raw_string, kind.close_pattern()),
            ),
        ),
{
    let at_open = assembly_upto(partials, kind, open + 1);
    assert(at_open.ranges == assembly_upto(partials, kind, open as int).ranges);
    assert(at_open.pending == Some(pending_at(partials, kind, open)));
    lemma_open_stays_pending(partials, kind, open, close as int);
}

/// An orphaned open on the first line and an orphaned close on the second
/// make exactly one range, which spans the two lines.
pub proof fn lemma_two_lines_make_one_range(
    partials: Map<usize, FNLine>,
    kind: FNRangedElementType,
)
    requires
        tag_at(partials, kind, 0) == Some(FNPartialLineType::OrphanedOpen),
        tag_at(partials, kind, 1) == Some(FNPartialLineType::OrphanedClose),
    ensures
        assembly_upto(partials, kind, 2).ranges == seq![
            range_between(
                pending_at(partials, kind, 0),
                1,
                first_local_offset(partials[1]@.raw_string, kind.close_pattern()),
            ),
        ],
{
    reveal_with_fuel(assembly_upto, 3);
    lemma_open_pairs_with_next_close(partials, kind, 0, 1);
    assert(assembly_upto(partials, kind, 0).ranges =~= Seq::empty());
    assert(assembly_upto(partials, kind, 2).ranges =~= seq![
        range_between(
            pending_at(partials, kind, 0),
            1,
            first_local_offset(partials[1]@.raw_string, kind.close_pattern()),
        ),
    ]);
}

/// The lines of a partial-line map are lines of the document that hold a
/// delimiter of the kind, and each carries its tag.
pub proof fn lemma_partial_lines_hold_delimiters(
    partials: Map<usize, FNLine>,
    lines: Seq<FNLineView>,
    kind: FNRangedElementType,
    i: usize,
)
    requires
        holds_partial_lines(partials, lines, kind),
        partials.dom().contains(i),
    ensures
        i < lines.len(),
        holds_delimiter(lines[i as int].raw_string, kind),
        partials[i]@.partial_tag(kind) == partial_type_of_kind(lines[i as int].raw_string, kind),
        partials[i]@.partial_tag(kind) is Some,
        partials[i]@.raw_string == lines[i as int].raw_string,
{
    assert(partial_type_of_kind(lines[i as int].raw_string, kind) is Some);
    lemma_partial_type_needs_delimiter(
        lines[i as int].raw_string,
        kind.open_pattern(),
        kind.close_pattern(),
        local_offsets(lines[i as int].raw_string, kind.open_pattern()),
        local_offsets(lines[i as int].raw_string, kind.close_pattern()),
    );
}

} // verus!
