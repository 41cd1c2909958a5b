//! Text primitives: the Unicode operations the parser relies on, and
//! verified helpers on sequences of characters.

use unicode_segmentation::UnicodeSegmentation;
use vstd::prelude::*;

verus! {

/// The extended grapheme clusters of `text`, in order, as computed by
/// `unicode_segmentation`.
pub uninterp spec fn grapheme_clusters(text: Seq<char>) -> Seq<Seq<char>>;

/// The upper-case form of `text` as computed by `str::to_uppercase`.
pub uninterp spec fn uppercase_of(text: Seq<char>) -> Seq<char>;

/// The lower-case form of `text` as computed by `str::to_lowercase`.
pub uninterp spec fn lowercase_of(text: Seq<char>) -> Seq<char>;

/// Whether `c` has the Unicode `White_Space` property, as decided by
/// `char::is_whitespace`.
pub uninterp spec fn is_whitespace_char(c: char) -> bool;

/// The number of bytes `text` takes in UTF-8.
pub open spec fn byte_len(text: Seq<char>) -> nat {
    vstd::utf8::encode_utf8(text).len()
}

/// Whether cluster `i` of `clusters` exists and is the single character `c`.
pub open spec fn cluster_is(clusters: Seq<Seq<char>>, i: int, c: char) -> bool {
    0 <= i < clusters.len() && clusters[i] == seq![c]
}

/// The texts held by a vector of character vectors.
pub open spec fn seqs_of(texts: Seq<Vec<char>>) -> Seq<Seq<char>> {
    Seq::new(texts.len(), |i: int| texts[i]@)
}

/// The concatenation of all sequences in `parts`.
pub open spec fn concat_all(parts: Seq<Seq<char>>) -> Seq<char>
    decreases parts.len(),
{
    if parts.len() == 0 {
        Seq::empty()
    } else {
        concat_all(parts.drop_last()) + parts.last()
    }
}

/// Calls `UnicodeSegmentation::graphemes` with extended clusters enabled.
///
/// Trusted: the result is the named segmentation of the text; the clusters
/// are non-empty and, joined in order, give back the text.
#[verifier::external_body]
pub(crate) fn graphemes(text: &str) -> (clusters: Vec<Vec<char>>)
    ensures
        seqs_of(clusters@) == grapheme_clusters(text@),
        concat_all(seqs_of(clusters@)) == text@,
        forall|i: int| 0 <= i < clusters.len() ==> (#[trigger] clusters[i]).len() > 0,
{
    text.graphemes(true).map(|g| g.chars().collect()).collect()
}

/// Calls `str::to_uppercase`.
///
/// Trusted: the result is the named upper-case form of the text.
#[verifier::external_body]
pub(crate) fn to_uppercase(text: &str) -> (upper: String)
    ensures
        upper@ == uppercase_of(text@),
{
    text.to_uppercase()
}

/// Calls `str::to_lowercase`.
///
/// Trusted: the result is the named lower-case form of the text.
#[verifier::external_body]
pub(crate) fn to_lowercase(text: &str) -> (lower: String)
    ensures
        lower@ == lowercase_of(text@),
{
    text.to_lowercase()
}

/// Calls `char::is_whitespace`.
///
/// Trusted: the result is the named whitespace property of the character.
#[verifier::external_body]
pub(crate) fn is_whitespace(c: char) -> (white: bool)
    ensures
        white == is_whitespace_char(c),
{
    c.is_whitespace()
}

/// Calls `String::from_iter` on the characters.
///
/// Trusted: the string built holds exactly the characters given, in order.
#[verifier::external_body]
pub(crate) fn string_from_chars(chars: Vec<char>) -> (text: String)
    ensures
        text@ == chars@,
{
    String::from_iter(chars)
}

/// Whether cluster `i` of `clusters` exists and is the single character `c`.
pub fn cluster_equals(clusters: &Vec<Vec<char>>, i: usize, c: char) -> (equal: bool)
    ensures
        equal == cluster_is(seqs_of(clusters@), i as int, c),
{
    if i < clusters.len() {
        let cluster = &clusters[i];
        if cluster.len() == 1 && cluster[0] == c {
            assert(cluster@ =~= seq![c]);
            true
        } else {
            assert(cluster@ != seq![c]) by {
                if cluster@ == seq![c] {
                    assert(seq![c].len() == 1);
                    assert(seq![c][0] == c);
                }
            }
            false
        }
    } else {
        false
    }
}

/// The number of bytes `text` takes in UTF-8.
pub fn byte_length(text: &str) -> (count: usize)
    ensures
        count == byte_len(text@),
{
    text.as_bytes().len()
}

/// The characters of `text`, in order.
pub fn chars_of(text: &str) -> (chars: Vec<char>)
    ensures
        chars@ == text@,
{
    let mut chars: Vec<char> = Vec::new();
    for c in it: text.chars()
        invariant
            chars@ == it.seq().take(it.index() as int),
    {
        chars.push(c);
    }
    chars
}

/// Whether `pattern` stands in `text` at offset `at`.
pub open spec fn occurs_at(text: Seq<char>, pattern: Seq<char>, at: int) -> bool {
    0 <= at && at + pattern.len() <= text.len() && text.subrange(at, at + pattern.len())
        == pattern
}

/// Whether `text` begins with `pattern`.
pub open spec fn starts_with(text: Seq<char>, pattern: Seq<char>) -> bool {
    occurs_at(text, pattern, 0)
}

/// Whether `text` ends with `pattern`.
pub open spec fn ends_with(text: Seq<char>, pattern: Seq<char>) -> bool {
    occurs_at(text, pattern, text.len() - pattern.len())
}

/// The offset of the first `c` in `text` at or after `from`, or the length
/// of `text` if there is none.
pub open spec fn first_index_from(text: Seq<char>, c: char, from: int) -> int
    decreases text.len() - from,
{
    if from < 0 || from >= text.len() {
        text.len() as int
    } else if text[from] == c {
        from
    } else {
        first_index_from(text, c, from + 1)
    }
}

/// The offset of the first `c` in `text`, or the length of `text` if it
/// holds none.
pub open spec fn first_index_of(text: Seq<char>, c: char) -> int {
    first_index_from(text, c, 0)
}

/// Whether every character of `text` is whitespace.
pub open spec fn all_whitespace(text: Seq<char>) -> bool {
    forall|i: int| 0 <= i < text.len() ==> is_whitespace_char(#[trigger] text[i])
}

/// The first offset of `c` is within bounds, nothing before it is `c`, and
/// it points at `c` unless `text` holds none.
pub proof fn lemma_first_index_from(text: Seq<char>, c: char, from: int)
    requires
        0 <= from <= text.len(),
    ensures
        from <= first_index_from(text, c, from) <= text.len(),
        forall|j: int| from <= j < first_index_from(text, c, from) ==> text[j] != c,
        first_index_from(text, c, from) < text.len() ==> text[first_index_from(text, c, from)]
            == c,
    decreases text.len() - from,
{
    if from < text.len() && text[from] != c {
        lemma_first_index_from(text, c, from + 1);
    }
}

/// A text has at most as many clusters as characters, if no cluster is
/// empty.
pub proof fn lemma_cluster_count(clusters: Seq<Seq<char>>)
    requires
        forall|i: int| 0 <= i < clusters.len() ==> (#[trigger] clusters[i]).len() > 0,
    ensures
        clusters.len() <= concat_all(clusters).len(),
    decreases clusters.len(),
{
    if clusters.len() > 0 {
        lemma_cluster_count(clusters.drop_last());
    }
}

/// The characters of `text` from offset `start` up to offset `end`.
pub fn slice_of(text: &Vec<char>, start: usize, end: usize) -> (part: Vec<char>)
    requires
        start <= end <= text.len(),
    ensures
        part@ == text@.subrange(start as int, end as int),
{
    let mut part: Vec<char> = Vec::new();
    let mut i: usize = start;
    while i < end
        invariant
            start <= i <= end <= text.len(),
            part@ == text@.subrange(start as int, i as int),
        decreases end - i,
    {
        part.push(text[i]);
        assert(text@.subrange(start as int, i + 1) =~= text@.subrange(start as int, i as int).push(
            text[i as int],
        ));
        i += 1;
    }
    part
}

/// The offset of the first `c` in `text` at or after `from`, or the length
/// of `text` if there is none.
pub fn find_char_from(text: &Vec<char>, c: char, from: usize) -> (at: usize)
    requires
        from <= text.len(),
    ensures
        at == first_index_from(text@, c, from as int),
        from <= at <= text.len(),
{
    let mut i: usize = from;
    while i < text.len() && text[i] != c
        invariant
            from <= i <= text.len(),
            first_index_from(text@, c, from as int) == first_index_from(text@, c, i as int),
        decreases text.len() - i,
    {
        i += 1;
    }
    i
}

/// Whether two texts hold the same characters.
pub fn same_chars(a: &Vec<char>, b: &Vec<char>) -> (same: bool)
    ensures
        same == (a@ == b@),
{
    if a.len() != b.len() {
        return false;
    }
    let mut i: usize = 0;
    while i < a.len()
        invariant
            i <= a.len(),
            a.len() == b.len(),
            forall|j: int| 0 <= j < i ==> a[j] == b[j],
        decreases a.len() - i,
    {
        if a[i] != b[i] {
            return false;
        }
        i += 1;
    }
    assert(a@ =~= b@);
    true
}

/// Whether `pattern` stands in `text` at offset `at`.
pub fn matches_at(text: &Vec<char>, pattern: &Vec<char>, at: usize) -> (found: bool)
    ensures
        found == occurs_at(text@, pattern@, at as int),
{
    if at > text.len() || pattern.len() > text.len() - at {
        return false;
    }
    let ghost window = text@.subrange(at as int, at + pattern.len());
    let mut i: usize = 0;
    while i < pattern.len()
        invariant
            i <= pattern.len(),
            at + pattern.len() <= text.len(),
            window == text@.subrange(at as int, at + pattern.len()),
            forall|j: int| 0 <= j < i ==> window[j] == pattern[j],
        decreases pattern.len() - i,
    {
        if text[at + i] != pattern[i] {
            assert(window[i as int] != pattern[i as int]);
            return false;
        }
        i += 1;
    }
    assert(window =~= pattern@);
    true
}

/// Whether `text` ends with `pattern`.
pub fn has_suffix(text: &Vec<char>, pattern: &Vec<char>) -> (found: bool)
    ensures
        found == ends_with(text@, pattern@),
{
    if pattern.len() > text.len() {
        return false;
    }
    matches_at(text, pattern, text.len() - pattern.len())
}

/// The offset of the first `c` in `text`, or the length of `text` if it
/// holds none.
pub fn find_char(text: &Vec<char>, c: char) -> (at: usize)
    ensures
        at == first_index_of(text@, c),
{
    let mut i: usize = 0;
    while i < text.len() && text[i] != c
        invariant
            i <= text.len(),
            first_index_of(text@, c) == first_index_from(text@, c, i as int),
        decreases text.len() - i,
    {
        i += 1;
    }
    i
}

/// Whether every character of `text` is whitespace.
pub fn is_blank(text: &Vec<char>) -> (blank: bool)
    ensures
        blank == all_whitespace(text@),
{
    let mut i: usize = 0;
    while i < text.len()
        invariant
            i <= text.len(),
            forall|j: int| 0 <= j < i ==> is_whitespace_char(#[trigger] text[j]),
        decreases text.len() - i,
    {
        if !is_whitespace(text[i]) {
            return false;
        }
        i += 1;
    }
    true
}

/// The first `end` characters of `text`.
pub fn prefix_of(text: &Vec<char>, end: usize) -> (prefix: Vec<char>)
    requires
        end <= text.len(),
    ensures
        prefix@ == text@.take(end as int),
{
    let mut prefix: Vec<char> = Vec::new();
    let mut i: usize = 0;
    while i < end
        invariant
            i <= end <= text.len(),
            prefix@ == text@.take(i as int),
        decreases end - i,
    {
        prefix.push(text[i]);
        assert(text@.take(i + 1) =~= text@.take(i as int).push(text[i as int]));
        i += 1;
    }
    prefix
}

} // verus!
