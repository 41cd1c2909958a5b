use fountain_parser::fountain_enums::FNLineType;
use fountain_parser::fountain_line::FNLine;
use fountain_parser::static_fountain_parser::{
    get_unparsed_line_array_from_raw_string, normalized,
};
use unicode_segmentation::UnicodeSegmentation;

fn segment(document: &str) -> Vec<FNLine> {
    get_unparsed_line_array_from_raw_string(Some(document.to_string()))
}

fn texts(document: &str) -> Vec<String> {
    segment(document).iter().map(|line| line.string.clone()).collect()
}

#[test]
fn no_text_gives_no_lines() {
    assert!(get_unparsed_line_array_from_raw_string(None).is_empty());
    assert!(segment("").is_empty());
}

#[test]
fn one_line_per_physical_line() {
    assert_eq!(texts("abc"), vec!["abc"]);
    assert_eq!(texts("abc\n"), vec!["abc"]);
    assert_eq!(texts("\n"), vec![""]);
    assert_eq!(texts("\n\n"), vec!["", ""]);
    assert_eq!(texts("a\nb"), vec!["a", "b"]);
    assert_eq!(texts("a\n\nb\n"), vec!["a", "", "b"]);
    assert_eq!(texts("\na"), vec!["", "a"]);
}

#[test]
fn line_count_matches_std_lines() {
    for document in ["", "a", "a\n", "a\nb", "\n", "\n\n\n", "a\r\nb\r\n\r\nc", "x\n\ny\n\n"] {
        let fixed = document.replace("\r\n", "\n");
        assert_eq!(segment(document).len(), fixed.lines().count());
    }
}

#[test]
fn carriage_return_before_line_feed_is_dropped() {
    assert_eq!(texts("a\r\nb\r\n"), vec!["a", "b"]);
    assert_eq!(texts("a\r\n\r\nb"), vec!["a", "", "b"]);
    // A carriage return elsewhere stays.
    assert_eq!(texts("a\rb\nc\r"), vec!["a\rb", "c\r"]);
    assert_eq!(normalized(&"a\r\nb\r".chars().collect()), vec!['a', '\n', 'b', '\r']);
    assert_eq!(normalized(&"\r\r\n".chars().collect()), vec!['\r', '\n']);
    assert_eq!(normalized(&Vec::new()), Vec::<char>::new());
}

#[test]
fn lines_start_unparsed_with_raw_text() {
    let lines = segment("Hello [[note]]\nworld");
    assert_eq!(lines.len(), 2);
    for line in &lines {
        assert_eq!(line.fn_type, FNLineType::Unparsed);
        assert_eq!(line.string, line.raw_string);
        assert!(!line.is_forced);
        assert!(line.note_type.is_none());
        assert!(line.boneyard_type.is_none());
        assert!(line.bold_ranges.is_empty());
        assert_eq!(line.section_depth, 0);
        assert_eq!(line.scene_number, "");
    }
    assert_eq!(lines[0].raw_string, "Hello [[note]]");
    let mut expected = FNLine::default();
    expected.string = "world".to_string();
    expected.raw_string = "world".to_string();
    expected.position = 15;
    expected.length = 5;
    assert_eq!(lines[1], expected);
}

#[test]
fn positions_count_one_for_each_line_ending() {
    let lines = segment("a\r\nbc\n\ndef");
    let positions: Vec<usize> = lines.iter().map(|line| line.position).collect();
    let lengths: Vec<usize> = lines.iter().map(|line| line.length).collect();
    assert_eq!(positions, vec![0, 2, 5, 6]);
    assert_eq!(lengths, vec![1, 2, 0, 3]);
}

#[test]
fn positions_count_grapheme_clusters() {
    // "he\u{301}llo" has six characters and five clusters.
    let lines = segment("he\u{301}llo\n\u{1F1F7}\u{1F1FA}x\nend");
    let positions: Vec<usize> = lines.iter().map(|line| line.position).collect();
    let lengths: Vec<usize> = lines.iter().map(|line| line.length).collect();
    assert_eq!(lengths, vec![5, 2, 3]);
    assert_eq!(positions, vec![0, 6, 9]);
}

#[test]
fn offsets_increase_and_stay_within_the_document() {
    let document = "Title: x\r\n\r\nINT. CAFE\u{301} - DAY\n\nJOHN\nHello.\n";
    let lines = segment(document);
    let total = document.replace("\r\n", "\n").chars().count();
    for pair in lines.windows(2) {
        assert!(pair[0].position + pair[0].length < pair[1].position);
        assert_eq!(pair[0].position + pair[0].length + 1, pair[1].position);
    }
    let last = lines.last().unwrap();
    assert!(last.position + last.length <= total);
}

#[test]
fn last_line_ends_within_the_clusters_of_the_document() {
    let documents = [
        "a",
        "a\nb",
        "a\r\nb\r\n",
        "\r\r\nab",
        "a\rb\nc\r",
        "he\u{301}llo\n\u{301}x\n\u{1F1F7}\u{1F1FA}\n",
        "Title: x\r\n\r\nINT. CAFE\u{301} - DAY\n\nJOHN\nHello.\n",
        "\n\n\n",
    ];
    for document in documents {
        let lines = segment(document);
        let last = lines.last().unwrap();
        assert!(last.position + last.length <= document.graphemes(true).count());
        assert!(last.position + last.length <= document.chars().count());
        for line in &lines {
            assert_eq!(line.length, line.raw_string.graphemes(true).count());
        }
    }
}
