use fountain_parser::fountain_enums::FNLineType;
use fountain_parser::fountain_line::FNLine;
use fountain_parser::static_fountain_parser::{
    _check_if_character, _check_if_dialogue_or_parenthetical, _check_if_dual_dialogue,
    _check_if_empty_line, _check_if_forced_element, _check_if_heading,
    _check_if_title_page_element, _check_if_transition, get_parsed_lines_from_line_vec,
    get_parsed_lines_from_raw_string, get_unparsed_line_array_from_raw_string, is_forced_line,
    line_type_of, parse_line_type_for, shape_of, title_page_type_for_key, FNLineShape,
    FNPreviousLine,
};

fn types_of(document: &str) -> Vec<FNLineType> {
    get_parsed_lines_from_raw_string(document.to_string())
        .iter()
        .map(|line| line.fn_type)
        .collect()
}

fn shape(text: &str, uppercase: bool, heading_prefix: &str, title_key: &str) -> FNLineShape {
    let cue: String = text.split('(').next().unwrap_or("").to_string();
    FNLineShape {
        chars: text.chars().collect(),
        byte_len: text.len(),
        clusters: text.chars().map(|c| vec![c]).collect(),
        blank: text.chars().all(|c| c == ' ' || c == '\t'),
        uppercase,
        cue_uppercase: uppercase && !cue.is_empty(),
        heading_prefix: heading_prefix.chars().collect(),
        title_key: title_key.chars().collect(),
    }
}

fn after(fn_type: FNLineType) -> Option<FNPreviousLine> {
    Some(FNPreviousLine { fn_type, has_text: fn_type != FNLineType::Empty, has_title_key: false })
}

#[test]
fn heading_after_empty_line() {
    assert_eq!(types_of("\nINT. HOUSE - DAY"), vec![FNLineType::Empty, FNLineType::Heading]);
}

#[test]
fn heading_at_start_of_document() {
    assert_eq!(types_of("EXT. BEACH - NIGHT"), vec![FNLineType::Heading]);
    assert_eq!(types_of("int. house - day"), vec![FNLineType::Heading]);
    assert_eq!(types_of("I/E. CAR - DAY"), vec![FNLineType::Heading]);
}

#[test]
fn heading_needs_separator_after_prefix() {
    // The cluster right after the prefix decides: a dot, a space or a slash.
    assert_eq!(types_of("\nEXT.HOUSE - DAY")[1], FNLineType::Heading);
    assert_eq!(types_of("\nEXT BEACH")[1], FNLineType::Heading);
    assert_eq!(types_of("\nINT/EXT. HOUSE")[1], FNLineType::Heading);
    assert_eq!(types_of("\nInt house")[1], FNLineType::Heading);
    assert_eq!(types_of("\nEST./x")[1], FNLineType::Heading);
    assert_eq!(types_of("\ni/e car")[1], FNLineType::Heading);
    // A letter after the prefix makes an ordinary word of it.
    assert_ne!(types_of("\nInto the woods")[1], FNLineType::Heading);
    assert_ne!(types_of("\nExtra. Scene")[1], FNLineType::Heading);
    assert_ne!(types_of("\nEsta. casa")[1], FNLineType::Heading);
    // The prefix alone is no heading, nor is it one after text.
    assert_ne!(types_of("\nint")[1], FNLineType::Heading);
    assert_ne!(types_of("text\nINT. HOUSE")[1], FNLineType::Heading);
    // The separator is a cluster: a dot with an accent on it is none.
    assert_ne!(types_of("\nint.\u{301} house")[1], FNLineType::Heading);
}

#[test]
fn international_is_not_a_heading() {
    let types = types_of("\nINTERNATIONAL\n\nnext");
    assert_ne!(types[1], FNLineType::Heading);
    assert_eq!(types[1], FNLineType::Action);
    let types = types_of("\nInternational waters");
    assert_eq!(types, vec![FNLineType::Empty, FNLineType::Action]);
    // With nothing behind it the upper-case word is a character cue.
    assert_eq!(types_of("\nINTERNATIONAL"), vec![FNLineType::Empty, FNLineType::Character]);
}

#[test]
fn character_then_dialogue() {
    assert_eq!(
        types_of("\nJOHN\nHello."),
        vec![FNLineType::Empty, FNLineType::Character, FNLineType::Dialogue]
    );
}

#[test]
fn character_before_empty_line_becomes_action() {
    assert_eq!(
        types_of("\nJOHN\n\n"),
        vec![FNLineType::Empty, FNLineType::Action, FNLineType::Empty]
    );
    assert_eq!(
        types_of("\nJOHN\n\nMARY\nHi."),
        vec![
            FNLineType::Empty,
            FNLineType::Action,
            FNLineType::Empty,
            FNLineType::Character,
            FNLineType::Dialogue
        ]
    );
}

#[test]
fn character_at_end_of_document_stays() {
    assert_eq!(types_of("\nJOHN"), vec![FNLineType::Empty, FNLineType::Character]);
}

#[test]
fn transition_after_empty_line() {
    assert_eq!(types_of("\nCUT TO:"), vec![FNLineType::Empty, FNLineType::TransitionLine]);
    assert_eq!(types_of("CUT TO:"), vec![FNLineType::TransitionLine]);
}

#[test]
fn transition_needs_upper_case() {
    assert_eq!(types_of("\ncut to:"), vec![FNLineType::Empty, FNLineType::Action]);
}

#[test]
fn transition_needs_empty_line_before() {
    assert_eq!(
        types_of("Some action.\nCUT TO:"),
        vec![FNLineType::Action, FNLineType::Action]
    );
}

#[test]
fn upper_case_line_after_text_is_action() {
    assert_eq!(types_of("He runs.\nBANG"), vec![FNLineType::Action, FNLineType::Action]);
    assert_eq!(types_of("He runs.\nBANG ^"), vec![FNLineType::Action, FNLineType::Action]);
}

#[test]
fn forced_elements() {
    assert_eq!(types_of("!!CLOSE UP"), vec![FNLineType::Shot]);
    assert_eq!(types_of("!Bang"), vec![FNLineType::Action]);
    assert_eq!(types_of("!"), vec![FNLineType::Action]);
    assert_eq!(types_of(".INSIDE"), vec![FNLineType::Heading]);
    assert_eq!(types_of(">THE END<"), vec![FNLineType::Centered]);
    assert_eq!(types_of(">FADE OUT"), vec![FNLineType::TransitionLine]);
    assert_eq!(types_of("~la la la"), vec![FNLineType::Lyrics]);
    assert_eq!(types_of("= a synopsis"), vec![FNLineType::Synopse]);
    assert_eq!(types_of("==="), vec![FNLineType::PageBreak]);
    assert_eq!(types_of("# Act one"), vec![FNLineType::Section]);
    assert_eq!(types_of("@john"), vec![FNLineType::Character]);
    assert_eq!(types_of("@john ^"), vec![FNLineType::DualDialogueCharacter]);
}

#[test]
fn forced_heading_after_text() {
    assert_eq!(types_of("text\n.INSIDE"), vec![FNLineType::Action, FNLineType::Heading]);
    assert_eq!(types_of("text\n."), vec![FNLineType::Action, FNLineType::Heading]);
    // Two dots open an ellipsis, not a heading.
    assert_eq!(types_of("text\n..and then"), vec![FNLineType::Action, FNLineType::Action]);
}

#[test]
fn forced_character_after_text_is_not_dual() {
    assert_eq!(types_of("text\n@john ^"), vec![FNLineType::Action, FNLineType::Character]);
}

#[test]
fn forced_flag_is_set_by_markers_only() {
    let lines = get_parsed_lines_from_raw_string("!Bang\n\nJOHN\nHi.\n===\n ".to_string());
    let forced: Vec<bool> = lines.iter().map(|line| line.is_forced).collect();
    assert_eq!(forced, vec![true, false, false, false, true, false]);
}

#[test]
fn whitespace_lines() {
    // One space is an empty line.
    assert_eq!(types_of("text\n \nmore"), vec![
        FNLineType::Action,
        FNLineType::Empty,
        FNLineType::Action
    ]);
    // Two spaces keep a dialogue going.
    assert_eq!(
        types_of("\nJOHN\nHi.\n  \nMore."),
        vec![
            FNLineType::Empty,
            FNLineType::Character,
            FNLineType::Dialogue,
            FNLineType::Dialogue,
            FNLineType::Dialogue
        ]
    );
    // A tab alone is an empty line.
    assert_eq!(types_of("text\n\t"), vec![FNLineType::Action, FNLineType::Empty]);
}

#[test]
fn whitespace_alone_is_no_character_cue() {
    // Three spaces after an empty line fall through to action.
    assert_eq!(types_of("\n   "), vec![FNLineType::Empty, FNLineType::Action]);
    assert_eq!(types_of("   "), vec![FNLineType::Action]);
    assert_eq!(types_of("\n \t \nnext"), vec![
        FNLineType::Empty,
        FNLineType::Action,
        FNLineType::Action
    ]);
    // After a title page line, indented whitespace goes on with that line.
    assert_eq!(types_of("Title: x\n    "), vec![
        FNLineType::TitlePageTitle,
        FNLineType::TitlePageTitle
    ]);
}

#[test]
fn leading_spaces_and_character_cues() {
    // Exactly two leading spaces: no character cue.
    assert_eq!(types_of("\n  JOHN"), vec![FNLineType::Empty, FNLineType::Action]);
    // One leading space does not stand in the way.
    assert_eq!(types_of("\n JOHN"), vec![FNLineType::Empty, FNLineType::Character]);
    // Nor do three.
    assert_eq!(types_of("\n   JOHN"), vec![FNLineType::Empty, FNLineType::Character]);
}

#[test]
fn title_page() {
    let types = types_of(
        "Title: My Script\nAuthor: Me\n\tand my friend\nDraft date: 1/1/2000\n\
         Notes: none\n\nINT. ROOM - DAY",
    );
    assert_eq!(
        types,
        vec![
            FNLineType::TitlePageTitle,
            FNLineType::TitlePageAuthor,
            FNLineType::TitlePageAuthor,
            FNLineType::TitlePageDraftDate,
            FNLineType::TitlePageUnknown,
            FNLineType::Empty,
            FNLineType::Heading,
        ]
    );
}

#[test]
fn title_page_keys() {
    let key = |word: &str| title_page_type_for_key(&word.chars().collect());
    assert_eq!(key("title"), FNLineType::TitlePageTitle);
    assert_eq!(key("author"), FNLineType::TitlePageAuthor);
    assert_eq!(key("authors"), FNLineType::TitlePageAuthor);
    assert_eq!(key("credit"), FNLineType::TitlePageCredit);
    assert_eq!(key("source"), FNLineType::TitlePageSource);
    assert_eq!(key("contact"), FNLineType::TitlePageContact);
    assert_eq!(key("contacts"), FNLineType::TitlePageContact);
    assert_eq!(key("contact info"), FNLineType::TitlePageContact);
    assert_eq!(key("draft date"), FNLineType::TitlePageDraftDate);
    assert_eq!(key("draft"), FNLineType::TitlePageDraftDate);
    assert_eq!(key("copyright"), FNLineType::TitlePageUnknown);
    assert_eq!(key("Title"), FNLineType::TitlePageUnknown);
}

#[test]
fn title_page_continuation_by_indent() {
    let types = types_of("Contact:\n   12 Road\n   Town");
    assert_eq!(
        types,
        vec![
            FNLineType::TitlePageContact,
            FNLineType::TitlePageContact,
            FNLineType::TitlePageContact
        ]
    );
}

#[test]
fn dual_dialogue() {
    let types = types_of("\nJOHN\nHi.\n\nMARY ^\n(whispers)\nHello.");
    assert_eq!(
        types,
        vec![
            FNLineType::Empty,
            FNLineType::Character,
            FNLineType::Dialogue,
            FNLineType::Empty,
            FNLineType::DualDialogueCharacter,
            FNLineType::DualDialogueParenthetical,
            FNLineType::DualDialogue,
        ]
    );
}

#[test]
fn parenthetical_in_dialogue() {
    let types = types_of("\nJOHN (V.O.)\n(quietly)\nHello.\nAnd more.");
    assert_eq!(
        types,
        vec![
            FNLineType::Empty,
            FNLineType::Character,
            FNLineType::Parenthetical,
            FNLineType::Dialogue,
            FNLineType::Dialogue,
        ]
    );
}

#[test]
fn classification_is_idempotent() {
    let document = "Title: T\n\nINT. HOUSE - DAY\n\nJOHN\nHello.\n\nMARY\n\nCUT TO:\n\n!!SHOT";
    let once = get_parsed_lines_from_raw_string(document.to_string());
    let twice = get_parsed_lines_from_line_vec(once.clone());
    assert_eq!(once, twice);
    let raw: Vec<String> = once.iter().map(|line| line.raw_string.clone()).collect();
    let again = get_parsed_lines_from_raw_string(raw.join("\n"));
    assert_eq!(once, again);
}

#[test]
fn types_given_before_the_pass_are_not_read() {
    let mut lines = get_unparsed_line_array_from_raw_string(Some("\nJOHN\nHello.".to_string()));
    lines[0].fn_type = FNLineType::Dialogue;
    lines[1].fn_type = FNLineType::Heading;
    let types: Vec<FNLineType> =
        get_parsed_lines_from_line_vec(lines).iter().map(|line| line.fn_type).collect();
    assert_eq!(types, vec![FNLineType::Empty, FNLineType::Character, FNLineType::Dialogue]);
}

#[test]
fn pass_keeps_everything_but_type_and_forced_flag() {
    let mut lines = get_unparsed_line_array_from_raw_string(Some("a\n!b".to_string()));
    lines[1].color = "red".to_string();
    lines[1].section_depth = 3;
    let parsed = get_parsed_lines_from_line_vec(lines.clone());
    assert_eq!(parsed.len(), 2);
    assert_eq!(parsed[1].color, "red");
    assert_eq!(parsed[1].section_depth, 3);
    assert_eq!(parsed[1].position, lines[1].position);
    assert_eq!(parsed[1].string, "!b");
    assert_eq!(parsed[1].raw_string, "!b");
    assert!(parsed[1].is_forced);
}

#[test]
fn one_line_in_context() {
    let mut lines = get_unparsed_line_array_from_raw_string(Some("x\nJOHN\n(".to_string()));
    lines[0].fn_type = FNLineType::Empty;
    assert_eq!(parse_line_type_for(&lines, 1), FNLineType::Character);
    lines[0].fn_type = FNLineType::Action;
    assert_eq!(parse_line_type_for(&lines, 1), FNLineType::Action);
    lines[1].fn_type = FNLineType::Character;
    assert_eq!(parse_line_type_for(&lines, 2), FNLineType::Parenthetical);
    // A line beyond the end counts as a line without text.
    assert_eq!(parse_line_type_for(&lines, 3), FNLineType::Empty);
    assert_eq!(parse_line_type_for(&lines, 7), FNLineType::Empty);
    assert_eq!(parse_line_type_for(&Vec::new(), 0), FNLineType::Empty);
}

#[test]
fn shape_of_a_line() {
    let shape = shape_of(&"Int. Caf\u{e9} (night): x".to_string());
    assert_eq!(shape.chars.len(), 20);
    assert_eq!(shape.byte_len, 21);
    assert_eq!(shape.clusters.len(), 20);
    assert!(!shape.blank);
    assert!(!shape.uppercase);
    assert!(!shape.cue_uppercase);
    assert_eq!(shape.heading_prefix, vec!['i', 'n', 't']);
    assert_eq!(shape.title_key, "int. caf\u{e9} (night)".chars().collect::<Vec<char>>());
    let shape = shape_of(&"JOHN (cont'd)".to_string());
    assert!(!shape.uppercase);
    assert!(shape.cue_uppercase);
    let shape = shape_of(&" \t ".to_string());
    assert!(shape.blank);
    // A letter with a combining accent is one cluster of two characters.
    let shape = shape_of(&"e\u{301}x".to_string());
    assert_eq!(shape.clusters, vec![vec!['e', '\u{301}'], vec!['x']]);
    let shape = shape_of(&String::new());
    assert!(shape.clusters.is_empty());
    assert!(shape.blank);
}

#[test]
fn rules_on_given_shapes() {
    let empty = shape("", true, "", "");
    assert_eq!(_check_if_empty_line(&empty), Some(FNLineType::Empty));
    assert_eq!(_check_if_forced_element(&empty, true), None);
    let cut = shape("CUT TO:", true, "cut", "");
    assert_eq!(_check_if_empty_line(&cut), None);
    assert_eq!(_check_if_transition(&cut, true), Some(FNLineType::TransitionLine));
    assert_eq!(_check_if_transition(&cut, false), None);
    assert_eq!(_check_if_transition(&shape("Cut to:", false, "cut", ""), true), None);
    assert_eq!(_check_if_transition(&shape("A:", true, "a:", ""), true), None);
    let heading = shape("INT. HOUSE", true, "int", "");
    assert_eq!(_check_if_heading(&heading, true), Some(FNLineType::Heading));
    assert_eq!(_check_if_heading(&heading, false), None);
    let tight = shape("EXT.HOUSE - DAY", true, "ext", "");
    assert_eq!(_check_if_heading(&tight, true), Some(FNLineType::Heading));
    assert_eq!(_check_if_heading(&shape("EXT BEACH", true, "ext", ""), true), Some(
        FNLineType::Heading
    ));
    assert_eq!(_check_if_heading(&shape("INT/EXT. HOUSE", true, "int", ""), true), Some(
        FNLineType::Heading
    ));
    assert_eq!(_check_if_heading(&shape("INTO. HOUSE", true, "int", ""), true), None);
    assert_eq!(_check_if_heading(&shape("INT", true, "int", ""), true), None);
    assert_eq!(_check_if_heading(&shape("INTERNATIONAL", true, "int", ""), true), None);
    assert_eq!(_check_if_heading(&shape("ABC. HOUSE", true, "abc", ""), true), None);
    assert_eq!(_check_if_heading(&shape("EST./ROOM", true, "est", ""), true), Some(
        FNLineType::Heading
    ));
    assert_eq!(_check_if_heading(&shape("I/E../ROOM", true, "i/e", ""), true), Some(
        FNLineType::Heading
    ));
}

#[test]
fn forced_rule_on_given_shapes() {
    let forced = |text: &str, previous_empty: bool| {
        _check_if_forced_element(&shape(text, false, "", ""), previous_empty)
    };
    assert_eq!(forced(" ", true), Some(FNLineType::Empty));
    assert_eq!(forced("\t\t", true), Some(FNLineType::Empty));
    assert_eq!(forced("  ", true), None);
    assert_eq!(forced(" \t ", true), None);
    assert_eq!(forced("===", true), Some(FNLineType::PageBreak));
    assert_eq!(forced("====", true), Some(FNLineType::Synopse));
    assert_eq!(forced("!!", true), Some(FNLineType::Shot));
    assert_eq!(forced("!a", true), Some(FNLineType::Action));
    assert_eq!(forced(".a", false), Some(FNLineType::Heading));
    assert_eq!(forced(".", false), Some(FNLineType::Heading));
    assert_eq!(forced("..", false), None);
    assert_eq!(forced("..", true), Some(FNLineType::Heading));
    assert_eq!(forced(">a<", true), Some(FNLineType::Centered));
    assert_eq!(forced(">a", true), Some(FNLineType::TransitionLine));
    assert_eq!(forced("~a", true), Some(FNLineType::Lyrics));
    assert_eq!(forced("=a", true), Some(FNLineType::Synopse));
    assert_eq!(forced("#a", true), Some(FNLineType::Section));
    assert_eq!(forced("@a^", true), Some(FNLineType::DualDialogueCharacter));
    assert_eq!(forced("@a^", false), Some(FNLineType::Character));
    assert_eq!(forced("@a", true), Some(FNLineType::Character));
    assert_eq!(forced("a", true), None);
}

#[test]
fn title_page_rule_on_given_shapes() {
    let keyed = shape("Title: x", false, "tit", "title");
    let plain = shape("more", false, "mor", "");
    let indented = shape("   more", false, "   ", "");
    let title = Some(FNPreviousLine {
        fn_type: FNLineType::TitlePageTitle,
        has_text: true,
        has_title_key: true,
    });
    let continued = Some(FNPreviousLine {
        fn_type: FNLineType::TitlePageCredit,
        has_text: true,
        has_title_key: false,
    });
    assert_eq!(_check_if_title_page_element(&keyed, None), Some(FNLineType::TitlePageTitle));
    assert_eq!(_check_if_title_page_element(&plain, None), None);
    assert_eq!(_check_if_title_page_element(&keyed, after(FNLineType::Action)), None);
    assert_eq!(_check_if_title_page_element(&keyed, after(FNLineType::TitlePageUnknown)), None);
    assert_eq!(_check_if_title_page_element(&plain, title), Some(FNLineType::TitlePageTitle));
    assert_eq!(_check_if_title_page_element(&plain, continued), None);
    assert_eq!(
        _check_if_title_page_element(&indented, continued),
        Some(FNLineType::TitlePageCredit)
    );
    assert_eq!(
        _check_if_title_page_element(&shape("\tmore", false, "\tmo", ""), continued),
        Some(FNLineType::TitlePageCredit)
    );
}

#[test]
fn dialogue_rules_on_given_shapes() {
    let paren = shape("(low)", false, "(lo", "");
    let words = shape("words", false, "wor", "");
    assert_eq!(
        _check_if_dual_dialogue(&paren, after(FNLineType::DualDialogueCharacter)),
        Some(FNLineType::DualDialogueParenthetical)
    );
    assert_eq!(
        _check_if_dual_dialogue(&words, after(FNLineType::DualDialogue)),
        Some(FNLineType::DualDialogue)
    );
    assert_eq!(_check_if_dual_dialogue(&words, after(FNLineType::Dialogue)), None);
    assert_eq!(_check_if_dual_dialogue(&words, None), None);
    assert_eq!(
        _check_if_dialogue_or_parenthetical(&paren, after(FNLineType::Character)),
        Some(FNLineType::Parenthetical)
    );
    assert_eq!(
        _check_if_dialogue_or_parenthetical(&words, after(FNLineType::Parenthetical)),
        Some(FNLineType::Dialogue)
    );
    assert_eq!(
        _check_if_dialogue_or_parenthetical(&words, after(FNLineType::More)),
        Some(FNLineType::Dialogue)
    );
    let silent = Some(FNPreviousLine {
        fn_type: FNLineType::Dialogue,
        has_text: false,
        has_title_key: false,
    });
    assert_eq!(_check_if_dialogue_or_parenthetical(&words, silent), None);
    let silent = Some(FNPreviousLine {
        fn_type: FNLineType::Parenthetical,
        has_text: false,
        has_title_key: false,
    });
    assert_eq!(_check_if_dialogue_or_parenthetical(&paren, silent), Some(FNLineType::Dialogue));
    assert_eq!(_check_if_dialogue_or_parenthetical(&words, after(FNLineType::Action)), None);
    assert_eq!(_check_if_dialogue_or_parenthetical(&words, None), None);
}

#[test]
fn character_rule_on_given_shapes() {
    let cue = shape("JOHN", true, "joh", "");
    let dual = shape("JOHN ^", true, "joh", "");
    assert_eq!(_check_if_character(&cue, None), Some(FNLineType::Character));
    assert_eq!(_check_if_character(&cue, after(FNLineType::Empty)), Some(FNLineType::Character));
    assert_eq!(_check_if_character(&cue, after(FNLineType::Action)), Some(FNLineType::Action));
    assert_eq!(_check_if_character(&dual, None), Some(FNLineType::DualDialogueCharacter));
    assert_eq!(_check_if_character(&dual, after(FNLineType::Action)), Some(FNLineType::Action));
    assert_eq!(_check_if_character(&shape("John", false, "joh", ""), None), None);
    assert_eq!(_check_if_character(&shape("   ", true, "   ", ""), None), None);
    assert_eq!(_check_if_character(&shape(" \t ", true, " \t ", ""), None), None);
    assert_eq!(line_type_of(&shape("   ", true, "   ", ""), None), FNLineType::Action);
    assert_eq!(
        line_type_of(&shape("   ", true, "   ", ""), after(FNLineType::Empty)),
        FNLineType::Action
    );
    assert_eq!(_check_if_character(&shape("  JOHN", true, "  j", ""), None), None);
    assert_eq!(
        _check_if_character(&shape("   JOHN", true, "   ", ""), None),
        Some(FNLineType::Character)
    );
}

#[test]
fn first_rule_that_applies_decides() {
    // An upper-case line that ends in a colon is a transition before it is a cue.
    let cut = shape("CUT TO:", true, "cut", "");
    assert_eq!(line_type_of(&cut, None), FNLineType::TransitionLine);
    assert_eq!(line_type_of(&cut, after(FNLineType::Action)), FNLineType::Action);
    // A title page key wins over a transition.
    let keyed = shape("FADE IN:", true, "fad", "fade in");
    assert_eq!(line_type_of(&keyed, None), FNLineType::TitlePageUnknown);
    assert_eq!(line_type_of(&keyed, after(FNLineType::Empty)), FNLineType::TransitionLine);
    // A marker wins over everything but the empty line.
    let forced = shape("!INT. HOUSE", true, "!in", "");
    assert_eq!(line_type_of(&forced, None), FNLineType::Action);
    assert!(is_forced_line(&forced, None));
    assert!(!is_forced_line(&cut, None));
    assert!(!is_forced_line(&shape("", true, "", ""), None));
    assert!(!is_forced_line(&shape(" ", true, " ", ""), None));
    let plain = shape("He walks.", false, "he ", "");
    assert_eq!(line_type_of(&plain, None), FNLineType::Action);
    assert_eq!(line_type_of(&plain, after(FNLineType::Dialogue)), FNLineType::Dialogue);
}

#[test]
fn test_static_parser() {
    let text = "Title: Big Fish\nCredit: written by\nAuthor: John August\n\n\
        INT. HOUSE - DAY\n\nWill enters.\n\nWILL\n(smiling)\nHello.\n\nCUT TO:\n\n\
        EXT. RIVER - DAY\n\n> THE END <";
    let lines: Vec<FNLine> = get_parsed_lines_from_raw_string(text.to_string());
    for ln in &lines {
        println!("{:?}\t\t\t{}", ln.fn_type, ln.string);
    }
    let types: Vec<FNLineType> = lines.iter().map(|line| line.fn_type).collect();
    assert_eq!(
        types,
        vec![
            FNLineType::TitlePageTitle,
            FNLineType::TitlePageCredit,
            FNLineType::TitlePageAuthor,
            FNLineType::Empty,
            FNLineType::Heading,
            FNLineType::Empty,
            FNLineType::Action,
            FNLineType::Empty,
            FNLineType::Character,
            FNLineType::Parenthetical,
            FNLineType::Dialogue,
            FNLineType::Empty,
            FNLineType::TransitionLine,
            FNLineType::Empty,
            FNLineType::Heading,
            FNLineType::Empty,
            FNLineType::Centered,
        ]
    );
}
