use sherlock_dictionary::model::{ApplicationAction, Definition, DefinitionResponse, Meaning};

fn plain_definition(text: &str) -> Definition {
    Definition {
        definition: String::from(text),
        example: None,
        synonyms: None,
        antonyms: None,
    }
}

fn entry_with_meanings(meanings: Vec<Meaning>) -> DefinitionResponse {
    DefinitionResponse {
        word: String::from("w"),
        phonetic: None,
        phonetics: Vec::new(),
        meanings,
        source_urls: None,
        origin: None,
    }
}

#[test]
fn to_vec_holds_all_present_fields_in_order() {
    let d = Definition {
        definition: String::from("the text"),
        example: Some(String::from("an example")),
        synonyms: Some(vec![String::from("a"), String::from("b")]),
        antonyms: Some(vec![String::from("c"), String::from("d")]),
    };
    assert_eq!(d.to_vec(), vec!["the text", "an example", "a, b", "c, d"]);
}

#[test]
fn to_vec_omits_absent_fields() {
    let d = plain_definition("only text");
    assert_eq!(d.to_vec(), vec!["only text"]);
}

#[test]
fn to_vec_keeps_empty_lists_as_empty_joins() {
    let d = Definition {
        definition: String::from("t"),
        example: None,
        synonyms: Some(Vec::new()),
        antonyms: None,
    };
    assert_eq!(d.to_vec(), vec!["t", ""]);
}

#[test]
fn from_definition_builds_the_copy_action() {
    let d = Definition {
        definition: String::from("clear (or plain), precise."),
        example: Some(String::from("quite clear")),
        synonyms: Some(vec![String::from("lucid")]),
        antonyms: None,
    };
    let a = ApplicationAction::from_definition(&d);
    assert_eq!(a.name.as_deref(), Some("clear "));
    assert_eq!(
        a.exec_payload.as_deref(),
        Some("clear (or plain), precise.\nquite clear\nlucid")
    );
    assert_eq!(a.icon.as_deref(), Some("edit-copy"));
    assert_eq!(a.method, "copy");
    assert!(a.exit);
}

#[test]
fn one_definition_entry_formats_exactly() {
    let text = "the occurrence of events by chance in a happy way";
    let entry = entry_with_meanings(vec![Meaning {
        part_of_speech: String::from("noun"),
        definitions: vec![plain_definition(text)],
        synonyms: None,
        antonyms: None,
    }]);
    let (content, actions) = entry.format_content_for_sherlock();
    let expected = format!(
        "<span font_desc=\"monospace\">\n\u{2500}\u{2500}\u{2500} <b><i>noun</i></b> \u{2500}\u{2500}\u{2500}\n\n  1. {}\n\n{}\n</span>",
        text,
        "\u{2500}".repeat(12)
    );
    assert_eq!(content, expected);
    assert!(content.contains("noun"));
    assert!(content.contains(" 1. the occurrence of events by chance in a happy way"));
    assert_eq!(actions.len(), 1);
    assert_eq!(actions[0].name.as_deref(), Some(text));
    assert_eq!(actions[0].exec_payload.as_deref(), Some(text));
}

#[test]
fn optional_lines_appear_only_when_present_and_non_empty() {
    let entry = entry_with_meanings(vec![Meaning {
        part_of_speech: String::from("verb"),
        definitions: vec![Definition {
            definition: String::from("to act"),
            example: Some(String::from("he acts")),
            synonyms: Some(vec![String::from("do"), String::from("perform")]),
            antonyms: Some(Vec::new()),
        }],
        synonyms: None,
        antonyms: None,
    }]);
    let (content, actions) = entry.format_content_for_sherlock();
    assert!(content.contains(" 1. to act\n"));
    assert!(content.contains("     Example: \"he acts\"\n"));
    assert!(content.contains("     Synonyms: do, perform\n"));
    assert!(!content.contains("Antonyms"));
    assert_eq!(actions.len(), 1);
    assert_eq!(
        actions[0].exec_payload.as_deref(),
        Some("to act\nhe acts\ndo, perform\n")
    );
}

#[test]
fn indices_are_right_justified_to_width_two() {
    let definitions: Vec<Definition> =
        (1..=10).map(|i| plain_definition(&format!("d{}", i))).collect();
    let entry = entry_with_meanings(vec![Meaning {
        part_of_speech: String::from("noun"),
        definitions,
        synonyms: None,
        antonyms: None,
    }]);
    let (content, actions) = entry.format_content_for_sherlock();
    assert!(content.contains(" 1. d1\n"));
    assert!(content.contains(" 9. d9\n"));
    assert!(content.contains(" 10. d10\n"));
    assert_eq!(actions.len(), 10);
}

#[test]
fn numbering_restarts_for_each_meaning() {
    let entry = entry_with_meanings(vec![
        Meaning {
            part_of_speech: String::from("noun"),
            definitions: vec![plain_definition("n1"), plain_definition("n2")],
            synonyms: None,
            antonyms: None,
        },
        Meaning {
            part_of_speech: String::from("verb"),
            definitions: vec![plain_definition("v1")],
            synonyms: None,
            antonyms: None,
        },
    ]);
    let (content, actions) = entry.format_content_for_sherlock();
    assert!(content.contains(" 1. n1\n"));
    assert!(content.contains(" 2. n2\n"));
    assert!(content.contains(" 1. v1\n"));
    assert_eq!(actions.len(), 3);
    let names: Vec<&str> = actions.iter().map(|a| a.name.as_deref().unwrap()).collect();
    assert_eq!(names, vec!["n1", "n2", "v1"]);
}
