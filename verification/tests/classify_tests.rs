use sherlock_dictionary::classify::classify;
use sherlock_dictionary::model::{
    ApiErrorResponse, Definition, DefinitionResponse, Meaning, ParsedBody,
};

fn plain_definition(text: &str) -> Definition {
    Definition {
        definition: String::from(text),
        example: None,
        synonyms: None,
        antonyms: None,
    }
}

fn entry(pos: &str, texts: &[&str]) -> DefinitionResponse {
    DefinitionResponse {
        word: String::from("w"),
        phonetic: None,
        phonetics: Vec::new(),
        meanings: vec![Meaning {
            part_of_speech: String::from(pos),
            definitions: texts.iter().map(|t| plain_definition(t)).collect(),
            synonyms: None,
            antonyms: None,
        }],
        source_urls: None,
        origin: None,
    }
}

fn api_error(title: &str) -> ApiErrorResponse {
    ApiErrorResponse {
        title: String::from(title),
        message: String::from("the message"),
        resolution: String::from("the resolution"),
    }
}

#[test]
fn serendipity_scenario() {
    let text = "the occurrence of events by chance in a happy way";
    let parsed = ParsedBody::Definitions(vec![entry("noun", &[text])]);
    let envelope = classify("serendipity", 200, parsed);
    assert_eq!(envelope.title, "Definition of \"serendipity\"");
    assert!(envelope.content.contains("noun"));
    assert!(envelope.content.contains(" 1. the occurrence of events by chance in a happy way"));
    assert_eq!(envelope.next_content, envelope.content);
    assert_eq!(envelope.actions.len(), 1);
    assert_eq!(envelope.actions[0].name.as_deref(), Some(text));
    assert_eq!(envelope.actions[0].exec_payload.as_deref(), Some(text));
    assert_eq!(envelope.actions[0].method, "copy");
    assert!(envelope.actions[0].exit);
}

#[test]
fn empty_definition_list_gives_empty_envelope() {
    let envelope = classify("nothing", 200, ParsedBody::Definitions(Vec::new()));
    assert_eq!(envelope.title, "No definition found");
    assert_eq!(envelope.content, "");
    assert_eq!(envelope.next_content, "");
    assert!(envelope.actions.is_empty());
}

#[test]
fn not_found_error_gives_empty_envelope_at_any_status() {
    for status in [200, 404, 500] {
        let envelope = classify(
            "missing",
            status,
            ParsedBody::ApiError(api_error("No Definitions Found")),
        );
        assert_eq!(envelope.title, "No definition found");
        assert_eq!(envelope.content, "");
        assert_eq!(envelope.next_content, "");
        assert!(envelope.actions.is_empty());
    }
}

#[test]
fn other_api_error_on_success_status() {
    let envelope = classify("word", 200, ParsedBody::ApiError(api_error("Rate Limited")));
    assert_eq!(envelope.title, "API Error: Rate Limited");
    assert_eq!(envelope.content, "Message: the message\nResolution: the resolution");
    assert_eq!(envelope.next_content, envelope.content);
    assert!(envelope.actions.is_empty());
}

#[test]
fn other_api_error_on_failure_status_names_it() {
    let envelope = classify("word", 404, ParsedBody::ApiError(api_error("Bad Request")));
    assert_eq!(envelope.title, "API Error (Status 404): Bad Request");
    assert_eq!(envelope.content, "Message: the message\nResolution: the resolution");
    assert_eq!(envelope.next_content, envelope.content);
    assert!(envelope.actions.is_empty());
}

#[test]
fn unparseable_body_on_success_status() {
    let envelope = classify(
        "word",
        200,
        ParsedBody::Unparseable(String::from("<html>oops</html>")),
    );
    assert_eq!(envelope.title, "Parsing Error for 'word'");
    assert_eq!(
        envelope.content,
        "Failed to parse API response. Raw body: <html>oops</html>"
    );
    assert_eq!(envelope.next_content, envelope.content);
    assert!(envelope.actions.is_empty());
}

#[test]
fn unparseable_body_on_failure_status() {
    let envelope = classify("word", 503, ParsedBody::Unparseable(String::from("gateway down")));
    assert_eq!(envelope.title, "HTTP Error (Status 503) for 'word'");
    assert_eq!(
        envelope.content,
        "Failed to parse error response. Raw body: gateway down"
    );
    assert_eq!(envelope.next_content, envelope.content);
    assert!(envelope.actions.is_empty());
}

#[test]
fn content_concatenates_one_block_per_entry_and_counts_actions() {
    let first = entry("noun", &["one", "two"]);
    let second = entry("verb", &["three"]);
    let (block_one, _) = entry("noun", &["one", "two"]).format_content_for_sherlock();
    let (block_two, _) = entry("verb", &["three"]).format_content_for_sherlock();
    let envelope = classify("w", 200, ParsedBody::Definitions(vec![first, second]));
    assert_eq!(envelope.content, format!("{}{}", block_one, block_two));
    assert_eq!(envelope.next_content, envelope.content);
    assert_eq!(envelope.actions.len(), 3);
    let names: Vec<&str> =
        envelope.actions.iter().map(|a| a.name.as_deref().unwrap()).collect();
    assert_eq!(names, vec!["one", "two", "three"]);
}
