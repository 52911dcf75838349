//! The data model: definition records as the dictionary service returns
//! them, the service's structured error shape, and the output envelope with
//! its clipboard-copy actions.

use vstd::prelude::*;

verus! {

/// License attribution attached to a phonetic variant.
pub struct License {
    pub name: Option<String>,
    pub url: Option<String>,
}

/// One phonetic variant of a word.
pub struct Phonetic {
    pub text: Option<String>,
    pub audio: Option<String>,
    pub source_url: Option<String>,
    pub license: Option<License>,
}

/// One definition record: its text and optional example, synonyms and
/// antonyms.
pub struct Definition {
    pub definition: String,
    pub example: Option<String>,
    pub synonyms: Option<Vec<String>>,
    pub antonyms: Option<Vec<String>>,
}

/// A group of definitions under one part-of-speech tag.
pub struct Meaning {
    pub part_of_speech: String,
    pub definitions: Vec<Definition>,
    pub synonyms: Option<Vec<String>>,
    pub antonyms: Option<Vec<String>>,
}

/// A whole dictionary entry for one word.
pub struct DefinitionResponse {
    pub word: String,
    pub phonetic: Option<String>,
    pub phonetics: Vec<Phonetic>,
    pub meanings: Vec<Meaning>,
    pub source_urls: Option<Vec<String>>,
    pub origin: Option<String>,
}

/// The structured error shape the dictionary service returns on failure.
pub struct ApiErrorResponse {
    pub title: String,
    pub message: String,
    pub resolution: String,
}

/// A clipboard-copy action for the consuming launcher: a short display name,
/// the payload to copy, an icon identifier, the fixed method tag, and whether
/// the launcher should exit after invoking it.
pub struct ApplicationAction {
    pub name: Option<String>,
    pub exec_payload: Option<String>,
    pub icon: Option<String>,
    pub method: String,
    pub exit: bool,
}

/// The single output envelope emitted per invocation.
pub struct SherlockPipeResponse {
    pub title: String,
    pub content: String,
    pub next_content: String,
    pub actions: Vec<ApplicationAction>,
}

/// What the response body turned out to be once parsed: a list of definition
/// records, the service's structured error, or text in neither shape (kept
/// raw for diagnostics).
pub enum ParsedBody {
    Definitions(Vec<DefinitionResponse>),
    ApiError(ApiErrorResponse),
    Unparseable(String),
}

/// The mathematical value of an action: each text field as a character
/// sequence.
#[verifier::ext_equal]
pub ghost struct ActionView {
    pub name: Option<Seq<char>>,
    pub exec_payload: Option<Seq<char>>,
    pub icon: Option<Seq<char>>,
    pub method: Seq<char>,
    pub exit: bool,
}

impl View for ApplicationAction {
    type V = ActionView;

    open spec fn view(&self) -> ActionView {
        ActionView {
            name: self.name.deep_view(),
            exec_payload: self.exec_payload.deep_view(),
            icon: self.icon.deep_view(),
            method: self.method@,
            exit: self.exit,
        }
    }
}

impl DeepView for ApplicationAction {
    type V = ActionView;

    open spec fn deep_view(&self) -> ActionView {
        self.view()
    }
}

/// The mathematical value of the output envelope.
#[verifier::ext_equal]
pub ghost struct EnvelopeView {
    pub title: Seq<char>,
    pub content: Seq<char>,
    pub next_content: Seq<char>,
    pub actions: Seq<ActionView>,
}

impl View for SherlockPipeResponse {
    type V = EnvelopeView;

    open spec fn view(&self) -> EnvelopeView {
        EnvelopeView {
            title: self.title@,
            content: self.content@,
            next_content: self.next_content@,
            actions: self.actions.deep_view(),
        }
    }
}

} // verus!
