//! The response classifier: given the lookup word, the HTTP status and the
//! parsed shape of the response body, builds the one output envelope.

use vstd::prelude::*;

use crate::format::{actions_of, all_definitions, entry_content, lemma_actions_of_len};
use crate::model::{
    ActionView, ApiErrorResponse, ApplicationAction, DefinitionResponse, EnvelopeView, ParsedBody,
    SherlockPipeResponse,
};
use crate::text::{dec_rep, u64_to_dec};

verus! {

/// A status in the 2xx range counts as success.
pub open spec fn is_success_status(status: u16) -> bool {
    200 <= status < 300
}

/// The formatted blocks of all entries, concatenated in order.
pub open spec fn entries_content(rs: Seq<DefinitionResponse>) -> Seq<char>
    decreases rs.len(),
{
    if rs.len() == 0 {
        Seq::empty()
    } else {
        entry_content(rs[0]) + entries_content(rs.drop_first())
    }
}

/// The actions of all entries, concatenated in order.
pub open spec fn entries_actions(rs: Seq<DefinitionResponse>) -> Seq<ActionView>
    decreases rs.len(),
{
    if rs.len() == 0 {
        Seq::empty()
    } else {
        actions_of(all_definitions(rs[0].meanings@)) + entries_actions(rs.drop_first())
    }
}

/// The total count of definition records across all entries.
pub open spec fn total_definitions(rs: Seq<DefinitionResponse>) -> nat
    decreases rs.len(),
{
    if rs.len() == 0 {
        0
    } else {
        all_definitions(rs[0].meanings@).len() + total_definitions(rs.drop_first())
    }
}

/// The benign envelope for a word with no definitions: empty content, empty
/// next content, no actions.
pub open spec fn empty_envelope() -> EnvelopeView {
    EnvelopeView {
        title: "No definition found"@,
        content: Seq::empty(),
        next_content: Seq::empty(),
        actions: Seq::empty(),
    }
}

/// An error-shaped envelope: a title, a content text duplicated as the next
/// content, and no actions.
pub open spec fn error_envelope(title: Seq<char>, content: Seq<char>) -> EnvelopeView {
    EnvelopeView { title: title, content: content, next_content: content, actions: Seq::empty() }
}

/// The message/resolution content of a structured service error.
pub open spec fn api_error_content(err: ApiErrorResponse) -> Seq<char> {
    "Message: "@ + err.message@ + "\nResolution: "@ + err.resolution@
}

/// The decision table: what envelope a lookup of `word` yields when the
/// service answered with `status` and a body of shape `parsed`.
///
/// A definitions list is handled the same at any status; the upstream parse
/// only produces one for successful statuses. A structured error titled
/// exactly "No Definitions Found" yields the benign empty envelope whatever
/// the status; any other structured error and any unparseable body yield an
/// error-shaped envelope whose title names the status when it was not a
/// success.
pub open spec fn envelope_spec(word: Seq<char>, status: u16, parsed: ParsedBody) -> EnvelopeView {
    match parsed {
        ParsedBody::Definitions(rs) => if rs@.len() == 0 {
            empty_envelope()
        } else {
            EnvelopeView {
                title: "Definition of \""@ + word + "\""@,
                content: entries_content(rs@),
                next_content: entries_content(rs@),
                actions: entries_actions(rs@),
            }
        },
        ParsedBody::ApiError(err) => if err.title@ == "No Definitions Found"@ {
            empty_envelope()
        } else if is_success_status(status) {
            error_envelope("API Error: "@ + err.title@, api_error_content(err))
        } else {
            error_envelope(
                "API Error (Status "@ + dec_rep(status as nat) + "): "@ + err.title@,
                api_error_content(err),
            )
        },
        ParsedBody::Unparseable(body) => if is_success_status(status) {
            error_envelope(
                "Parsing Error for '"@ + word + "'"@,
                "Failed to parse API response. Raw body: "@ + body@,
            )
        } else {
            error_envelope(
                "HTTP Error (Status "@ + dec_rep(status as nat) + ") for '"@ + word + "'"@,
                "Failed to parse error response. Raw body: "@ + body@,
            )
        },
    }
}

fn empty_response() -> (r: SherlockPipeResponse)
    ensures
        r@ == empty_envelope(),
{
    let r = SherlockPipeResponse {
        title: String::from_str("No definition found"),
        content: String::new(),
        next_content: String::new(),
        actions: Vec::new(),
    };
    proof {
        assert(r.actions.deep_view() =~= Seq::<ActionView>::empty());
        assert(r@ =~~= empty_envelope());
    }
    r
}

fn error_response(title: String, content: String) -> (r: SherlockPipeResponse)
    ensures
        r@ == error_envelope(title@, content@),
{
    let next = content.clone();
    let r = SherlockPipeResponse { title, content, next_content: next, actions: Vec::new() };
    proof {
        assert(r.actions.deep_view() =~= Seq::<ActionView>::empty());
        assert(r@ =~~= error_envelope(r.title@, r.content@));
    }
    r
}

/// Builds the one output envelope for a lookup of `word` that returned
/// `status` and a body of shape `parsed`.
pub fn classify(word: &str, status: u16, parsed: ParsedBody) -> (r: SherlockPipeResponse)
    ensures
        r@ == envelope_spec(word@, status, parsed),
{
    let success = 200 <= status && status < 300;
    match parsed {
        ParsedBody::Definitions(entries) => {
            if entries.len() == 0 {
                empty_response()
            } else {
                let ghost rs = entries@;
                let mut all_content = String::new();
                let mut actions: Vec<ApplicationAction> = Vec::new();
                proof {
                    assert(rs.skip(0) =~= rs);
                    assert(actions.deep_view() =~= Seq::<ActionView>::empty());
                }
                let mut ei: usize = 0;
                while ei < entries.len()
                    invariant
                        rs == entries@,
                        ei <= rs.len(),
                        all_content@ + entries_content(rs.skip(ei as int)) == entries_content(rs),
                        actions.deep_view() + entries_actions(rs.skip(ei as int))
                            == entries_actions(rs),
                    decreases rs.len() - ei,
                {
                    let entry = &entries[ei];
                    proof {
                        assert(rs.skip(ei as int)[0] == rs[ei as int]);
                        assert(rs.skip(ei as int).drop_first() =~= rs.skip(ei as int + 1));
                    }
                    let ghost buf0 = all_content@;
                    let ghost acts0 = actions.deep_view();
                    let (content, mut acts) = entry.format_content_for_sherlock();
                    all_content.append(content.as_str());
                    proof {
                        assert(all_content@ + entries_content(rs.skip(ei as int + 1)) =~= buf0
                            + entries_content(rs.skip(ei as int)));
                    }
                    let ghost sub = acts.deep_view();
                    actions.append(&mut acts);
                    proof {
                        assert(actions.deep_view() =~= acts0 + sub);
                        assert(actions.deep_view() + entries_actions(rs.skip(ei as int + 1))
                            =~= acts0 + entries_actions(rs.skip(ei as int)));
                    }
                    ei = ei + 1;
                }
                proof {
                    assert(rs.skip(rs.len() as int) =~= Seq::<DefinitionResponse>::empty());
                    assert(all_content@ =~= entries_content(rs));
                    assert(actions.deep_view() =~= entries_actions(rs));
                }
                let mut title = String::from_str("Definition of \"");
                title.append(word);
                title.append("\"");
                let next_content = all_content.clone();
                let r = SherlockPipeResponse {
                    title,
                    content: all_content,
                    next_content,
                    actions,
                };
                proof {
                    assert(r@ =~~= envelope_spec(word@, status, ParsedBody::Definitions(entries)));
                }
                r
            }
        },
        ParsedBody::ApiError(err) => {
            let no_defs = String::from_str("No Definitions Found");
            if err.title == no_defs {
                empty_response()
            } else {
                let mut content = String::from_str("Message: ");
                content.append(err.message.as_str());
                content.append("\nResolution: ");
                content.append(err.resolution.as_str());
                proof {
                    assert(content@ =~= api_error_content(err));
                }
                let title = if success {
                    let mut t = String::from_str("API Error: ");
                    t.append(err.title.as_str());
                    t
                } else {
                    let mut t = String::from_str("API Error (Status ");
                    let dec = u64_to_dec(status as u64);
                    t.append(dec.as_str());
                    t.append("): ");
                    t.append(err.title.as_str());
                    proof {
                        assert(t@ =~= "API Error (Status "@ + dec_rep(status as nat) + "): "@
                            + err.title@);
                    }
                    t
                };
                error_response(title, content)
            }
        },
        ParsedBody::Unparseable(body) => {
            if success {
                let mut title = String::from_str("Parsing Error for '");
                title.append(word);
                title.append("'");
                let mut content = String::from_str("Failed to parse API response. Raw body: ");
                content.append(body.as_str());
                error_response(title, content)
            } else {
                let mut title = String::from_str("HTTP Error (Status ");
                let dec = u64_to_dec(status as u64);
                title.append(dec.as_str());
                title.append(") for '");
                title.append(word);
                title.append("'");
                proof {
                    assert(title@ =~= "HTTP Error (Status "@ + dec_rep(status as nat) + ") for '"@
                        + word@ + "'"@);
                }
                let mut content = String::from_str("Failed to parse error response. Raw body: ");
                content.append(body.as_str());
                error_response(title, content)
            }
        },
    }
}

proof fn lemma_entries_actions_len(rs: Seq<DefinitionResponse>)
    ensures
        entries_actions(rs).len() == total_definitions(rs),
    decreases rs.len(),
{
    if rs.len() > 0 {
        lemma_actions_of_len(all_definitions(rs[0].meanings@));
        lemma_entries_actions_len(rs.drop_first());
    }
}

/// Law: an empty definitions list yields the benign envelope with empty
/// content, empty next content and no actions, at any status.
pub proof fn lemma_empty_list_envelope(word: Seq<char>, status: u16, rs: Vec<DefinitionResponse>)
    requires
        rs@.len() == 0,
    ensures
        envelope_spec(word, status, ParsedBody::Definitions(rs)) == empty_envelope(),
{
}

/// Law: a structured error titled exactly "No Definitions Found" yields the
/// same empty envelope as an empty definitions list, whatever the status.
pub proof fn lemma_no_definitions_error_envelope(
    word: Seq<char>,
    status: u16,
    err: ApiErrorResponse,
    rs: Vec<DefinitionResponse>,
)
    requires
        err.title@ == "No Definitions Found"@,
        rs@.len() == 0,
    ensures
        envelope_spec(word, status, ParsedBody::ApiError(err)) == empty_envelope(),
        envelope_spec(word, status, ParsedBody::ApiError(err)) == envelope_spec(
            word,
            status,
            ParsedBody::Definitions(rs),
        ),
{
}

/// Law: in every envelope the next content equals the content, byte for
/// byte.
pub proof fn lemma_next_content_equals_content(word: Seq<char>, status: u16, parsed: ParsedBody)
    ensures
        envelope_spec(word, status, parsed).next_content == envelope_spec(
            word,
            status,
            parsed,
        ).content,
{
}

/// Law: with at least one entry, the envelope's content is the concatenation
/// of one formatted block per entry, and the number of actions equals the
/// total count of definition records across all entries.
pub proof fn lemma_success_envelope_shape(word: Seq<char>, status: u16, rs: Vec<DefinitionResponse>)
    requires
        rs@.len() > 0,
    ensures
        envelope_spec(word, status, ParsedBody::Definitions(rs)).content == entries_content(rs@),
        envelope_spec(word, status, ParsedBody::Definitions(rs)).actions.len()
            == total_definitions(rs@),
{
    lemma_entries_actions_len(rs@);
}

} // verus!
