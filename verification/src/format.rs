//! The presentation formatter: each definition entry becomes a
//! monospace-tagged text block, and each definition record one clipboard-copy
//! action.

use vstd::prelude::*;

use crate::model::{ActionView, ApplicationAction, Definition, DefinitionResponse, Meaning};
use crate::text::{dec_rep, join_seq, join_strs, u64_to_dec};
use crate::trim::{action_name, remove_parens};

verus! {

/// The monospace markup tag that opens each entry's block.
pub open spec fn span_open() -> Seq<char> {
    "<span font_desc=\"monospace\">\n"@
}

/// The fixed separator line before an entry's closing tag.
pub open spec fn footer_line() -> Seq<char> {
    "────────────\n"@
}

/// The markup tag that closes each entry's block.
pub open spec fn span_close() -> Seq<char> {
    "</span>"@
}

/// The index of a definition, right-justified to width two.
pub open spec fn numbered(n: nat) -> Seq<char> {
    if n < 10 {
        " "@ + dec_rep(n)
    } else {
        dec_rep(n)
    }
}

/// The lines of one definition's copy payload: the text, then the example,
/// the joined synonyms and the joined antonyms, each only where present.
pub open spec fn definition_fields(d: Definition) -> Seq<Seq<char>> {
    seq![d.definition@] + (match d.example {
        Some(e) => seq![e@],
        None => Seq::empty(),
    }) + (match d.synonyms {
        Some(ss) => seq![join_seq(ss.deep_view(), ", "@)],
        None => Seq::empty(),
    }) + (match d.antonyms {
        Some(aa) => seq![join_seq(aa.deep_view(), ", "@)],
        None => Seq::empty(),
    })
}

/// The action derived from one definition: the cleaned text as its name, the
/// payload lines joined with newlines, the fixed icon and method tags, and
/// the exit flag set.
pub open spec fn action_view_of(d: Definition) -> ActionView {
    ActionView {
        name: Some(action_name(d.definition@)),
        exec_payload: Some(join_seq(definition_fields(d), "\n"@)),
        icon: Some("edit-copy"@),
        method: "copy"@,
        exit: true,
    }
}

/// The numbered line holding a definition's text.
pub open spec fn numbered_line(d: Definition, num: nat) -> Seq<char> {
    " "@ + numbered(num) + ". "@ + d.definition@ + "\n"@
}

/// The indented line quoting a definition's example, where one exists.
pub open spec fn example_line(d: Definition) -> Seq<char> {
    match d.example {
        Some(e) => "     Example: \""@ + e@ + "\"\n"@,
        None => Seq::empty(),
    }
}

/// The indented line joining a definition's synonyms, where a non-empty list
/// exists.
pub open spec fn synonyms_line(d: Definition) -> Seq<char> {
    match d.synonyms {
        Some(ss) => if ss@.len() > 0 {
            "     Synonyms: "@ + join_seq(ss.deep_view(), ", "@) + "\n"@
        } else {
            Seq::empty()
        },
        None => Seq::empty(),
    }
}

/// The indented line joining a definition's antonyms, where a non-empty list
/// exists.
pub open spec fn antonyms_line(d: Definition) -> Seq<char> {
    match d.antonyms {
        Some(aa) => if aa@.len() > 0 {
            "     Antonyms: "@ + join_seq(aa.deep_view(), ", "@) + "\n"@
        } else {
            Seq::empty()
        },
        None => Seq::empty(),
    }
}

/// The text block for one definition under its 1-based index: the numbered
/// text line, then an example line, a synonyms line and an antonyms line
/// where present (the last two only for non-empty lists), then a blank line.
pub open spec fn definition_block(d: Definition, num: nat) -> Seq<char> {
    numbered_line(d, num) + example_line(d) + synonyms_line(d) + antonyms_line(d) + "\n"@
}

/// The blocks of the definitions of `ds`, numbered from `k + 1` on.
pub open spec fn definition_blocks_from(ds: Seq<Definition>, k: nat) -> Seq<char>
    decreases ds.len(),
{
    if ds.len() == 0 {
        Seq::empty()
    } else {
        definition_block(ds[0], (k + 1) as nat) + definition_blocks_from(
            ds.drop_first(),
            (k + 1) as nat,
        )
    }
}

/// The header line naming a part of speech.
pub open spec fn meaning_header(pos: Seq<char>) -> Seq<char> {
    "─── <b><i>"@ + pos + "</i></b> ───\n\n"@
}

/// The block for one meaning: its header, then its numbered definitions.
pub open spec fn meaning_block(m: Meaning) -> Seq<char> {
    meaning_header(m.part_of_speech@) + definition_blocks_from(m.definitions@, 0)
}

/// The blocks of all meanings, in order.
pub open spec fn meaning_blocks(ms: Seq<Meaning>) -> Seq<char>
    decreases ms.len(),
{
    if ms.len() == 0 {
        Seq::empty()
    } else {
        meaning_block(ms[0]) + meaning_blocks(ms.drop_first())
    }
}

/// The whole formatted block for one entry: the meanings wrapped in the
/// monospace tag, with the footer separator before the closing tag.
pub open spec fn entry_content(r: DefinitionResponse) -> Seq<char> {
    span_open() + meaning_blocks(r.meanings@) + footer_line() + span_close()
}

/// All definition records of a list of meanings, in order.
pub open spec fn all_definitions(ms: Seq<Meaning>) -> Seq<Definition>
    decreases ms.len(),
{
    if ms.len() == 0 {
        Seq::empty()
    } else {
        ms[0].definitions@ + all_definitions(ms.drop_first())
    }
}

/// The actions derived from the definitions of `ds`, in order.
pub open spec fn actions_of(ds: Seq<Definition>) -> Seq<ActionView>
    decreases ds.len(),
{
    if ds.len() == 0 {
        Seq::empty()
    } else {
        seq![action_view_of(ds[0])] + actions_of(ds.drop_first())
    }
}

pub proof fn lemma_actions_of_concat(a: Seq<Definition>, b: Seq<Definition>)
    ensures
        actions_of(a + b) == actions_of(a) + actions_of(b),
    decreases a.len(),
{
    if a.len() == 0 {
        assert(a + b =~= b);
        assert(actions_of(a) + actions_of(b) =~= actions_of(b));
    } else {
        lemma_actions_of_concat(a.drop_first(), b);
        assert((a + b).drop_first() =~= a.drop_first() + b);
        assert((a + b)[0] == a[0]);
        assert(actions_of(a + b) =~= actions_of(a) + actions_of(b));
    }
}

/// Law: one action is derived per definition record.
pub proof fn lemma_actions_of_len(ds: Seq<Definition>)
    ensures
        actions_of(ds).len() == ds.len(),
    decreases ds.len(),
{
    if ds.len() > 0 {
        lemma_actions_of_len(ds.drop_first());
    }
}

/// Appends the text block of one definition under its 1-based index `num`.
#[verifier::rlimit(100)]
fn append_definition_block(content_buffer: &mut String, def: &Definition, num: usize)
    requires
        num >= 1,
    ensures
        final(content_buffer)@ == old(content_buffer)@ + definition_block(*def, num as nat),
{
    let ghost dbuf0 = content_buffer@;
    content_buffer.append(" ");
    if num < 10 {
        content_buffer.append(" ");
    }
    let dec = u64_to_dec(num as u64);
    content_buffer.append(dec.as_str());
    content_buffer.append(". ");
    content_buffer.append(def.definition.as_str());
    content_buffer.append("\n");
    proof {
        assert(content_buffer@ =~= dbuf0 + numbered_line(*def, num as nat));
    }
    let ghost ebuf0 = content_buffer@;
    if let Some(example) = &def.example {
        content_buffer.append("     Example: \"");
        content_buffer.append(example.as_str());
        content_buffer.append("\"\n");
    }
    proof {
        assert(content_buffer@ =~= ebuf0 + example_line(*def));
    }
    let ghost sbuf0 = content_buffer@;
    if let Some(synonyms) = &def.synonyms {
        if synonyms.len() > 0 {
            content_buffer.append("     Synonyms: ");
            let joined = join_strs(synonyms, ", ");
            content_buffer.append(joined.as_str());
            content_buffer.append("\n");
        }
    }
    proof {
        assert(content_buffer@ =~= sbuf0 + synonyms_line(*def));
    }
    let ghost abuf0 = content_buffer@;
    if let Some(antonyms) = &def.antonyms {
        if antonyms.len() > 0 {
            content_buffer.append("     Antonyms: ");
            let joined = join_strs(antonyms, ", ");
            content_buffer.append(joined.as_str());
            content_buffer.append("\n");
        }
    }
    proof {
        assert(content_buffer@ =~= abuf0 + antonyms_line(*def));
    }
    content_buffer.append("\n");
    proof {
        assert(content_buffer@ =~= dbuf0 + definition_block(*def, num as nat));
    }
}

impl Definition {
    /// The copy-payload lines of this definition, in order: the text, then
    /// the example, the joined synonyms and the joined antonyms where
    /// present.
    pub fn to_vec(&self) -> (r: Vec<String>)
        ensures
            r.deep_view() == definition_fields(*self),
    {
        let mut collect: Vec<String> = Vec::new();
        collect.push(self.definition.clone());
        if let Some(example) = &self.example {
            collect.push(example.clone());
        }
        if let Some(synonyms) = &self.synonyms {
            collect.push(join_strs(synonyms, ", "));
        }
        if let Some(antonyms) = &self.antonyms {
            collect.push(join_strs(antonyms, ", "));
        }
        proof {
            assert(collect.deep_view() =~~= definition_fields(*self));
        }
        collect
    }
}

impl ApplicationAction {
    /// Derives the copy action for one definition.
    pub fn from_definition(definition: &Definition) -> (r: Self)
        ensures
            r@ == action_view_of(*definition),
    {
        let name = remove_parens(definition.definition.as_str());
        let fields = definition.to_vec();
        let short = join_strs(&fields, "\n");
        let r = ApplicationAction {
            name: Some(name),
            exec_payload: Some(short),
            icon: Some(String::from_str("edit-copy")),
            method: String::from_str("copy"),
            exit: true,
        };
        proof {
            assert(r@ =~~= action_view_of(*definition));
        }
        r
    }
}

impl DefinitionResponse {
    /// Formats this entry as one monospace-tagged block, with one copy action
    /// per definition record, in definition order across the meanings.
    #[verifier::rlimit(100)]
    pub fn format_content_for_sherlock(&self) -> (r: (String, Vec<ApplicationAction>))
        ensures
            r.0@ == entry_content(*self),
            r.1.deep_view() == actions_of(all_definitions(self.meanings@)),
    {
        let ghost ms = self.meanings@;
        let mut content_buffer = String::new();
        let mut actions: Vec<ApplicationAction> = Vec::new();
        content_buffer.append("<span font_desc=\"monospace\">\n");
        proof {
            assert(content_buffer@ =~= span_open());
            assert(actions.deep_view() =~= Seq::<ActionView>::empty());
            assert(ms.skip(0) =~= ms);
        }
        let mut mi: usize = 0;
        while mi < self.meanings.len()
            invariant
                ms == self.meanings@,
                mi <= ms.len(),
                content_buffer@ + meaning_blocks(ms.skip(mi as int)) == span_open()
                    + meaning_blocks(ms),
                actions.deep_view() + actions_of(all_definitions(ms.skip(mi as int)))
                    == actions_of(all_definitions(ms)),
            decreases ms.len() - mi,
        {
            let meaning = &self.meanings[mi];
            let ghost m = ms[mi as int];
            let ghost defs = m.definitions@;
            proof {
                assert(ms.skip(mi as int)[0] == m);
                assert(ms.skip(mi as int).drop_first() =~= ms.skip(mi as int + 1));
                assert(all_definitions(ms.skip(mi as int)) == defs + all_definitions(
                    ms.skip(mi as int + 1),
                ));
                lemma_actions_of_concat(defs, all_definitions(ms.skip(mi as int + 1)));
            }
            let ghost buf0 = content_buffer@;
            content_buffer.append("─── <b><i>");
            content_buffer.append(meaning.part_of_speech.as_str());
            content_buffer.append("</i></b> ───\n\n");
            proof {
                assert(content_buffer@ =~= buf0 + meaning_header(m.part_of_speech@));
                assert(defs.skip(0) =~= defs);
                assert(content_buffer@ + definition_blocks_from(defs.skip(0), 0) + meaning_blocks(
                    ms.skip(mi as int + 1),
                ) =~= buf0 + meaning_blocks(ms.skip(mi as int)));
            }
            let mut di: usize = 0;
            while di < meaning.definitions.len()
                invariant
                    m == ms[mi as int],
                    mi < ms.len(),
                    defs == meaning.definitions@,
                    m.definitions@ == defs,
                    di <= defs.len(),
                    content_buffer@ + definition_blocks_from(defs.skip(di as int), di as nat)
                        + meaning_blocks(ms.skip(mi as int + 1)) == span_open() + meaning_blocks(
                        ms,
                    ),
                    actions.deep_view() + actions_of(defs.skip(di as int)) + actions_of(
                        all_definitions(ms.skip(mi as int + 1)),
                    ) == actions_of(all_definitions(ms)),
                decreases defs.len() - di,
            {
                let def = &meaning.definitions[di];
                let ghost d = defs[di as int];
                proof {
                    assert(defs.skip(di as int)[0] == d);
                    assert(defs.skip(di as int).drop_first() =~= defs.skip(di as int + 1));
                }
                let ghost acts0 = actions.deep_view();
                let act = ApplicationAction::from_definition(def);
                actions.push(act);
                proof {
                    assert(actions.deep_view() =~= acts0 + seq![action_view_of(d)]);
                    assert(actions.deep_view() + actions_of(defs.skip(di as int + 1)) =~= acts0
                        + actions_of(defs.skip(di as int)));
                }
                let ghost dbuf0 = content_buffer@;
                append_definition_block(&mut content_buffer, def, di + 1);
                proof {
                    assert(content_buffer@ + definition_blocks_from(
                        defs.skip(di as int + 1),
                        (di + 1) as nat,
                    ) =~= dbuf0 + definition_blocks_from(defs.skip(di as int), di as nat));
                }
                di = di + 1;
            }
            proof {
                assert(defs.skip(defs.len() as int) =~= Seq::<Definition>::empty());
                assert(content_buffer@ + meaning_blocks(ms.skip(mi as int + 1)) =~= content_buffer@
                    + definition_blocks_from(defs.skip(defs.len() as int), defs.len() as nat)
                    + meaning_blocks(ms.skip(mi as int + 1)));
                assert(actions.deep_view() + actions_of(all_definitions(ms.skip(mi as int + 1)))
                    =~= actions.deep_view() + actions_of(defs.skip(defs.len() as int)) + actions_of(
                    all_definitions(ms.skip(mi as int + 1)),
                ));
            }
            mi = mi + 1;
        }
        proof {
            assert(ms.skip(ms.len() as int) =~= Seq::<Meaning>::empty());
            assert(content_buffer@ =~= span_open() + meaning_blocks(ms));
            assert(all_definitions(ms.skip(ms.len() as int)) =~= Seq::<Definition>::empty());
            assert(actions.deep_view() =~= actions_of(all_definitions(ms)));
        }
        content_buffer.append("────────────\n");
        content_buffer.append("</span>");
        proof {
            assert(content_buffer@ =~= entry_content(*self));
        }
        (content_buffer, actions)
    }
}

} // verus!
