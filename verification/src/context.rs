//! The context assembler: from what the memory stores returned to the prompt
//! that the model sees.
//!
//! The system prompt is the base prompt, a fixed instruction, and then up to
//! four sections in a fixed order: remembered facts, semantic hits, keyword
//! matches from other sessions, and the persona. A section with nothing to
//! show is left out entirely. The full prompt wraps the system prompt, the
//! conversation so far and the new user turn in the turn-delimited format and
//! ends with an open assistant turn.

use crate::binary32;
use crate::commands::HistoryMessage;
use crate::database::{ExportMessage, MemoryEntry, UserPersona};
use crate::embeddings::SearchResult;
use crate::text::{
    join, join_with, prefix, split_words, str_equals, take_chars, views, words,
};
use vstd::prelude::*;

verus! {

/// The similarity below which a search hit is not even fetched: 0.4.
pub const SEARCH_FLOOR: u32 = 0x3ecc_cccd;

/// The similarity that a hit must exceed to be shown: 0.5.
pub const DISPLAY_FLOOR: u32 = 0x3f00_0000;

/// How many search hits are asked for with one prompt.
pub const SEARCH_LIMIT: i32 = 5;

/// How many remembered facts are shown with one prompt.
pub const FACTS_LIMIT: i32 = 5;

/// How many keyword matches from other sessions are shown with one prompt.
pub const KEYWORD_LIMIT: i32 = 3;

/// What the stores returned for one prompt. `None` stands for a store that
/// failed or is not there. Of the facts the first five are shown, of the
/// hits the first three that are similar enough, and of the keyword matches
/// the first three that belong to another session.
pub struct ContextSources {
    /// The most important remembered facts.
    pub memories: Option<Vec<MemoryEntry>>,
    /// The semantic hits for the user's words, with their content.
    pub rag_results: Option<Vec<SearchResult>>,
    /// The messages that match the keyword query.
    pub keyword_matches: Option<Vec<ExportMessage>>,
    /// The persona, if one was ever built.
    pub persona: Option<UserPersona>,
}

/// The assembled text and the sections that went into it.
#[derive(Debug, Clone)]
pub struct AssembledContext {
    pub text: String,
    pub facts: bool,
    pub semantic: bool,
    pub keyword: bool,
    pub persona: bool,
}

/// The instruction that follows the base prompt.
pub open spec fn instruction_suffix() -> Seq<char> {
    "\nТы помнишь ВСЕ предыдущие разговоры и используешь эту информацию."@
        + " Отвечай только текстом ответа пользователю — без процентов, сходства и метаданных.\n\n"@
}

/// One remembered fact: `- [category] content`.
pub open spec fn fact_line(m: MemoryEntry) -> Seq<char> {
    "- ["@ + m.category@ + "] "@ + m.content@ + "\n"@
}

/// The lines of the facts, in order.
pub open spec fn fact_lines(ms: Seq<MemoryEntry>) -> Seq<char>
    decreases ms.len(),
{
    if ms.len() == 0 {
        Seq::empty()
    } else {
        fact_lines(ms.drop_last()) + fact_line(ms.last())
    }
}

/// The facts section: nothing without facts, else a header, one line per
/// fact and an empty line.
pub open spec fn facts_section(ms: Seq<MemoryEntry>) -> Seq<char> {
    if ms.len() == 0 {
        Seq::empty()
    } else {
        "=== ВАЖНЫЕ ФАКТЫ ИЗ ПАМЯТИ ===\n"@ + fact_lines(ms) + "\n"@
    }
}

/// The hit is similar enough to be shown.
pub open spec fn is_relevant(r: SearchResult) -> bool {
    binary32::lt(DISPLAY_FLOOR, r.similarity)
}

/// The first three hits that are similar enough to be shown, in order.
pub open spec fn relevant(rs: Seq<SearchResult>) -> Seq<SearchResult>
    decreases rs.len(),
{
    if rs.len() == 0 {
        Seq::empty()
    } else {
        let before = relevant(rs.drop_last());
        if before.len() < 3 && is_relevant(rs.last()) {
            before.push(rs.last())
        } else {
            before
        }
    }
}

/// The tag under which a kind of source is shown.
pub open spec fn source_label(source_type: Seq<char>) -> Seq<char> {
    if source_type == "memory"@ {
        "Память"@
    } else if source_type == "message"@ {
        "Сообщение"@
    } else {
        source_type
    }
}

/// One semantic hit: `[source] content`, the content cut to 200 characters.
pub open spec fn hit_line(r: SearchResult) -> Seq<char> {
    "["@ + source_label(r.source_type@) + "] "@ + prefix(r.content@, 200) + "\n"@
}

/// The lines of the hits, in order.
pub open spec fn hit_lines(rs: Seq<SearchResult>) -> Seq<char>
    decreases rs.len(),
{
    if rs.len() == 0 {
        Seq::empty()
    } else {
        hit_lines(rs.drop_last()) + hit_line(rs.last())
    }
}

/// The semantic section: nothing without a hit to show, else a header, one
/// line per hit and an empty line.
pub open spec fn semantic_section(rs: Seq<SearchResult>) -> Seq<char> {
    if relevant(rs).len() == 0 {
        Seq::empty()
    } else {
        "=== РЕЛЕВАНТНЫЙ КОНТЕКСТ (для справки) ===\n"@ + hit_lines(relevant(rs)) + "\n"@
    }
}

/// The matches that belong to another session than `session_id`, in order.
pub open spec fn from_other_sessions(ms: Seq<ExportMessage>, session_id: i64) -> Seq<
    ExportMessage,
>
    decreases ms.len(),
{
    if ms.len() == 0 {
        Seq::empty()
    } else {
        let before = from_other_sessions(ms.drop_last(), session_id);
        if ms.last().session_id != session_id {
            before.push(ms.last())
        } else {
            before
        }
    }
}

/// How the author of a message is named.
pub open spec fn role_label(is_user: bool) -> Seq<char> {
    if is_user {
        "Пользователь"@
    } else {
        "Ассистент"@
    }
}

/// One keyword match: `[session title] role: content`, the content cut to
/// 200 characters.
pub open spec fn match_line(m: ExportMessage) -> Seq<char> {
    "["@ + m.session_title@ + "] "@ + role_label(m.is_user) + ": "@ + prefix(m.content@, 200)
        + "\n"@
}

/// The lines of the matches, in order.
pub open spec fn match_lines(ms: Seq<ExportMessage>) -> Seq<char>
    decreases ms.len(),
{
    if ms.len() == 0 {
        Seq::empty()
    } else {
        match_lines(ms.drop_last()) + match_line(ms.last())
    }
}

/// The keyword section for the matches that are shown: nothing without a
/// match, else a header, one line per match and an empty line.
pub open spec fn keyword_section(shown: Seq<ExportMessage>) -> Seq<char> {
    if shown.len() == 0 {
        Seq::empty()
    } else {
        "=== КОНТЕКСТ ИЗ ДРУГИХ ЧАТОВ ===\n"@ + match_lines(shown) + "\n"@
    }
}

/// The persona section: one line with style, tone and language, and an empty
/// line.
pub open spec fn persona_section(p: Option<UserPersona>) -> Seq<char> {
    match p {
        None => Seq::empty(),
        Some(persona) => "=== ПРОФИЛЬ ПОЛЬЗОВАТЕЛЯ ===\nСтиль: "@ + persona.writing_style@
            + ", Тон: "@ + persona.tone@ + ", Язык: "@ + persona.language@ + "\n\n"@,
    }
}

/// The first `limit` entries of a list, or all of it when it is shorter.
pub open spec fn at_most<T>(s: Seq<T>, limit: int) -> Seq<T> {
    if 0 <= limit < s.len() {
        s.take(limit)
    } else {
        s
    }
}

/// The facts that are shown: the first five that a store returned; none
/// when it failed.
pub open spec fn facts_of(sources: ContextSources) -> Seq<MemoryEntry> {
    match sources.memories {
        Some(v) => at_most(v@, FACTS_LIMIT as int),
        None => Seq::empty(),
    }
}

/// The hits that a store returned; none when it failed.
pub open spec fn hits_of(sources: ContextSources) -> Seq<SearchResult> {
    match sources.rag_results {
        Some(v) => v@,
        None => Seq::empty(),
    }
}

/// The keyword matches that are shown: of the matches that a store returned,
/// those from another session than `session_id`, and of those the first
/// three; none when the store failed.
pub open spec fn matches_of(sources: ContextSources, session_id: i64) -> Seq<ExportMessage> {
    match sources.keyword_matches {
        Some(v) => at_most(from_other_sessions(v@, session_id), KEYWORD_LIMIT as int),
        None => Seq::empty(),
    }
}

/// The system prompt: base prompt, instruction, then the sections in their
/// fixed order.
pub open spec fn enriched(base: Seq<char>, session_id: i64, sources: ContextSources) -> Seq<char> {
    base + instruction_suffix() + facts_section(facts_of(sources)) + semantic_section(
        hits_of(sources),
    ) + keyword_section(matches_of(sources, session_id)) + persona_section(sources.persona)
}

/// The first three words that are longer than three characters, in order.
pub open spec fn keywords(ws: Seq<Seq<char>>) -> Seq<Seq<char>>
    decreases ws.len(),
{
    if ws.len() == 0 {
        Seq::empty()
    } else {
        let before = keywords(ws.drop_last());
        if before.len() < 3 && ws.last().len() > 3 {
            before.push(ws.last())
        } else {
            before
        }
    }
}

/// The full-text query for a prompt: its keywords joined with ` OR `, or
/// nothing when it has no keyword.
pub open spec fn keyword_query_of(prompt: Seq<char>) -> Option<Seq<char>> {
    let ks = keywords(words(prompt));
    if ks.len() == 0 {
        None
    } else {
        Some(join(ks, " OR "@))
    }
}

/// The full-text query with which to look for messages that share a keyword
/// with the prompt.
pub fn keyword_query(prompt: &str) -> (q: Option<String>)
    ensures
        q is Some <==> keyword_query_of(prompt@) is Some,
        q is Some ==> q->Some_0@ == keyword_query_of(prompt@)->Some_0,
{
    let all = split_words(prompt);
    let mut picked: Vec<String> = Vec::new();
    let mut i: usize = 0;
    assert(views(all@).take(0) =~= Seq::<Seq<char>>::empty());
    assert(views(picked@) =~= Seq::<Seq<char>>::empty());
    while i < all.len()
        invariant
            i <= all.len(),
            views(picked@) == keywords(views(all@).take(i as int)),
        decreases all.len() - i,
    {
        let ghost before = views(all@).take(i as int);
        let ghost after = views(all@).take(i + 1);
        proof {
            assert(after.drop_last() =~= before);
            assert(after.last() == all@[i as int]@);
        }
        if picked.len() < 3 && all[i].as_str().unicode_len() > 3 {
            let word = all[i].clone();
            assert(views(picked@.push(word)) =~= views(picked@).push(word@));
            picked.push(word);
        }
        i = i + 1;
    }
    assert(views(all@).take(i as int) =~= views(all@));
    if picked.len() == 0 {
        None
    } else {
        Some(join_with(&picked, " OR "))
    }
}

fn bound(len: usize, limit: i32) -> (n: usize)
    requires
        limit >= 0,
    ensures
        n == if limit < len {
            limit as usize
        } else {
            len
        },
{
    if (limit as usize) < len {
        limit as usize
    } else {
        len
    }
}

fn append_facts(out: &mut String, all: &Vec<MemoryEntry>) -> (shown: bool)
    ensures
        final(out)@ == old(out)@ + facts_section(at_most(all@, FACTS_LIMIT as int)),
        shown == (at_most(all@, FACTS_LIMIT as int).len() > 0),
{
    let count = bound(all.len(), FACTS_LIMIT);
    let ghost memories = at_most(all@, FACTS_LIMIT as int);
    assert(memories =~= all@.take(count as int));
    if count == 0 {
        assert(out@ + facts_section(memories) =~= out@);
        return false;
    }
    let ghost start = out@;
    out.append("=== ВАЖНЫЕ ФАКТЫ ИЗ ПАМЯТИ ===\n");
    let ghost head = out@;
    let mut i: usize = 0;
    assert(head + fact_lines(memories.take(0)) =~= head);
    while i < count
        invariant
            i <= count,
            count <= all.len(),
            memories == all@.take(count as int),
            out@ == head + fact_lines(memories.take(i as int)),
        decreases count - i,
    {
        let m = &all[i];
        proof {
            assert(memories.take(i + 1).drop_last() =~= memories.take(i as int));
            assert(memories.take(i + 1).last() == all@[i as int]);
        }
        let ghost before = out@;
        out.append("- [");
        out.append(m.category.as_str());
        out.append("] ");
        out.append(m.content.as_str());
        out.append("\n");
        assert(out@ =~= before + fact_line(*m));
        assert(out@ =~= head + fact_lines(memories.take(i + 1)));
        i = i + 1;
    }
    assert(memories.take(i as int) =~= memories);
    out.append("\n");
    assert(out@ =~= start + facts_section(memories));
    true
}

fn label_of(source_type: &str) -> (label: String)
    ensures
        label@ == source_label(source_type@),
{
    if str_equals(source_type, "memory") {
        String::from_str("Память")
    } else if str_equals(source_type, "message") {
        String::from_str("Сообщение")
    } else {
        String::from_str(source_type)
    }
}

fn append_hits(out: &mut String, results: &Vec<SearchResult>) -> (shown: bool)
    ensures
        final(out)@ == old(out)@ + semantic_section(results@),
        shown == (relevant(results@).len() > 0),
{
    let mut body = String::new();
    let mut count: usize = 0;
    let mut i: usize = 0;
    assert(results@.take(0) =~= Seq::<SearchResult>::empty());
    while i < results.len()
        invariant
            i <= results.len(),
            count <= 3,
            count == relevant(results@.take(i as int)).len(),
            body@ == hit_lines(relevant(results@.take(i as int))),
        decreases results.len() - i,
    {
        let r = &results[i];
        let ghost chosen = relevant(results@.take(i as int));
        proof {
            assert(results@.take(i + 1).drop_last() =~= results@.take(i as int));
            assert(results@.take(i + 1).last() == results@[i as int]);
        }
        if count < 3 && binary32::less_than(DISPLAY_FLOOR, r.similarity) {
            let label = label_of(r.source_type.as_str());
            let shown = take_chars(r.content.as_str(), 200);
            let ghost before = body@;
            body.append("[");
            body.append(label.as_str());
            body.append("] ");
            body.append(shown.as_str());
            body.append("\n");
            proof {
                assert(body@ =~= before + hit_line(*r));
                assert(chosen.push(*r).drop_last() =~= chosen);
                assert(chosen.push(*r).last() == *r);
            }
            count = count + 1;
        }
        i = i + 1;
    }
    assert(results@.take(i as int) =~= results@);
    if count == 0 {
        assert(out@ + semantic_section(results@) =~= out@);
        false
    } else {
        let ghost start = out@;
        out.append("=== РЕЛЕВАНТНЫЙ КОНТЕКСТ (для справки) ===\n");
        out.append(body.as_str());
        out.append("\n");
        assert(out@ =~= start + semantic_section(results@));
        true
    }
}

fn append_matches(out: &mut String, all: &Vec<ExportMessage>, session_id: i64) -> (shown: bool)
    ensures
        final(out)@ == old(out)@ + keyword_section(
            at_most(from_other_sessions(all@, session_id), KEYWORD_LIMIT as int),
        ),
        shown == (from_other_sessions(all@, session_id).len() > 0),
{
    let mut body = String::new();
    let mut count: usize = 0;
    let mut any: bool = false;
    let mut i: usize = 0;
    assert(all@.take(0) =~= Seq::<ExportMessage>::empty());
    while i < all.len()
        invariant
            i <= all.len(),
            count <= 3,
            count == at_most(from_other_sessions(all@.take(i as int), session_id), 3).len(),
            any == (from_other_sessions(all@.take(i as int), session_id).len() > 0),
            body@ == match_lines(at_most(from_other_sessions(all@.take(i as int), session_id), 3)),
        decreases all.len() - i,
    {
        let m = &all[i];
        let ghost others = from_other_sessions(all@.take(i as int), session_id);
        proof {
            assert(all@.take(i + 1).drop_last() =~= all@.take(i as int));
            assert(all@.take(i + 1).last() == all@[i as int]);
        }
        if m.session_id != session_id {
            if count < 3 {
                let shown = take_chars(m.content.as_str(), 200);
                let ghost before = body@;
                body.append("[");
                body.append(m.session_title.as_str());
                body.append("] ");
                if m.is_user {
                    body.append("Пользователь");
                } else {
                    body.append("Ассистент");
                }
                body.append(": ");
                body.append(shown.as_str());
                body.append("\n");
                proof {
                    assert(body@ =~= before + match_line(*m));
                    assert(at_most(others, 3) == others);
                    assert(at_most(others.push(*m), 3) == others.push(*m));
                    assert(others.push(*m).drop_last() =~= others);
                    assert(others.push(*m).last() == *m);
                }
                count = count + 1;
            } else {
                proof {
                    assert(at_most(others.push(*m), 3) =~= at_most(others, 3));
                }
            }
            any = true;
        }
        i = i + 1;
    }
    assert(all@.take(i as int) =~= all@);
    let ghost shown_matches = at_most(from_other_sessions(all@, session_id), 3);
    if count == 0 {
        assert(out@ + keyword_section(shown_matches) =~= out@);
        false
    } else {
        let ghost start = out@;
        out.append("=== КОНТЕКСТ ИЗ ДРУГИХ ЧАТОВ ===\n");
        out.append(body.as_str());
        out.append("\n");
        assert(out@ =~= start + keyword_section(shown_matches));
        true
    }
}

fn append_persona(out: &mut String, persona: &Option<UserPersona>) -> (shown: bool)
    ensures
        final(out)@ == old(out)@ + persona_section(*persona),
        shown == (persona is Some),
{
    match persona {
        None => {
            assert(out@ + persona_section(*persona) =~= out@);
            false
        },
        Some(p) => {
            let ghost start = out@;
            out.append("=== ПРОФИЛЬ ПОЛЬЗОВАТЕЛЯ ===\nСтиль: ");
            out.append(p.writing_style.as_str());
            out.append(", Тон: ");
            out.append(p.tone.as_str());
            out.append(", Язык: ");
            out.append(p.language.as_str());
            out.append("\n\n");
            assert(out@ =~= start + persona_section(*persona));
            true
        },
    }
}

/// Builds the system prompt from the base prompt and what the stores
/// returned, and tells which sections it holds.
///
/// A store that failed contributes nothing, and neither does one that
/// returned nothing to show: its section is left out, header and all, and the
/// other sections keep their order.
pub fn build_enriched_system_prompt(
    base_prompt: &str,
    session_id: i64,
    sources: &ContextSources,
) -> (r: AssembledContext)
    ensures
        r.text@ == enriched(base_prompt@, session_id, *sources),
        r.facts == (facts_of(*sources).len() > 0),
        r.semantic == (relevant(hits_of(*sources)).len() > 0),
        r.keyword == (matches_of(*sources, session_id).len() > 0),
        r.persona == (sources.persona is Some),
{
    let mut out = String::from_str(base_prompt);
    out.append("\nТы помнишь ВСЕ предыдущие разговоры и используешь эту информацию.");
    out.append(
        " Отвечай только текстом ответа пользователю — без процентов, сходства и метаданных.\n\n",
    );
    assert(out@ =~= base_prompt@ + instruction_suffix());
    let facts = match &sources.memories {
        Some(memories) => append_facts(&mut out, memories),
        None => {
            assert(out@ + facts_section(facts_of(*sources)) =~= out@);
            false
        },
    };
    let semantic = match &sources.rag_results {
        Some(results) => append_hits(&mut out, results),
        None => {
            assert(out@ + semantic_section(hits_of(*sources)) =~= out@);
            false
        },
    };
    let keyword = match &sources.keyword_matches {
        Some(matches) => append_matches(&mut out, matches, session_id),
        None => {
            assert(out@ + keyword_section(matches_of(*sources, session_id)) =~= out@);
            false
        },
    };
    let persona = append_persona(&mut out, &sources.persona);
    AssembledContext { text: out, facts, semantic, keyword, persona }
}

/// The role name of a turn.
pub open spec fn role_name(is_user: bool) -> Seq<char> {
    if is_user {
        "user"@
    } else {
        "assistant"@
    }
}

/// One closed turn: `<|im_start|>role`, a line break, the content,
/// `<|im_end|>` and a line break.
pub open spec fn turn(role: Seq<char>, content: Seq<char>) -> Seq<char> {
    "<|im_start|>"@ + role + "\n"@ + content + "<|im_end|>\n"@
}

/// The turns of the conversation so far, in order.
pub open spec fn history_turns(history: Seq<HistoryMessage>) -> Seq<char>
    decreases history.len(),
{
    if history.len() == 0 {
        Seq::empty()
    } else {
        history_turns(history.drop_last()) + turn(
            role_name(history.last().is_user),
            history.last().content@,
        )
    }
}

/// The full prompt: the system turn, the conversation so far, the new user
/// turn, and an open assistant turn.
pub open spec fn chatml(system: Seq<char>, history: Seq<HistoryMessage>, user: Seq<char>) -> Seq<
    char,
> {
    turn("system"@, system) + history_turns(history) + turn("user"@, user)
        + "<|im_start|>assistant\n"@
}

fn append_turn(out: &mut String, role: &str, content: &str)
    ensures
        final(out)@ == old(out)@ + turn(role@, content@),
{
    let ghost start = out@;
    out.append("<|im_start|>");
    out.append(role);
    out.append("\n");
    out.append(content);
    out.append("<|im_end|>\n");
    assert(out@ =~= start + turn(role@, content@));
}

/// Renders a conversation in the turn-delimited format.
pub fn render_chatml(system_prompt: &str, history: &Vec<HistoryMessage>, prompt: &str) -> (r:
    String)
    ensures
        r@ == chatml(system_prompt@, history@, prompt@),
{
    let mut out = String::new();
    append_turn(&mut out, "system", system_prompt);
    assert(out@ =~= turn("system"@, system_prompt@));
    let ghost head = out@;
    let mut i: usize = 0;
    assert(head + history_turns(history@.take(0)) =~= head);
    while i < history.len()
        invariant
            i <= history.len(),
            out@ == head + history_turns(history@.take(i as int)),
        decreases history.len() - i,
    {
        let msg = &history[i];
        proof {
            assert(history@.take(i + 1).drop_last() =~= history@.take(i as int));
            assert(history@.take(i + 1).last() == history@[i as int]);
        }
        let ghost before = out@;
        if msg.is_user {
            append_turn(&mut out, "user", msg.content.as_str());
        } else {
            append_turn(&mut out, "assistant", msg.content.as_str());
        }
        assert(out@ =~= head + history_turns(history@.take(i + 1)));
        i = i + 1;
    }
    assert(history@.take(i as int) =~= history@);
    append_turn(&mut out, "user", prompt);
    out.append("<|im_start|>assistant\n");
    assert(out@ =~= chatml(system_prompt@, history@, prompt@));
    out
}

/// Assembles the prompt for a new user utterance: the enriched system prompt
/// rendered with the conversation so far and the utterance.
pub fn assemble(
    base_system_prompt: &str,
    user_utterance: &str,
    session_id: i64,
    history: &Vec<HistoryMessage>,
    sources: &ContextSources,
) -> (r: AssembledContext)
    ensures
        r.text@ == chatml(
            enriched(base_system_prompt@, session_id, *sources),
            history@,
            user_utterance@,
        ),
        r.facts == (facts_of(*sources).len() > 0),
        r.semantic == (relevant(hits_of(*sources)).len() > 0),
        r.keyword == (matches_of(*sources, session_id).len() > 0),
        r.persona == (sources.persona is Some),
{
    let system = build_enriched_system_prompt(base_system_prompt, session_id, sources);
    let text = render_chatml(system.text.as_str(), history, user_utterance);
    AssembledContext {
        text,
        facts: system.facts,
        semantic: system.semantic,
        keyword: system.keyword,
        persona: system.persona,
    }
}

/// Every prompt begins with the system turn and ends with the opening of the
/// assistant's turn, which is left for the model to fill.
pub proof fn law_prompt_is_left_open(
    system: Seq<char>,
    history: Seq<HistoryMessage>,
    user: Seq<char>,
)
    ensures
        crate::text::has_prefix(chatml(system, history, user), "<|im_start|>system\n"@ + system),
        crate::text::has_suffix(chatml(system, history, user), "<|im_start|>assistant\n"@),
{
    let all = chatml(system, history, user);
    let head = "<|im_start|>system\n"@ + system;
    let tail = "<|im_start|>assistant\n"@;
    reveal_strlit("<|im_start|>");
    reveal_strlit("system");
    reveal_strlit("\n");
    reveal_strlit("<|im_start|>system\n");
    assert(turn("system"@, system) =~= head + "<|im_end|>\n"@);
    assert(all.subrange(0, head.len() as int) =~= head);
    assert(all.subrange(all.len() - tail.len(), all.len() as int) =~= tail);
}

/// With no fact, no hit to show, no match from another session and no
/// persona, the system prompt is the base prompt and the instruction, and
/// nothing else: no header of an empty section appears.
pub proof fn law_nothing_to_add(base: Seq<char>, session_id: i64, sources: ContextSources)
    requires
        facts_of(sources).len() == 0,
        relevant(hits_of(sources)).len() == 0,
        matches_of(sources, session_id).len() == 0,
        sources.persona is None,
    ensures
        enriched(base, session_id, sources) == base + instruction_suffix(),
{
    assert(enriched(base, session_id, sources) =~= base + instruction_suffix());
}

/// The matches from other sessions are matches of another session, each of
/// them, and there is one exactly when the store returned one.
proof fn lemma_from_other_sessions(ms: Seq<ExportMessage>, session_id: i64)
    ensures
        from_other_sessions(ms, session_id).len() <= ms.len(),
        forall|k: int|
            0 <= k < from_other_sessions(ms, session_id).len() ==> (#[trigger] from_other_sessions(
                ms,
                session_id,
            )[k]).session_id != session_id,
        from_other_sessions(ms, session_id).len() > 0 <==> exists|i: int|
            0 <= i < ms.len() && (#[trigger] ms[i]).session_id != session_id,
    decreases ms.len(),
{
    if ms.len() > 0 {
        let front = ms.drop_last();
        lemma_from_other_sessions(front, session_id);
        let f = from_other_sessions(ms, session_id);
        let before = from_other_sessions(front, session_id);
        assert forall|k: int| 0 <= k < f.len() implies (#[trigger] f[k]).session_id
            != session_id by {
            if k < before.len() {
                assert(f[k] == before[k]);
            }
        }
        if exists|i: int| 0 <= i < ms.len() && (#[trigger] ms[i]).session_id != session_id {
            let i = choose|i: int| 0 <= i < ms.len() && (#[trigger] ms[i]).session_id != session_id;
            if i < front.len() {
                assert(front[i] == ms[i]);
            }
        }
        if before.len() > 0 {
            let i = choose|i: int|
                0 <= i < front.len() && (#[trigger] front[i]).session_id != session_id;
            assert(ms[i] == front[i]);
        }
        if ms.last().session_id != session_id {
            assert(ms[ms.len() - 1].session_id != session_id);
        }
    }
}

/// The keyword section shows matches from other sessions only, at most three
/// of them, the first ones that the store returned; and it shows one exactly
/// when the store returned a match from another session, wherever among the
/// matches it stands.
pub proof fn law_other_sessions_are_shown(ms: Seq<ExportMessage>, session_id: i64)
    ensures
        at_most(from_other_sessions(ms, session_id), KEYWORD_LIMIT as int).len() <= KEYWORD_LIMIT,
        at_most(from_other_sessions(ms, session_id), KEYWORD_LIMIT as int).len() == if from_other_sessions(
            ms,
            session_id,
        ).len() < KEYWORD_LIMIT {
            from_other_sessions(ms, session_id).len()
        } else {
            KEYWORD_LIMIT as nat
        },
        forall|k: int|
            0 <= k < at_most(from_other_sessions(ms, session_id), KEYWORD_LIMIT as int).len() ==> (
            #[trigger] at_most(from_other_sessions(ms, session_id), KEYWORD_LIMIT as int)[k]).session_id
                != session_id && at_most(from_other_sessions(ms, session_id), KEYWORD_LIMIT as int)[k]
                == from_other_sessions(ms, session_id)[k],
        keyword_section(at_most(from_other_sessions(ms, session_id), KEYWORD_LIMIT as int)).len() > 0
            <==> exists|i: int| 0 <= i < ms.len() && (#[trigger] ms[i]).session_id != session_id,
{
    lemma_from_other_sessions(ms, session_id);
    let others = from_other_sessions(ms, session_id);
    let shown = at_most(others, KEYWORD_LIMIT as int);
    assert forall|k: int| 0 <= k < shown.len() implies (#[trigger] shown[k]).session_id
        != session_id && shown[k] == others[k] by {
        assert(shown[k] == others[k]);
    }
    reveal_strlit("\n");
    if shown.len() > 0 {
        assert(keyword_section(shown).len() >= "\n"@.len());
    }
}

/// Hits at or below the display floor never show: a list of such hits gives
/// no semantic section.
pub proof fn law_floor_hides_hits(rs: Seq<SearchResult>)
    requires
        forall|i: int| 0 <= i < rs.len() ==> !is_relevant(#[trigger] rs[i]),
    ensures
        relevant(rs).len() == 0,
        semantic_section(rs) == Seq::<char>::empty(),
    decreases rs.len(),
{
    if rs.len() > 0 {
        let front = rs.drop_last();
        assert forall|i: int| 0 <= i < front.len() implies !is_relevant(#[trigger] front[i]) by {
            assert(front[i] == rs[i]);
        }
        law_floor_hides_hits(front);
    }
}

/// At most three hits are shown.
pub proof fn law_at_most_three_hits(rs: Seq<SearchResult>)
    ensures
        relevant(rs).len() <= 3,
    decreases rs.len(),
{
    if rs.len() > 0 {
        law_at_most_three_hits(rs.drop_last());
    }
}

} // verus!
