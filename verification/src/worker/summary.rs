use vstd::prelude::*;
use vstd::string::*;

use crate::nlp::{lowercase_of, to_lowercase};
use vstd::utf8::encode_utf8;
use crate::text::{contains_spec, contains_str, opt_str_view};
use crate::worker::model::{ChatRole, Message, role_name};
use crate::worker::timeline::messages_view;

verus! {

pub const PREVIOUS_SUMMARY_0: &'static str = "\n## Previous Context Summary\n";
pub const PREVIOUS_SUMMARY_1: &'static str = "\n\nYou MUST incorporate and build upon this previous summary. Do NOT repeat it verbatim, but extend it with new information from the conversation below.\n";
pub const SUMMARIZATION_PROMPT_0: &'static str = "You are an expert conversation analyst. Your task is to create a concise, informative summary of the conversation below.\n\n## CRITICAL INSTRUCTIONS\n\nYou MUST create a NARRATIVE SUMMARY - a paragraph that describes what was discussed, NOT a transcript or dialogue format.\n\n### What a summary IS:\n- A narrative paragraph describing the conversation\n- Written in third person (e.g., \"The user asked about...\", \"The assistant explained...\")\n- 2-4 sentences capturing key topics, decisions, and important context\n- Focused on main points, not every detail\n\n### What a summary is NOT:\n- NOT a conversation transcript\n- NOT in dialogue format (user/assistant pairs)\n- NOT a list of messages\n- NOT using JSON keys like \"user\", \"assistant\", \"messages\"\n\n## EXAMPLES\n\n### GOOD EXAMPLE (correct format):\nInput conversation:\n[user]: What's the weather like today?\n[assistant]: It's sunny and 72°F with clear skies.\n[user]: Should I bring an umbrella?\n[assistant]: No, the forecast shows 0% chance of rain all day.\n\nCorrect summary output:\n{\"thought\": \"User asked about weather and whether to bring umbrella\", \"answer\": \"The user inquired about today's weather conditions and learned it was sunny at 72 degrees with clear skies. The assistant confirmed no rain was expected, so an umbrella was unnecessary.\"}\n\n### BAD EXAMPLE (incorrect format - DO NOT DO THIS):\nBad summary output:\n{\"user\": \"What's the weather?\", \"assistant\": \"It's sunny\"}\nOR\n{\"messages\": [{\"role\": \"user\", \"content\": \"What's the weather?\"}]}\n\nThese are WRONG because they echo the conversation format instead of summarizing it.\n\n";
pub const SUMMARIZATION_PROMPT_1: &'static str = "\n## Conversation to Summarize\n\n";
pub const SUMMARIZATION_PROMPT_2: &'static str = "\n\n## Your Task\n\nCreate a concise narrative summary (2-4 sentences) that captures:\n- Main topics discussed\n- Key decisions or conclusions reached\n- Important context needed for future reference\n\n## Required Output Format\n\nReturn ONLY a JSON object with exactly these two fields:\n{\"thought\": \"brief reasoning about what was discussed\", \"answer\": \"narrative summary paragraph\"}\n\nCRITICAL: The \"answer\" field MUST be a narrative paragraph, NOT a conversation format. Do NOT use keys like \"user\", \"assistant\", \"messages\", or \"dialogue\" in your output.\n\nReturn ONLY the JSON object, no other text.";

/// A summary is due when the conversation has grown past `history_max` messages by a
/// multiple of `interval`.
pub open spec fn should_summarize_spec(total: u64, history_max: u32, interval: u32) -> bool {
    total > history_max && (total - history_max) % (interval as int) == 0
}

/// Whether a summary is due (see `should_summarize_spec`).
pub fn should_summarize(total: u64, history_max: u32, interval: u32) -> (r: bool)
    requires
        total > history_max ==> interval > 0,
    ensures
        r == should_summarize_spec(total, history_max, interval),
{
    total > history_max as u64 && (total - history_max as u64) % interval as u64 == 0
}

/// One line of the transcript: "[role]: content".
pub open spec fn transcript_line(m: (ChatRole, Seq<char>)) -> Seq<char> {
    "["@ + role_name(m.0) + "]: "@ + m.1
}

/// The transcript: one line per message, joined by new lines.
pub open spec fn transcript(ms: Seq<(ChatRole, Seq<char>)>) -> Seq<char>
    decreases ms.len(),
{
    if ms.len() == 0 {
        Seq::empty()
    } else if ms.len() == 1 {
        transcript_line(ms[0])
    } else {
        transcript(ms.drop_last()) + "\n"@ + transcript_line(ms.last())
    }
}

/// The section that carries an earlier summary into the prompt; empty when there is none or
/// it is empty.
pub open spec fn previous_section_spec(existing: Option<Seq<char>>) -> Seq<char> {
    match existing {
        Some(s) => if s.len() > 0 {
            PREVIOUS_SUMMARY_0@ + s + PREVIOUS_SUMMARY_1@
        } else {
            Seq::empty()
        },
        None => Seq::empty(),
    }
}

/// The summarization prompt: the fixed instructions with the earlier summary section and the
/// transcript put in.
pub open spec fn summarization_prompt_spec(ms: Seq<(ChatRole, Seq<char>)>, existing: Option<Seq<char>>) -> Seq<char> {
    SUMMARIZATION_PROMPT_0@ + previous_section_spec(existing) + SUMMARIZATION_PROMPT_1@ + transcript(ms)
        + SUMMARIZATION_PROMPT_2@
}

/// The prompt that asks the model to summarize `messages`, building on `existing_summary`
/// (see `summarization_prompt_spec`).
pub fn build_summarization_prompt(messages: &Vec<Message>, existing_summary: Option<&str>) -> (r: String)
    ensures
        r@ == summarization_prompt_spec(messages_view(messages@), opt_str_view(existing_summary)),
{
    let ghost ms = messages_view(messages@);
    let mut text = String::new();
    for i in 0..messages.len()
        invariant
            ms == messages_view(messages@),
            text@ == transcript(ms.take(i as int)),
    {
        proof {
            assert(ms.take(i + 1).drop_last() == ms.take(i as int));
            assert(ms.take(i + 1).last() == (messages@[i as int].role, messages@[i as int].content@));
        }
        if i > 0 {
            text.append("\n");
        }
        text.append("[");
        let name = messages[i].role.name();
        text.append(name.as_str());
        text.append("]: ");
        text.append(messages[i].content.as_str());
        proof {
            if i == 0 {
                assert(ms.take(1).len() == 1);
            }
        }
    }
    assert(ms.take(messages@.len() as int) == ms);
    let section = match existing_summary {
        Some(s) => {
            if !s.is_empty() {
                let mut b = PREVIOUS_SUMMARY_0.to_string();
                b.append(s);
                b.append(PREVIOUS_SUMMARY_1);
                b
            } else {
                String::new()
            }
        },
        None => String::new(),
    };
    let mut r = SUMMARIZATION_PROMPT_0.to_string();
    r.append(section.as_str());
    r.append(SUMMARIZATION_PROMPT_1);
    r.append(text.as_str());
    r.append(SUMMARIZATION_PROMPT_2);
    r
}

/// The key patterns that betray a transcript echoed back instead of a summary.
pub open spec fn forbidden_patterns() -> Seq<Seq<char>> {
    seq!["\"user\""@, "\"assistant\""@, "\"messages\""@, "\"dialogue\""@, "\"conversation\""@]
}

/// How many of `pats` occur in `text`.
pub open spec fn count_contained(text: Seq<char>, pats: Seq<Seq<char>>) -> nat
    decreases pats.len(),
{
    if pats.len() == 0 {
        0
    } else {
        count_contained(text, pats.drop_last()) + if contains_spec(text, pats.last()) {
            1nat
        } else {
            0nat
        }
    }
}

/// A summary is valid unless its lower-case form holds two or more of the forbidden
/// patterns, or holds both "\"role\"" and "\"content\"", or it takes fewer than 20 bytes.
pub open spec fn valid_summary_spec(summary: Seq<char>) -> bool {
    let lower = lowercase_of(summary);
    &&& count_contained(lower, forbidden_patterns()) < 2
    &&& !(contains_spec(lower, "\"role\""@) && contains_spec(lower, "\"content\""@))
    &&& encode_utf8(summary).len() >= 20
}

/// A summary is refused when it takes fewer than 20 bytes, when its lower-case form holds
/// both "\"role\"" and "\"content\"", or when that form holds two different ones of
/// "\"user\"", "\"assistant\"", "\"messages\"", "\"dialogue\"" and "\"conversation\"";
/// every other summary is accepted.
pub proof fn lemma_valid_summary(summary: Seq<char>)
    ensures
        ({
            let lower = lowercase_of(summary);
            let pats = seq!["\"user\""@, "\"assistant\""@, "\"messages\""@, "\"dialogue\""@, "\"conversation\""@];
            let two = exists|a: int, b: int|
                0 <= a < b < 5 && #[trigger] contains_spec(lower, pats[a]) && #[trigger] contains_spec(lower, pats[b]);
            let role_content = contains_spec(lower, "\"role\""@) && contains_spec(lower, "\"content\""@);
            valid_summary_spec(summary) <==> (encode_utf8(summary).len() >= 20 && !role_content && !two)
        }),
{
    let lower = lowercase_of(summary);
    let pats = seq!["\"user\""@, "\"assistant\""@, "\"messages\""@, "\"dialogue\""@, "\"conversation\""@];
    let p = forbidden_patterns();
    assert(p == pats);
    reveal_with_fuel(count_contained, 6);
    assert(p.drop_last() == pats.take(4));
    assert(p.drop_last().drop_last() == pats.take(3));
    assert(pats.take(4).drop_last() == pats.take(3));
    assert(pats.take(3).drop_last() == pats.take(2));
    assert(pats.take(2).drop_last() == pats.take(1));
    assert(pats.take(1).drop_last() == pats.take(0));
    assert(pats.take(4).last() == pats[3]);
    assert(pats.take(3).last() == pats[2]);
    assert(pats.take(2).last() == pats[1]);
    assert(pats.take(1).last() == pats[0]);
    let c = |k: int| contains_spec(lower, pats[k]);
    assert(count_contained(lower, p) == (if c(0) { 1nat } else { 0nat }) + (if c(1) { 1nat } else { 0nat }) + (
    if c(2) { 1nat } else { 0nat }) + (if c(3) { 1nat } else { 0nat }) + (if c(4) { 1nat } else { 0nat }));
}

/// Whether a summary reads as a narrative rather than an echoed transcript (see
/// `valid_summary_spec`).
pub fn is_valid_summary(summary: &str) -> (r: bool)
    ensures
        r == valid_summary_spec(summary@),
{
    let lower = to_lowercase(summary);
    let l = lower.as_str();
    let mut pats: Vec<&str> = Vec::new();
    pats.push("\"user\"");
    pats.push("\"assistant\"");
    pats.push("\"messages\"");
    pats.push("\"dialogue\"");
    pats.push("\"conversation\"");
    let ghost pv = pats@.map_values(|p: &str| p@);
    assert(pv =~= forbidden_patterns());
    let mut count: usize = 0;
    for i in 0..pats.len()
        invariant
            pats@.len() == 5,
            l@ == lower@,
            pv == pats@.map_values(|p: &str| p@),
            count as nat == count_contained(lower@, pv.take(i as int)),
            count <= i,
    {
        proof {
            assert(pv.take(i + 1).drop_last() == pv.take(i as int));
            assert(pv.take(i + 1).last() == pats@[i as int]@);
        }
        let pat: &str = pats[i];
        assert(pat@ == pv[i as int]);
        let b = contains_str(l, pat);
        assert(l@ == lower@);
        assert(b == contains_spec(lower@, pv.take(i + 1).last()));
        if b {
            count = count + 1;
        }
    }
    assert(pv.take(5) == pv);
    if count >= 2 {
        return false;
    }
    if contains_str(l, "\"role\"") && contains_str(l, "\"content\"") {
        return false;
    }
    if summary.as_bytes().len() < 20 {
        return false;
    }
    true
}

/// The summary to store from the model's reply: the parsed answer when the reply parsed,
/// else the raw reply.
pub fn summary_from_reply(parsed_answer: Option<String>, raw_text: String) -> (r: String)
    ensures
        r@ == (match parsed_answer {
            Some(a) => a@,
            None => raw_text@,
        }),
{
    match parsed_answer {
        Some(a) => a,
        None => raw_text,
    }
}

/// The messages to summarize now, when a summary is due: of the messages older than the last
/// `history_max`, the last `interval`.
pub open spec fn summary_batch_spec(total: u64, ms: Seq<Message>, history_max: u32, interval: u32) -> Option<Seq<Message>> {
    if !should_summarize_spec(total, history_max, interval) || ms.len() <= history_max {
        None
    } else {
        let older = ms.take(ms.len() - history_max);
        let batch = older.skip(older.len() - interval);
        if batch.len() == 0 {
            None
        } else {
            Some(batch)
        }
    }
}

/// A batch is returned exactly when a summary is due, there are more messages than are
/// kept, and `interval` is not zero; it then ends where the kept last `history_max` messages
/// begin and holds the `interval` messages just before them.
pub proof fn lemma_summary_batch_precedes_kept(total: u64, ms: Seq<Message>, history_max: u32, interval: u32)
    requires
        should_summarize_spec(total, history_max, interval) && ms.len() > history_max ==> ms.len() - history_max
            >= interval,
    ensures
        summary_batch_spec(total, ms, history_max, interval) is Some <==> (total > history_max && (total
            - history_max) % (interval as int) == 0 && ms.len() > history_max && interval > 0),
        summary_batch_spec(total, ms, history_max, interval) matches Some(b) ==> b.len() == interval && b
            == ms.subrange(ms.len() - history_max - interval, ms.len() - history_max),
{
    if should_summarize_spec(total, history_max, interval) && ms.len() > history_max {
        let older = ms.take(ms.len() - history_max);
        assert(older.skip(older.len() - interval) =~= ms.subrange(
            ms.len() - history_max - interval,
            ms.len() - history_max,
        ));
    }
}

/// The batch of older messages to summarize, if a summary is due (see `summary_batch_spec`).
pub fn summary_batch(total: u64, messages: &Vec<Message>, history_max: u32, interval: u32) -> (r: Option<Vec<Message>>)
    requires
        total > history_max ==> interval > 0,
        should_summarize_spec(total, history_max, interval) && messages@.len() > history_max
            ==> messages@.len() - history_max >= interval,
    ensures
        match (r, summary_batch_spec(total, messages@, history_max, interval)) {
            (Some(v), Some(s)) => v@ == s,
            (None, None) => true,
            _ => false,
        },
{
    if !should_summarize(total, history_max, interval) {
        return None;
    }
    let keep = history_max as usize;
    let n = messages.len();
    if n <= keep {
        return None;
    }
    let older_len = n - keep;
    let start = older_len - interval as usize;
    if start == older_len {
        return None;
    }
    let mut batch: Vec<Message> = Vec::new();
    let mut i: usize = start;
    while i < older_len
        invariant
            start <= i <= older_len <= n == messages@.len(),
            batch@.len() == i - start,
            forall|k: int| 0 <= k < batch@.len() ==> #[trigger] batch@[k] == messages@[start + k],
        decreases older_len - i,
    {
        batch.push(Message { role: messages[i].role, content: messages[i].content.clone() });
        i = i + 1;
    }
    assert(batch@ =~= messages@.take(older_len as int).skip(start as int));
    Some(batch)
}

} // verus!
