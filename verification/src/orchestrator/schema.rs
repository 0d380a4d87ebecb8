use vstd::prelude::*;
use vstd::string::*;

use crate::text::{chars_of, ends_with_chars, ends_with_spec, find_chars, find_spec, lemma_find_from_occurs, starts_with_chars, starts_with_spec, substring, suffix_from, take_chars, trim, trim_spec, views};
use crate::worker::model::AgentAction;

verus! {

/// What the agent said it thinks and what it decided to do.
pub trait AgentResponse {
    /// The action, as the contracts speak of it.
    spec fn action_spec(&self) -> AgentAction;

    /// The thought, as the contracts speak of it.
    spec fn thought_spec(&self) -> Seq<char>;

    fn action(&self) -> (r: AgentAction)
        ensures
            r == self.action_spec(),
    ;

    fn thought(&self) -> (r: String)
        ensures
            r@ == self.thought_spec(),
    ;
}

/// The reply of a ReAct step.
#[derive(Debug)]
pub struct ReActAgentResponse {
    pub thought: String,
    pub action: AgentAction,
}

impl AgentResponse for ReActAgentResponse {
    open spec fn action_spec(&self) -> AgentAction {
        self.action
    }

    open spec fn thought_spec(&self) -> Seq<char> {
        self.thought@
    }

    fn action(&self) -> (r: AgentAction)
        ensures
            r == self.action,
    {
        self.action.duplicate()
    }

    fn thought(&self) -> (r: String)
        ensures
            r@ == self.thought@,
    {
        self.thought.clone()
    }
}

/// The reply of the routing stage of the cascade.
#[derive(Debug)]
pub struct PreRetrievalResponse {
    pub intent: String,
    pub information_gap: String,
    pub action: AgentAction,
}

impl AgentResponse for PreRetrievalResponse {
    open spec fn action_spec(&self) -> AgentAction {
        self.action
    }

    open spec fn thought_spec(&self) -> Seq<char> {
        "INTENT:\n"@ + self.intent@ + "\n\nINFORMATION GAP:\n"@ + self.information_gap@
    }

    fn action(&self) -> (r: AgentAction)
        ensures
            r == self.action,
    {
        self.action.duplicate()
    }

    fn thought(&self) -> (r: String)
        ensures
            r@ == "INTENT:\n"@ + self.intent@ + "\n\nINFORMATION GAP:\n"@ + self.information_gap@,
    {
        let mut s = "INTENT:\n".to_string();
        s.append(self.intent.as_str());
        s.append("\n\nINFORMATION GAP:\n");
        s.append(self.information_gap.as_str());
        s
    }
}

/// The reply of the synthesis stage of the cascade.
#[derive(Debug)]
pub struct PostRetrievalResponse {
    pub context_evaluating: String,
    pub self_questions: String,
    pub self_answers: String,
    pub final_answer: String,
}

impl AgentResponse for PostRetrievalResponse {
    open spec fn action_spec(&self) -> AgentAction {
        AgentAction::Finish { answer: self.final_answer }
    }

    open spec fn thought_spec(&self) -> Seq<char> {
        "CONTEXT EVALUATING:\n"@ + self.context_evaluating@ + "\n\nSELF QUESTIONS:\n"@
            + self.self_questions@ + "\n\nSELF ANSWERS:\n"@ + self.self_answers@
    }

    fn action(&self) -> (r: AgentAction)
        ensures
            r == (AgentAction::Finish { answer: self.final_answer }),
    {
        AgentAction::Finish { answer: self.final_answer.clone() }
    }

    fn thought(&self) -> (r: String)
        ensures
            r@ == "CONTEXT EVALUATING:\n"@ + self.context_evaluating@ + "\n\nSELF QUESTIONS:\n"@
                + self.self_questions@ + "\n\nSELF ANSWERS:\n"@ + self.self_answers@,
    {
        let mut s = "CONTEXT EVALUATING:\n".to_string();
        s.append(self.context_evaluating.as_str());
        s.append("\n\nSELF QUESTIONS:\n");
        s.append(self.self_questions.as_str());
        s.append("\n\nSELF ANSWERS:\n");
        s.append(self.self_answers.as_str());
        s
    }
}

/// `raw` without a leading "```json" (or else "```") and a trailing "```", trimmed.
pub open spec fn strip_fences_spec(raw: Seq<char>) -> Seq<char> {
    let w = if starts_with_spec(raw, "```json"@) {
        raw.skip("```json"@.len() as int)
    } else if starts_with_spec(raw, "```"@) {
        raw.skip("```"@.len() as int)
    } else {
        raw
    };
    let w2 = if ends_with_spec(w, "```"@) {
        w.take(w.len() - "```"@.len())
    } else {
        w
    };
    trim_spec(w2)
}

/// Removes a Markdown code fence around a reply (see `strip_fences_spec`).
pub fn strip_markdown_fences(raw: &str) -> (r: String)
    ensures
        r@ == strip_fences_spec(raw@),
{
    let rc = chars_of(raw);
    let json_fence = chars_of("```json");
    let fence = chars_of("```");
    let w = if starts_with_chars(&rc, &json_fence) {
        suffix_from(raw, json_fence.len())
    } else if starts_with_chars(&rc, &fence) {
        suffix_from(raw, fence.len())
    } else {
        raw.to_string()
    };
    let wc = chars_of(w.as_str());
    let w2 = if ends_with_chars(&wc, &fence) {
        let s = substring(w.as_str(), 0, wc.len() - fence.len());
        assert(w@.subrange(0, wc@.len() - fence@.len()) == w@.take(w@.len() - "```"@.len()));
        s
    } else {
        w
    };
    trim(w2.as_str())
}

/// The piece of `text` between `prefix` and `suffix` that is handed to the JSON parser: all
/// of `text` when both are empty; else what follows the first `prefix` (or the start) up to
/// the first `suffix` after it (or the end), trimmed.
pub open spec fn slice_between_spec(text: Seq<char>, prefix: Seq<char>, suffix: Seq<char>) -> Seq<char> {
    if prefix.len() == 0 && suffix.len() == 0 {
        text
    } else {
        let start = match find_spec(text, prefix) {
            Some(i) => i + prefix.len(),
            None => 0,
        };
        let after = text.skip(start);
        let end = match find_spec(after, suffix) {
            Some(j) => j,
            None => after.len() as int,
        };
        trim_spec(after.take(end))
    }
}

/// The piece of `text` between `prefix` and `suffix` (see `slice_between_spec`).
pub fn json_slice_between(text: &str, prefix: &str, suffix: &str) -> (r: String)
    ensures
        r@ == slice_between_spec(text@, prefix@, suffix@),
{
    let pc = chars_of(prefix);
    let sc = chars_of(suffix);
    if pc.len() == 0 && sc.len() == 0 {
        return text.to_string();
    }
    let tc = chars_of(text);
    let tn = tc.len();
    let start = match find_chars(&tc, &pc) {
        Some(i) => {
            proof {
                lemma_find_from_occurs(text@, prefix@, 0);
            }
            assert(i + pc@.len() <= tn);
            i + pc.len()
        },
        None => 0,
    };
    let after = suffix_from(text, start);
    let ac = chars_of(after.as_str());
    let end = match find_chars(&ac, &sc) {
        Some(j) => {
            proof {
                lemma_find_from_occurs(after@, suffix@, 0);
            }
            j
        },
        None => ac.len(),
    };
    let piece = substring(after.as_str(), 0, end);
    assert(after@.subrange(0, end as int) == after@.take(end as int));
    trim(piece.as_str())
}

/// The texts that are tried, in order, as the JSON of a reply: the reply without its code
/// fence, the part inside a "```json" block, the part inside a "```" block, and the reply
/// without its code fence once more.
pub open spec fn json_candidates_spec(raw: Seq<char>) -> Seq<Seq<char>> {
    let cleaned = strip_fences_spec(trim_spec(raw));
    seq![
        cleaned,
        slice_between_spec(cleaned, "```json\n"@, "\n```"@),
        slice_between_spec(cleaned, "```\n"@, "\n```"@),
        slice_between_spec(cleaned, ""@, ""@),
    ]
}

/// The four candidates of a reply, in order: the reply without its code fence (the cleaned
/// reply); the text inside its first "```json" block, that is from just after the first
/// "```json" and line break up to the next line break and "```" (or to the end), trimmed;
/// the same for its first "```" block; and the cleaned reply once more. A reply with prose
/// before a "```json" block thus has the block's content among its candidates.
pub proof fn lemma_json_candidates_blocks(raw: Seq<char>)
    ensures
        ({
            let cleaned = strip_fences_spec(trim_spec(raw));
            let c = json_candidates_spec(raw);
            let close = "\n```"@;
            &&& c.len() == 4
            &&& c[0] == cleaned
            &&& c[3] == cleaned
            &&& forall|i: int|
                find_spec(cleaned, "```json\n"@) == Some(i) ==> {
                    let after = cleaned.skip(i + "```json\n"@.len());
                    c[1] == trim_spec(after.take(
                        match find_spec(after, close) {
                            Some(j) => j,
                            None => after.len() as int,
                        },
                    ))
                }
            &&& forall|i: int|
                find_spec(cleaned, "```\n"@) == Some(i) ==> {
                    let after = cleaned.skip(i + "```\n"@.len());
                    c[2] == trim_spec(after.take(
                        match find_spec(after, close) {
                            Some(j) => j,
                            None => after.len() as int,
                        },
                    ))
                }
        }),
{
    reveal_strlit("```json\n");
    reveal_strlit("```\n");
    reveal_strlit("");
}

/// The texts to try as the JSON of a reply, in order (see `json_candidates_spec`).
pub fn json_candidates(raw: &str) -> (r: Vec<String>)
    ensures
        views(r@) == json_candidates_spec(raw@),
{
    let t = trim(raw);
    let cleaned = strip_markdown_fences(t.as_str());
    let c = cleaned.as_str();
    let mut r: Vec<String> = Vec::new();
    r.push(cleaned.clone());
    r.push(json_slice_between(c, "```json\n", "\n```"));
    r.push(json_slice_between(c, "```\n", "\n```"));
    r.push(json_slice_between(c, "", ""));
    assert(views(r@) =~= json_candidates_spec(raw@));
    r
}

/// What is reported when no candidate parses: the first 200 characters of the reply without
/// its code fence.
pub fn error_preview(raw: &str) -> (r: String)
    ensures
        r@ == (if strip_fences_spec(trim_spec(raw@)).len() <= 200 {
            strip_fences_spec(trim_spec(raw@))
        } else {
            strip_fences_spec(trim_spec(raw@)).take(200)
        }),
{
    let t = trim(raw);
    let cleaned = strip_markdown_fences(t.as_str());
    let r = take_chars(cleaned.as_str(), 200);
    assert(cleaned@.len() <= 200 ==> cleaned@.take(cleaned@.len() as int) == cleaned@);
    r
}

} // verus!
