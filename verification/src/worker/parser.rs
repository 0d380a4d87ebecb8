use vstd::prelude::*;
use vstd::string::*;

use crate::text::{chars_of, find_chars, find_spec, lemma_find_from_occurs, lemma_trim_idempotent, opt_view, substring, suffix_from, trim, trim_spec};

verus! {

/// What a ReAct-style completion asks for.
#[derive(Debug, PartialEq)]
pub enum AgentAction {
    FinalAnswer(String),
    Continue(String),
}

/// The text between the first `start` and the first `end` after it, trimmed.
pub open spec fn between_spec(text: Seq<char>, start: Seq<char>, end: Seq<char>) -> Option<Seq<char>> {
    match find_spec(text, start) {
        None => None,
        Some(i) => {
            let after = text.skip(i + start.len());
            match find_spec(after, end) {
                None => None,
                Some(j) => Some(trim_spec(after.take(j))),
            }
        },
    }
}

/// The text after the first `start`, trimmed, when that is not empty.
pub open spec fn to_end_spec(text: Seq<char>, start: Seq<char>) -> Option<Seq<char>> {
    match find_spec(text, start) {
        None => None,
        Some(i) => {
            let content = trim_spec(text.skip(i + start.len()));
            if content.len() == 0 {
                None
            } else {
                Some(content)
            }
        },
    }
}

/// The thought of a completion (already trimmed): what follows "Thought:" up to "\nAction",
/// else up to "\nFinal", else up to the end; none when that is empty.
pub open spec fn thought_spec(out: Seq<char>) -> Option<Seq<char>> {
    let t = match between_spec(out, "Thought:"@, "\nAction"@) {
        Some(s) => Some(s),
        None => match between_spec(out, "Thought:"@, "\nFinal"@) {
            Some(s) => Some(s),
            None => to_end_spec(out, "Thought:"@),
        },
    };
    match t {
        Some(s) => if s.len() > 0 { Some(s) } else { None },
        None => None,
    }
}

/// The view of a parsed action: whether it is a final answer, and its text.
pub open spec fn action_view(a: AgentAction) -> (bool, Seq<char>) {
    match a {
        AgentAction::FinalAnswer(s) => (true, s@),
        AgentAction::Continue(s) => (false, s@),
    }
}

/// The action of a completion: the trimmed text after "Final Answer:" when there is one,
/// else the whole trimmed completion to continue from.
pub open spec fn action_spec(input: Seq<char>) -> (bool, Seq<char>) {
    let out = trim_spec(input);
    match to_end_spec(out, "Final Answer:"@) {
        Some(answer) => (true, trim_spec(answer)),
        None => (false, out),
    }
}

/// A completion that holds "Final Answer:" with some text after it asks to finish: the
/// answer is everything after the first "Final Answer:" of the trimmed completion, line
/// breaks included, trimmed. Any other completion asks to continue from the whole trimmed
/// completion.
pub proof fn lemma_final_answer_to_end(output: Seq<char>)
    ensures
        ({
            let out = trim_spec(output);
            let marker = "Final Answer:"@;
            match find_spec(out, marker) {
                Some(i) => if trim_spec(out.skip(i + marker.len())).len() > 0 {
                    action_spec(output) == (true, trim_spec(out.skip(i + marker.len())))
                } else {
                    action_spec(output) == (false, out)
                },
                None => action_spec(output) == (false, out),
            }
        }),
{
    let out = trim_spec(output);
    let marker = "Final Answer:"@;
    if let Some(i) = find_spec(out, marker) {
        lemma_trim_idempotent(out.skip(i + marker.len()));
    }
}

/// The thought of a trimmed completion is taken after its first "Thought:": up to the first
/// "\nAction" after that, else up to the first "\nFinal" after that, else up to the end,
/// trimmed; there is none when the completion has no "Thought:" or that text is empty.
pub proof fn lemma_thought_after_marker(out: Seq<char>)
    ensures
        ({
            let marker = "Thought:"@;
            match find_spec(out, marker) {
                None => thought_spec(out) is None,
                Some(i) => {
                    let after = out.skip(i + marker.len());
                    let piece = match find_spec(after, "\nAction"@) {
                        Some(j) => trim_spec(after.take(j)),
                        None => match find_spec(after, "\nFinal"@) {
                            Some(j) => trim_spec(after.take(j)),
                            None => trim_spec(after),
                        },
                    };
                    thought_spec(out) == if piece.len() > 0 {
                        Some(piece)
                    } else {
                        None::<Seq<char>>
                    }
                },
            }
        }),
{
}

/// The trimmed text between the first `start` and the first `end` after it.
pub fn extract_between(text: &str, start: &str, end: &str) -> (r: Option<String>)
    ensures
        opt_view(r) == between_spec(text@, start@, end@),
{
    let tc = chars_of(text);
    let sc = chars_of(start);
    match find_chars(&tc, &sc) {
        None => None,
        Some(i) => {
            proof {
                lemma_find_from_occurs(text@, start@, 0);
            }
            let tn = tc.len();
            assert(i + sc@.len() <= tn);
            let after = suffix_from(text, i + sc.len());
            let ac = chars_of(after.as_str());
            let ec = chars_of(end);
            match find_chars(&ac, &ec) {
                None => None,
                Some(j) => {
                    proof {
                        lemma_find_from_occurs(after@, end@, 0);
                    }
                    let piece = substring(after.as_str(), 0, j);
                    assert(after@.subrange(0, j as int) == after@.take(j as int));
                    Some(trim(piece.as_str()))
                },
            }
        },
    }
}

/// The trimmed text after the first `start`, when it is not empty.
pub fn extract_between_to_end(text: &str, start: &str) -> (r: Option<String>)
    ensures
        opt_view(r) == to_end_spec(text@, start@),
{
    let tc = chars_of(text);
    let sc = chars_of(start);
    match find_chars(&tc, &sc) {
        None => None,
        Some(i) => {
            proof {
                lemma_find_from_occurs(text@, start@, 0);
            }
            let tn = tc.len();
            assert(i + sc@.len() <= tn);
            let after = suffix_from(text, i + sc.len());
            let content = trim(after.as_str());
            if content.as_str().is_empty() {
                None
            } else {
                Some(content)
            }
        },
    }
}

/// Splits a ReAct-style completion into its thought and what to do next (see
/// `thought_spec` and `action_spec`).
pub fn parse_agent_output(output: &str) -> (r: (Option<String>, AgentAction))
    ensures
        opt_view(r.0) == thought_spec(trim_spec(output@)),
        action_view(r.1) == action_spec(output@),
{
    let out = trim(output);
    let o = out.as_str();
    let t1 = extract_between(o, "Thought:", "\nAction");
    let t = match t1 {
        Some(s) => Some(s),
        None => match extract_between(o, "Thought:", "\nFinal") {
            Some(s) => Some(s),
            None => extract_between_to_end(o, "Thought:"),
        },
    };
    let thought = match t {
        Some(s) => if s.as_str().is_empty() { None } else { Some(s) },
        None => None,
    };
    match extract_between_to_end(o, "Final Answer:") {
        Some(answer) => (thought, AgentAction::FinalAnswer(trim(answer.as_str()))),
        None => (thought, AgentAction::Continue(out.clone())),
    }
}

} // verus!
