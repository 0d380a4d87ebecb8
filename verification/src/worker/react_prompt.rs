use vstd::prelude::*;
use vstd::string::*;

use crate::text::{contains_spec, lemma_prompt_pieces, opt_str_view, summary_block, summary_block_spec};

verus! {

pub const REACT_PROMPT_0: &'static str = "You are a precise reasoning agent. You MUST output ONLY valid JSON matching the schema below.\n\n## Output Schema\n```json\n";
pub const REACT_PROMPT_1: &'static str = "\n```\n";
pub const REACT_PROMPT_2: &'static str = "\n\n## Response Format\nEvery response MUST have a `thought` and an `action`. The action is either:\n- `tool_name` + `tool_input` — call a tool to get information\n- `answer` — provide the FINAL answer to the user\n\n## Available Tools\n";
pub const REACT_PROMPT_3: &'static str = "\n\n## Critical Rules\n\n1. OUTPUT ONE JSON OBJECT per response — bare JSON only.\n2. Use `tool_name`/`tool_input` ONLY when you need external information you don't already have.\n3. Use `answer` IMMEDIATELY when you know the response. Do NOT call tools for simple conversation.\n4. After a tool returns a result, produce `answer` with that result.\n\n## Examples\n\nUser: \"What is 2+2?\"\nResponse: {\"thought\": \"Simple arithmetic, answer is 4\", \"action\": {\"answer\": \"2+2 = 4\"}}\n\nUser: \"What is 2+2*3?\"\nResponse: {\"thought\": \"Need to calculate 2+2*3, multiplication first\", \"action\": {\"tool_name\": \"calculate\", \"tool_input\": \"2+2*3\"}}\n... tool returns 8 ...\nResponse: {\"thought\": \"Got result 8\", \"action\": {\"answer\": \"2+2*3 = 8\"}}\n\nUser: \"Hello\"\nResponse: {\"thought\": \"Casual greeting\", \"action\": {\"answer\": \"Hello! How can I help?\"}}\n";

/// The system prompt of the thought-and-action agent: the fixed text with the JSON schema, the conversation summary block and the tool
/// descriptions put in.
pub open spec fn react_prompt_spec(tools: Seq<char>, summary: Option<Seq<char>>, schema: Seq<char>) -> Seq<char> {
    REACT_PROMPT_0@ + schema + REACT_PROMPT_1@ + summary_block_spec(summary) + REACT_PROMPT_2@ + tools + REACT_PROMPT_3@
}

/// The system prompt of the thought-and-action agent (see `react_prompt_spec`); `schema_text` is the JSON schema of the expected reply.
pub fn build_system_prompt(tool_descriptions: &str, summary: Option<&str>, schema_text: &str) -> (r: String)
    ensures
        r@ == react_prompt_spec(tool_descriptions@, opt_str_view(summary), schema_text@),
{
    let block = summary_block(summary);
    let mut s = REACT_PROMPT_0.to_string();
    s.append(schema_text);
    s.append(REACT_PROMPT_1);
    s.append(block.as_str());
    s.append(REACT_PROMPT_2);
    s.append(tool_descriptions);
    s.append(REACT_PROMPT_3);
    s
}

/// The system prompt of the thought-and-action agent holds the tool descriptions, the
/// schema and, for a non-empty summary, the summary's block; an empty summary gives the same
/// prompt as none.
pub proof fn lemma_react_prompt_contents(tools: Seq<char>, summary: Option<Seq<char>>, schema: Seq<char>)
    ensures
        contains_spec(react_prompt_spec(tools, summary, schema), tools),
        contains_spec(react_prompt_spec(tools, summary, schema), schema),
        (summary matches Some(s) && s.len() > 0) ==> contains_spec(
            react_prompt_spec(tools, summary, schema),
            "\n## Conversation Summary\n"@ + summary->0 + "\n"@,
        ),
        react_prompt_spec(tools, Some(Seq::empty()), schema) == react_prompt_spec(tools, None, schema),
{
    lemma_prompt_pieces(REACT_PROMPT_0@, REACT_PROMPT_1@, REACT_PROMPT_2@, REACT_PROMPT_3@, tools, summary, schema);
}

} // verus!
