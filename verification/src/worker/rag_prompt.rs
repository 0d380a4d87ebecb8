use vstd::prelude::*;
use vstd::string::*;

use crate::text::{contains_spec, lemma_prompt_pieces, opt_str_view, summary_block, summary_block_spec};

verus! {

pub const RAG_PROMPT_0: &'static str = "You are a precise reasoning agent. You MUST output ONLY valid JSON matching the schema below.\n\n## Output Schema\n```json\n";
pub const RAG_PROMPT_1: &'static str = "\n```\n";
pub const RAG_PROMPT_2: &'static str = "\n\n## Response Types\n\n1. `think` — INTERMEDIATE reasoning only. Use this when you genuinely need to:\n   - Invoke a tool (`next_action: execute_tool`)\n   - Break down a complex problem into smaller steps\n   IMPORTANT: Do NOT use `think` to state the answer. If the answer is already known, skip directly to `final_answer`.\n\n2. `final_answer` — provide the FINAL answer to the user. This is the ONLY way to respond to the user. Every interaction MUST end with a `final_answer`.\n\n## Available Tools\n";
pub const RAG_PROMPT_3: &'static str = "\n\n## Critical Rules\n\n1. END THE CONVERSATION: Use `final_answer` as soon as you know the answer. Never keep thinking after the answer is clear.\n2. If no tool is needed and the answer is straightforward, produce `final_answer` immediately.\n3. After a tool returns a result, produce `final_answer` with that result. Do NOT re-invoke the same tool.\n4. Do NOT state the actual answer inside a `think` block. Use `think` only for intermediate reasoning.\n5. Output exactly ONE JSON object per response — bare JSON only.\n\n## Example\n\nUser: \"What is 2+2?\"\nResponse: {\"answer\": \"2+2 = 4\"}\n\nUser: \"What is 2+2*3?\"\nResponse: {\"thought\": \"I need to calculate 2+2*3, multiplication first\", \"next_action\": {\"tool_name\": \"calculate\", \"tool_input\": \"2+2*3\"}}\n... tool returns 8 ...\nResponse: {\"answer\": \"2+2*3 = 8\"}\n\n## Reminder\n- If you know the answer, output `final_answer` NOW. Do NOT overthink.";

/// The system prompt of the RAG agent loop: the fixed text with the JSON schema, the conversation summary block and the tool
/// descriptions put in.
pub open spec fn rag_prompt_spec(tools: Seq<char>, summary: Option<Seq<char>>, schema: Seq<char>) -> Seq<char> {
    RAG_PROMPT_0@ + schema + RAG_PROMPT_1@ + summary_block_spec(summary) + RAG_PROMPT_2@ + tools + RAG_PROMPT_3@
}

/// The system prompt of the RAG agent loop (see `rag_prompt_spec`); `schema_text` is the JSON schema of the expected reply.
pub fn build_system_prompt(tool_descriptions: &str, summary: Option<&str>, schema_text: &str) -> (r: String)
    ensures
        r@ == rag_prompt_spec(tool_descriptions@, opt_str_view(summary), schema_text@),
{
    let block = summary_block(summary);
    let mut s = RAG_PROMPT_0.to_string();
    s.append(schema_text);
    s.append(RAG_PROMPT_1);
    s.append(block.as_str());
    s.append(RAG_PROMPT_2);
    s.append(tool_descriptions);
    s.append(RAG_PROMPT_3);
    s
}

/// The system prompt of the RAG agent loop holds the tool descriptions, the schema and, for a non-empty summary, the
/// summary's block; an empty summary gives the same prompt as none.
pub proof fn lemma_rag_prompt_contents(tools: Seq<char>, summary: Option<Seq<char>>, schema: Seq<char>)
    ensures
        contains_spec(rag_prompt_spec(tools, summary, schema), tools),
        contains_spec(rag_prompt_spec(tools, summary, schema), schema),
        (summary matches Some(s) && s.len() > 0) ==> contains_spec(
            rag_prompt_spec(tools, summary, schema),
            "\n## Conversation Summary\n"@ + summary->0 + "\n"@,
        ),
        rag_prompt_spec(tools, Some(Seq::empty()), schema) == rag_prompt_spec(tools, None, schema),
{
    lemma_prompt_pieces(RAG_PROMPT_0@, RAG_PROMPT_1@, RAG_PROMPT_2@, RAG_PROMPT_3@, tools, summary, schema);
}

} // verus!
