use vstd::prelude::*;
use vstd::string::*;

verus! {

pub const THINK_PROMPT_0: &'static str = "You are a precise reasoning agent. You MUST output ONLY valid JSON matching the schema below.\n\n## Output Schema\n```json\n";
pub const THINK_PROMPT_1: &'static str = "\n```\n\n## Response Types\n\n1. `think` — express your reasoning. Set `next_action` to:\n   - `execute_tool` to invoke a tool\n   - `null`/omit if you need another think step\n\n2. `final_answer` — provide the final answer to the user.\n\n## Available Tools\n";
pub const THINK_PROMPT_2: &'static str = "\n\n## Rules\n- Output exactly ONE JSON object per response.\n- Do NOT wrap in markdown unless necessary — bare JSON is preferred.\n- Always end with a `final_answer`.";

/// The system prompt of the think-or-answer agent: the fixed text with the JSON schema and the tool descriptions put in.
pub open spec fn think_prompt_spec(tools: Seq<char>, schema: Seq<char>) -> Seq<char> {
    THINK_PROMPT_0@ + schema + THINK_PROMPT_1@ + tools + THINK_PROMPT_2@
}

/// The system prompt of the think-or-answer agent (see `think_prompt_spec`); `schema_text` is the JSON schema of the expected reply.
pub fn build_system_prompt(tool_descriptions: &str, schema_text: &str) -> (r: String)
    ensures
        r@ == think_prompt_spec(tool_descriptions@, schema_text@),
{
    let mut s = THINK_PROMPT_0.to_string();
    s.append(schema_text);
    s.append(THINK_PROMPT_1);
    s.append(tool_descriptions);
    s.append(THINK_PROMPT_2);
    s
}

} // verus!
