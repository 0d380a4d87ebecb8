use vstd::prelude::*;
use vstd::string::*;

use crate::text::{contains_spec, lemma_prompt_pieces, opt_str_view, summary_block, summary_block_spec};

verus! {

pub const PRE_RETRIEVAL_0: &'static str = "You are the Routing and Analysis Agent in a strict, one-way cascade RAG pipeline. Your task is to analyze the user's query and decide the exact next step. You do not have access to external context yet.\n\n## Output Schema\n```json\n";
pub const PRE_RETRIEVAL_1: &'static str = "\n```\n";
pub const PRE_RETRIEVAL_2: &'static str = "\n\n## Response Format\nEvery response MUST have a `intent` a 'information_gap' and an `action`. The action is either:\n- `tool_name` + `tool_input` — call a tool to get information\n- `answer` — provide the FINAL answer to the user\n\n## Examples\n\n**Example 1: Tool call** (user needs information retrieval)\n```json\n{\n  \"intent\": \"factual lookup about project architecture\",\n  \"information_gap\": \"need to search knowledge base for architecture details\",\n  \"action\": {\n    \"tool_name\": \"search_tfidf\",\n    \"tool_input\": \"project architecture components\"\n  }\n}\n```\n\n**Example 2: Direct answer** (no retrieval needed)\n```json\n{\n  \"intent\": \"general greeting\",\n  \"information_gap\": \"none\",\n  \"action\": {\n    \"answer\": \"Hello! How can I help you today?\"\n  }\n}\n```\n\n## Available Tools\n";
pub const PRE_RETRIEVAL_3: &'static str = "\n\n## Critical Rules\n1. OUTPUT ONE JSON OBJECT per response — bare JSON only.\n2. You CAN NOT say something that is not presented in the knowledge base.\n3. Output ONLY a valid JSON object matching the PreRetrievalResponse schema. Do not include markdown formatting or any text outside the JSON.\n\n## Your steps\nFollow these concrete analytical steps and map them directly to the JSON schema fields:\n1. **Intent**: Identify the core intent of the user's query (e.g., factual lookup, code generation, general greeting, ambiguous request).\n2. **Information Gap**: Determine exactly what specific information is missing that prevents you from answering confidently right now. If nothing is missing, state \"none\".\n3. **Action**: \n   - If the information gap is \"none\", choose `action_type: \"final_answer\"` and provide the `final_answer`.\n   - If external information is required, choose `action_type: \"tool_call\"`. Formulate a highly optimized, self-contained `tool_name` and `parameters` (e.g., a refined search query) to fetch the missing information.\n";

/// The system prompt of the routing stage of the cascade: the fixed text with the JSON schema, the conversation summary block and the tool
/// descriptions put in.
pub open spec fn preretrieval_prompt_spec(tools: Seq<char>, summary: Option<Seq<char>>, schema: Seq<char>) -> Seq<char> {
    PRE_RETRIEVAL_0@ + schema + PRE_RETRIEVAL_1@ + summary_block_spec(summary) + PRE_RETRIEVAL_2@ + tools + PRE_RETRIEVAL_3@
}

/// The system prompt of the routing stage of the cascade (see `preretrieval_prompt_spec`); `schema_text` is the JSON schema of the expected reply.
pub fn build_preretrieval_system_prompt(tool_descriptions: &str, summary: Option<&str>, schema_text: &str) -> (r: String)
    ensures
        r@ == preretrieval_prompt_spec(tool_descriptions@, opt_str_view(summary), schema_text@),
{
    let block = summary_block(summary);
    let mut s = PRE_RETRIEVAL_0.to_string();
    s.append(schema_text);
    s.append(PRE_RETRIEVAL_1);
    s.append(block.as_str());
    s.append(PRE_RETRIEVAL_2);
    s.append(tool_descriptions);
    s.append(PRE_RETRIEVAL_3);
    s
}
pub const POST_RETRIEVAL_0: &'static str = "You are the Synthesis and Verification Agent in a strict, one-way cascade RAG pipeline. You have received retrieved context based on the user's query. Your task is to synthesize a final answer, but you MUST self-verify first to prevent hallucinations.\n\n## Output Schema\n```json\n";
pub const POST_RETRIEVAL_1: &'static str = "\n```\n";
pub const POST_RETRIEVAL_2: &'static str = "\n\n## Response Format\nEvery response MUST have these fields:\n - 'context_evaluating'\n - 'self_questions'\n - 'self_answers'\n - 'final_answer'\n\n## Examples\n\n**Example 1: Context sufficient**\n```json\n{\n  \"context_evaluating\": \"The retrieved documents clearly describe the authentication flow using JWT tokens.\",\n  \"self_questions\": \"Am I only using information from the context? Did I miss any edge cases mentioned?\",\n  \"self_answers\": \"Yes, all information comes directly from the provided context. The context covers the main flow completely.\",\n  \"final_answer\": \"The system uses JWT-based authentication. Tokens are issued after successful login and validated on each request.\"\n}\n```\n\n**Example 2: Context insufficient**\n```json\n{\n  \"context_evaluating\": \"The retrieved documents mention the database schema but do not cover the specific query optimization techniques requested.\",\n  \"self_questions\": \"Am I about to speculate beyond what the context provides?\",\n  \"self_answers\": \"The context does not contain information about query optimization strategies.\",\n  \"final_answer\": \"I don't have sufficient information in the knowledge base to answer your question about query optimization techniques.\"\n}\n```\n\n## Available Tools\n";
pub const POST_RETRIEVAL_3: &'static str = "\n\n## Critical Rules\n1. OUTPUT ONE JSON OBJECT per response — bare JSON only.\n2. You CAN NOT say something that is not presented in the knowledge base.\n3. Output ONLY a valid JSON object matching the PostRetrievalResponse schema. Do not include markdown formatting or any text outside the JSON.\n\n## Your steps\nFollow these concrete analytical steps and map them directly to the JSON schema fields:\n1. **Context Evaluation**: Briefly assess if the provided context is sufficient, relevant, and directly addresses the user's query.\n2. **Self-Verification**: Before writing the final answer, ask yourself 2-3 critical, skeptical questions about the facts you are about to present (e.g., \"Am I assuming information not in the text?\", \"Did I confuse two similar entities mentioned in the context?\"). Then, answer those questions using ONLY the provided context.\n3. **Action**: This is the terminal stage. You MUST set `action` to `\"final_answer\"`. Tool calls are strictly prohibited.\n4. **Final Answer**: Provide a comprehensive, accurate, and well-structured response based strictly on your verified analysis. If the context is insufficient, state that clearly. \n";

/// The system prompt of the synthesis stage of the cascade: the fixed text with the JSON schema, the conversation summary block and the tool
/// descriptions put in.
pub open spec fn postretrieval_prompt_spec(tools: Seq<char>, summary: Option<Seq<char>>, schema: Seq<char>) -> Seq<char> {
    POST_RETRIEVAL_0@ + schema + POST_RETRIEVAL_1@ + summary_block_spec(summary) + POST_RETRIEVAL_2@ + tools + POST_RETRIEVAL_3@
}

/// The system prompt of the synthesis stage of the cascade (see `postretrieval_prompt_spec`); `schema_text` is the JSON schema of the expected reply.
pub fn build_postretrieval_system_prompt(tool_descriptions: &str, summary: Option<&str>, schema_text: &str) -> (r: String)
    ensures
        r@ == postretrieval_prompt_spec(tool_descriptions@, opt_str_view(summary), schema_text@),
{
    let block = summary_block(summary);
    let mut s = POST_RETRIEVAL_0.to_string();
    s.append(schema_text);
    s.append(POST_RETRIEVAL_1);
    s.append(block.as_str());
    s.append(POST_RETRIEVAL_2);
    s.append(tool_descriptions);
    s.append(POST_RETRIEVAL_3);
    s
}

/// Each system prompt of the cascade holds the tool descriptions, the schema and, for a non-empty summary, the
/// summary's block; an empty summary gives the same prompt as none.
pub proof fn lemma_cascade_prompt_contents(tools: Seq<char>, summary: Option<Seq<char>>, schema: Seq<char>)
    ensures
        contains_spec(preretrieval_prompt_spec(tools, summary, schema), tools),
        contains_spec(preretrieval_prompt_spec(tools, summary, schema), schema),
        (summary matches Some(s) && s.len() > 0) ==> contains_spec(
            preretrieval_prompt_spec(tools, summary, schema),
            "\n## Conversation Summary\n"@ + summary->0 + "\n"@,
        ),
        preretrieval_prompt_spec(tools, Some(Seq::empty()), schema) == preretrieval_prompt_spec(tools, None, schema),
        contains_spec(postretrieval_prompt_spec(tools, summary, schema), tools),
        contains_spec(postretrieval_prompt_spec(tools, summary, schema), schema),
        (summary matches Some(s) && s.len() > 0) ==> contains_spec(
            postretrieval_prompt_spec(tools, summary, schema),
            "\n## Conversation Summary\n"@ + summary->0 + "\n"@,
        ),
        postretrieval_prompt_spec(tools, Some(Seq::empty()), schema) == postretrieval_prompt_spec(tools, None, schema),
{
    lemma_prompt_pieces(PRE_RETRIEVAL_0@, PRE_RETRIEVAL_1@, PRE_RETRIEVAL_2@, PRE_RETRIEVAL_3@, tools, summary, schema);
    lemma_prompt_pieces(POST_RETRIEVAL_0@, POST_RETRIEVAL_1@, POST_RETRIEVAL_2@, POST_RETRIEVAL_3@, tools, summary, schema);
}

} // verus!
