use vstd::prelude::*;

use crate::worker::model::{conversation_chat, ChatRole, Message};

verus! {

/// The author of a message sent to the language model.
#[derive(Debug, Clone, Copy, PartialEq, Eq, Structural)]
pub enum LlmRole {
    System,
    User,
    Assistant,
}

/// A message sent to the language model.
#[derive(Debug)]
pub struct LlmMessage {
    pub role: LlmRole,
    pub content: String,
}

/// What the language model generated, with the numbers of tokens it read and wrote.
#[derive(Debug)]
pub struct GenerateOutput {
    pub text: String,
    pub tokens_processed: u32,
    pub tokens_generated: u32,
}

/// What the model server reports of itself.
#[derive(Debug)]
pub struct HealthStatus {
    pub is_ready: bool,
    pub model_name: String,
    pub context_length: u32,
}

/// The model's role for a chat role.
pub open spec fn llm_role_of(r: ChatRole) -> LlmRole {
    match r {
        ChatRole::System => LlmRole::System,
        ChatRole::User => LlmRole::User,
        ChatRole::Assistant => LlmRole::Assistant,
    }
}

/// The model's role for a chat role (see `llm_role_of`).
pub fn llm_role(r: ChatRole) -> (l: LlmRole)
    ensures
        l == llm_role_of(r),
{
    match r {
        ChatRole::System => LlmRole::System,
        ChatRole::User => LlmRole::User,
        ChatRole::Assistant => LlmRole::Assistant,
    }
}

/// Messages for the model as roles and texts.
pub open spec fn llm_view(s: Seq<LlmMessage>) -> Seq<(LlmRole, Seq<char>)> {
    s.map_values(|m: LlmMessage| (m.role, m.content@))
}

/// The system prompt followed by the conversation, as messages for the model.
pub fn messages_to_llm(messages: &Vec<Message>, system_prompt: &str) -> (out: Vec<LlmMessage>)
    ensures
        llm_view(out@) == conversation_chat(messages@, system_prompt@).map_values(
            |m: (ChatRole, Seq<char>)| (llm_role_of(m.0), m.1),
        ),
{
    let ghost spec_of = |ms: Seq<Message>| conversation_chat(ms, system_prompt@).map_values(
        |m: (ChatRole, Seq<char>)| (llm_role_of(m.0), m.1),
    );
    let mut out: Vec<LlmMessage> = Vec::new();
    out.push(LlmMessage { role: LlmRole::System, content: system_prompt.to_string() });
    proof {
        assert(messages@.take(0) == Seq::<Message>::empty());
        assert(llm_view(out@) =~= spec_of(messages@.take(0)));
    }
    for i in 0..messages.len()
        invariant
            llm_view(out@) == spec_of(messages@.take(i as int)),
            spec_of == (|ms: Seq<Message>| conversation_chat(ms, system_prompt@).map_values(
                |m: (ChatRole, Seq<char>)| (llm_role_of(m.0), m.1),
            )),
    {
        let ghost before = llm_view(out@);
        out.push(LlmMessage { role: llm_role(messages[i].role), content: messages[i].content.clone() });
        proof {
            assert(messages@.take(i + 1) == messages@.take(i as int).push(messages@[i as int]));
            assert(conversation_chat(messages@.take(i + 1), system_prompt@) =~= conversation_chat(
                messages@.take(i as int),
                system_prompt@,
            ).push((messages@[i as int].role, messages@[i as int].content@)));
            assert(llm_view(out@) =~= before.push((llm_role_of(messages@[i as int].role), messages@[i as int].content@)));
            assert(llm_view(out@) =~= spec_of(messages@.take(i + 1)));
        }
    }
    assert(messages@.take(messages@.len() as int) == messages@);
    out
}

} // verus!
