use vstd::prelude::*;
use vstd::string::*;
use uuid::Uuid;

use crate::text::str_eq;
use crate::worker::error::WorkerError;
use crate::worker::llm_types::GenerateOutput;
use crate::worker::model::{ChatMessage, ChatRole, chats_view};
use crate::worker::rag::{ToolHandler, tool_not_found_spec};
use crate::worker::tools::InMemoryToolRegistry;

verus! {

/// A message of the conversation, with its role written out ("system", "user", ...).
#[derive(Debug)]
pub struct Message {
    pub role: String,
    pub content: String,
}

/// A tool call that the agent made.
#[derive(Debug)]
pub enum AgentAction {
    ExecuteTool { tool_name: String, tool_input: String },
}

/// One step of the agent's reasoning.
#[derive(Debug)]
pub struct AgentStep {
    pub thought: String,
    pub observation: Option<String>,
    pub action: Option<AgentAction>,
}

/// The outcome of an agent run.
#[derive(Debug)]
pub struct AgentResult {
    pub final_answer: String,
    pub total_tokens: u32,
    pub reasoning_steps: Vec<AgentStep>,
}

/// The next action that a thinking step asks for.
#[derive(Debug)]
pub enum Action {
    ExecuteTool { tool_name: String, tool_input: String },
}

/// A reply of the model: a thought, with or without an action, or the final answer.
#[derive(Debug)]
pub enum LlmResponse {
    Think { thought: String, next_action: Option<Action> },
    FinalAnswer { answer: String },
}

/// A copy of a message.
fn copy_message(m: &Message) -> (r: Message)
    ensures
        r == *m,
{
    Message { role: m.role.clone(), content: m.content.clone() }
}

/// A copy of a step.
fn copy_step(s: &AgentStep) -> (r: AgentStep)
    ensures
        r == *s,
{
    AgentStep {
        thought: s.thought.clone(),
        observation: match &s.observation {
            Some(o) => Some(o.clone()),
            None => None,
        },
        action: match &s.action {
            Some(AgentAction::ExecuteTool { tool_name, tool_input }) => Some(
                AgentAction::ExecuteTool { tool_name: tool_name.clone(), tool_input: tool_input.clone() },
            ),
            None => None,
        },
    }
}

/// A copy of a list of messages.
fn copy_messages(ms: &[Message]) -> (r: Vec<Message>)
    ensures
        r@ == ms@,
{
    let mut r: Vec<Message> = Vec::new();
    for i in 0..ms.len()
        invariant
            r@ == ms@.take(i as int),
    {
        r.push(copy_message(&ms[i]));
        assert(r@ == ms@.take(i + 1));
    }
    assert(ms@.take(ms@.len() as int) == ms@);
    r
}

/// A copy of a list of steps.
fn copy_steps(ss: &Vec<AgentStep>) -> (r: Vec<AgentStep>)
    ensures
        r@ == ss@,
{
    let mut r: Vec<AgentStep> = Vec::new();
    for i in 0..ss.len()
        invariant
            r@ == ss@.take(i as int),
    {
        r.push(copy_step(&ss[i]));
        assert(r@ == ss@.take(i + 1));
    }
    assert(ss@.take(ss@.len() as int) == ss@);
    r
}

/// Draws a random version-4 UUID with `uuid::Uuid::new_v4` and returns its 128 bits. Nothing
/// is claimed of the value: it depends on chance.
#[verifier::external_body]
fn new_run_id() -> (id: u128) {
    Uuid::new_v4().as_u128()
}

/// The state of one run of the thinking agent.
#[derive(Debug)]
pub struct AgentState {
    pub id: u128,
    pub tokens_used: u32,
    pub conversation: Vec<Message>,
    pub reasoning_steps: Vec<AgentStep>,
}

impl AgentState {
    /// A fresh state over a copy of `messages`, under a random run id.
    pub fn new(messages: &[Message]) -> (r: Self)
        ensures
            r.tokens_used == 0,
            r.conversation@ == messages@,
            r.reasoning_steps@.len() == 0,
    {
        AgentState {
            id: new_run_id(),
            tokens_used: 0,
            conversation: copy_messages(messages),
            reasoning_steps: Vec::new(),
        }
    }

    /// Adds the tokens of one model call; when the counter would pass `u32::MAX` the state is
    /// left alone and an agent error is returned.
    pub fn consume_tokens(&mut self, prompt_tokens: u32, completion_tokens: u32) -> (r: Result<(), WorkerError>)
        ensures
            final(self).id == old(self).id,
            final(self).conversation == old(self).conversation,
            final(self).reasoning_steps == old(self).reasoning_steps,
            old(self).tokens_used + prompt_tokens + completion_tokens <= u32::MAX ==> {
                &&& r is Ok
                &&& final(self).tokens_used == old(self).tokens_used + prompt_tokens + completion_tokens
            },
            old(self).tokens_used + prompt_tokens + completion_tokens > u32::MAX ==> {
                &&& r matches Err(WorkerError::Agent(m)) && m@ == "token counter overflow"@
                &&& final(self).tokens_used == old(self).tokens_used
            },
    {
        match self.tokens_used.checked_add(prompt_tokens) {
            Some(v) => match v.checked_add(completion_tokens) {
                Some(w) => {
                    self.tokens_used = w;
                    Ok(())
                },
                None => Err(WorkerError::Agent("token counter overflow".to_string())),
            },
            None => Err(WorkerError::Agent("token counter overflow".to_string())),
        }
    }

    /// A new state: this one with a system message "Observation: " and `observation` added
    /// to the conversation, and the step added to the reasoning.
    pub fn add_turn(&self, thought: String, observation: String, action: Option<AgentAction>) -> (r: AgentState)
        ensures
            r.id == self.id,
            r.tokens_used == self.tokens_used,
            r.conversation@.len() == self.conversation@.len() + 1,
            r.conversation@.drop_last() == self.conversation@,
            r.conversation@.last().role@ == "system"@,
            r.conversation@.last().content@ == "Observation: "@ + observation@,
            r.reasoning_steps@ == self.reasoning_steps@.push(
                AgentStep { thought, observation: Some(observation), action },
            ),
    {
        let mut conversation = copy_messages(self.conversation.as_slice());
        let mut reasoning_steps = copy_steps(&self.reasoning_steps);
        let mut content = "Observation: ".to_string();
        content.append(observation.as_str());
        conversation.push(Message { role: "system".to_string(), content });
        assert(conversation@.drop_last() == self.conversation@);
        reasoning_steps.push(AgentStep { thought, observation: Some(observation), action });
        AgentState { id: self.id, tokens_used: self.tokens_used, conversation, reasoning_steps }
    }
}

/// The role that a written-out role stands for: "system", "user" and "assistant" name
/// their roles, and anything else is taken for the user.
pub open spec fn role_of_name(name: Seq<char>) -> ChatRole {
    if name == "system"@ {
        ChatRole::System
    } else if name == "assistant"@ {
        ChatRole::Assistant
    } else {
        ChatRole::User
    }
}

/// The role that a written-out role stands for (see `role_of_name`).
pub fn role_from_name(name: &str) -> (r: ChatRole)
    ensures
        r == role_of_name(name@),
{
    proof {
        reveal_strlit("system");
        reveal_strlit("user");
        reveal_strlit("assistant");
        assert("user"@.len() != "assistant"@.len());
        assert("user"@.len() != "system"@.len());
    }
    if str_eq(name, "system") {
        ChatRole::System
    } else if str_eq(name, "user") {
        ChatRole::User
    } else if str_eq(name, "assistant") {
        ChatRole::Assistant
    } else {
        ChatRole::User
    }
}

/// The messages sent to the model: the system prompt, then each message of the
/// conversation under the role that its name stands for.
pub open spec fn model_messages_spec(messages: Seq<Message>, system_prompt: Seq<char>) -> Seq<(ChatRole, Seq<char>)> {
    seq![(ChatRole::System, system_prompt)] + messages.map_values(
        |m: Message| (role_of_name(m.role@), m.content@),
    )
}

/// The messages sent to the model (see `model_messages_spec`).
pub fn to_model_messages(messages: &[Message], system_prompt: &str) -> (r: Vec<ChatMessage>)
    ensures
        chats_view(r@) == model_messages_spec(messages@, system_prompt@),
{
    let mut r: Vec<ChatMessage> = Vec::new();
    r.push(ChatMessage { role: ChatRole::System, content: system_prompt.to_string() });
    for i in 0..messages.len()
        invariant
            chats_view(r@) == model_messages_spec(messages@.take(i as int), system_prompt@),
    {
        let role = role_from_name(messages[i].role.as_str());
        let ghost prev = r@;
        let m = ChatMessage { role, content: messages[i].content.clone() };
        r.push(m);
        proof {
            assert(messages@.take(i + 1) == messages@.take(i as int).push(messages@[i as int]));
            assert(chats_view(r@) =~= chats_view(prev).push((role, messages@[i as int].content@)));
            assert(messages@.take(i + 1).map_values(|m: Message| (role_of_name(m.role@), m.content@))
                =~= messages@.take(i as int).map_values(|m: Message| (role_of_name(m.role@), m.content@)).push(
                (role, messages@[i as int].content@)));
            assert(chats_view(r@) =~= model_messages_spec(messages@.take(i + 1), system_prompt@));
        }
    }
    assert(messages@.take(messages@.len() as int) == messages@);
    r
}

/// Takes in what the model call gave: a failure becomes a provider error; a reply has its
/// tokens counted (an overflowing count leaves the counter as it was) and its text returned.
pub fn absorb_reply(state: &mut AgentState, reply: Result<GenerateOutput, String>) -> (r: Result<String, WorkerError>)
    ensures
        final(state).id == old(state).id,
        final(state).conversation == old(state).conversation,
        final(state).reasoning_steps == old(state).reasoning_steps,
        match reply {
            Err(e) => {
                &&& r matches Err(WorkerError::LlmProvider(m)) && m@ == e@
                &&& final(state).tokens_used == old(state).tokens_used
            },
            Ok(out) => {
                &&& r matches Ok(text) && text@ == out.text@
                &&& final(state).tokens_used == if old(state).tokens_used + out.tokens_processed
                    + out.tokens_generated <= u32::MAX {
                    old(state).tokens_used + out.tokens_processed + out.tokens_generated
                } else {
                    old(state).tokens_used as int
                }
            },
        },
{
    match reply {
        Err(e) => Err(WorkerError::LlmProvider(e)),
        Ok(out) => {
            let _ = state.consume_tokens(out.tokens_processed, out.tokens_generated);
            Ok(out.text)
        },
    }
}

/// How many replies in a row may fail to parse before the run gives up.
pub const MAX_RETRY_ON_PARSE_FAILURE: u32 = 2;

/// The answer given when the model keeps replying with something that does not parse.
pub open spec fn parse_failure_answer() -> Seq<char> {
    "Failed to produce valid JSON after 2 attempts"@
}

/// What the thinking agent does after a reply.
#[derive(Debug)]
pub enum ThinkStep {
    /// The run is over.
    Done(AgentResult),
    /// The model is asked again with this state.
    Again(AgentState),
}

/// Decides on a reply of the model. `parsed` is the reply as parsed, `None` when it did not
/// parse.
/// - A reply that did not parse ends the run with `parse_failure_answer` once there are at
///   least `MAX_RETRY_ON_PARSE_FAILURE` steps; before that a system message asks for valid
///   JSON and the model is asked again. The limit counts reasoning steps, to which a reply
///   that did not parse adds none.
/// - A final answer ends the run with that answer.
/// - A thought with a tool call runs the tool (or notes that there is no such tool) and
///   records the turn (see `AgentState::add_turn`).
/// - A thought alone is recorded as a step and as an assistant message.
pub fn decide(state: AgentState, parsed: Option<LlmResponse>, registry: &InMemoryToolRegistry) -> (r: ThinkStep)
    requires
        registry.wf(),
    ensures
        match parsed {
            None => if (state.reasoning_steps@.len() as u32) >= MAX_RETRY_ON_PARSE_FAILURE {
                r matches ThinkStep::Done(res) && res.final_answer@ == parse_failure_answer()
                    && res.total_tokens == state.tokens_used && res.reasoning_steps == state.reasoning_steps
            } else {
                r matches ThinkStep::Again(s) && s.id == state.id && s.tokens_used == state.tokens_used
                    && s.reasoning_steps == state.reasoning_steps
                    && s.conversation@.drop_last() == state.conversation@
                    && s.conversation@.len() == state.conversation@.len() + 1
                    && s.conversation@.last().role@ == "system"@
                    && s.conversation@.last().content@ == "Your last response was not valid JSON. Output ONLY valid JSON matching the schema."@
            },
            Some(LlmResponse::FinalAnswer { answer }) => r matches ThinkStep::Done(res)
                && res.final_answer == answer && res.total_tokens == state.tokens_used
                && res.reasoning_steps == state.reasoning_steps,
            Some(LlmResponse::Think { thought, next_action: Some(Action::ExecuteTool { tool_name, tool_input }) }) => {
                &&& r matches ThinkStep::Again(s)
                &&& s.id == state.id && s.tokens_used == state.tokens_used
                &&& s.conversation@.len() == state.conversation@.len() + 1
                &&& s.conversation@.drop_last() == state.conversation@
                &&& s.conversation@.last().role@ == "system"@
                &&& s.reasoning_steps@.len() == state.reasoning_steps@.len() + 1
                &&& s.reasoning_steps@.drop_last() == state.reasoning_steps@
                &&& s.reasoning_steps@.last().thought == thought
                &&& s.reasoning_steps@.last().action == Some(AgentAction::ExecuteTool { tool_name, tool_input })
                &&& s.reasoning_steps@.last().observation matches Some(obs)
                &&& s.conversation@.last().content@ == "Observation: "@ + obs@
                &&& !registry.names().contains(tool_name@) ==> obs@ == tool_not_found_spec(
                    tool_name@,
                    registry.listing(),
                )
                &&& registry.names().contains(tool_name@) ==> registry.answers_for(tool_name@, tool_input@, obs@)
            },
            Some(LlmResponse::Think { thought, next_action: None }) => r matches ThinkStep::Again(s)
                && s.id == state.id && s.tokens_used == state.tokens_used
                && s.reasoning_steps@ == state.reasoning_steps@.push(
                    AgentStep { thought, action: None, observation: None },
                )
                && s.conversation@.len() == state.conversation@.len() + 1
                && s.conversation@.drop_last() == state.conversation@
                && s.conversation@.last().role@ == "assistant"@
                && s.conversation@.last().content == thought,
        },
{
    let mut state = state;
    match parsed {
        None => {
            if state.reasoning_steps.len() as u32 >= MAX_RETRY_ON_PARSE_FAILURE {
                return ThinkStep::Done(AgentResult {
                    final_answer: "Failed to produce valid JSON after 2 attempts".to_string(),
                    total_tokens: state.tokens_used,
                    reasoning_steps: state.reasoning_steps,
                });
            }
            let ghost before = state.conversation@;
            state.conversation.push(Message {
                role: "system".to_string(),
                content: "Your last response was not valid JSON. Output ONLY valid JSON matching the schema.".to_string(),
            });
            assert(state.conversation@.drop_last() == before);
            ThinkStep::Again(state)
        },
        Some(LlmResponse::FinalAnswer { answer }) => ThinkStep::Done(AgentResult {
            final_answer: answer,
            total_tokens: state.tokens_used,
            reasoning_steps: state.reasoning_steps,
        }),
        Some(LlmResponse::Think { thought, next_action }) => match next_action {
            Some(Action::ExecuteTool { tool_name, tool_input }) => {
                let handler = ToolHandler::new(registry);
                let observation = handler.execute(tool_name.as_str(), tool_input.as_str());
                let action = AgentAction::ExecuteTool { tool_name, tool_input };
                let next = state.add_turn(thought, observation, Some(action));
                assert(next.reasoning_steps@.drop_last() == state.reasoning_steps@);
                ThinkStep::Again(next)
            },
            None => {
                let ghost before = state.conversation@;
                state.reasoning_steps.push(AgentStep { thought: thought.clone(), action: None, observation: None });
                state.conversation.push(Message { role: "assistant".to_string(), content: thought });
                assert(state.conversation@.drop_last() == before);
                ThinkStep::Again(state)
            },
        },
    }
}

} // verus!
