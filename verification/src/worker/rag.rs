use vstd::prelude::*;
use vstd::string::*;

use crate::orchestrator::schema::{AgentResponse, ReActAgentResponse};
use crate::text::{decimal_spec, decimal_string, take_chars, trim, trim_spec};
use crate::worker::error::WorkerError;
use crate::worker::llm_types::GenerateOutput;
use crate::worker::model::{AgentAction, AgentResult, AgentStep, ChatRole, Message, copy_steps};
use crate::worker::tools::{InMemoryToolRegistry, ToolRegistry};

verus! {

/// The state of one run of the RAG agent.
#[derive(Debug)]
pub struct AgentState {
    pub tokens_used: u32,
    pub conversation: Vec<Message>,
    pub reasoning_steps: Vec<AgentStep>,
}

/// The message that stands for a parse failure of the model's reply.
pub open spec fn parse_error_thought(raw: Seq<char>) -> Seq<char> {
    "[PARSE ERROR] LLM response could not be parsed: "@ + (if raw.len() <= 200 {
        raw
    } else {
        raw.take(200)
    })
}

impl AgentState {
    /// A fresh state over a copy of `messages`.
    pub fn new(messages: &Vec<Message>) -> (r: Self)
        ensures
            r.tokens_used == 0,
            r.conversation@.len() == messages@.len(),
            forall|i: int| 0 <= i < messages@.len() ==> #[trigger] r.conversation@[i] == messages@[i],
            r.reasoning_steps@.len() == 0,
    {
        let mut conversation: Vec<Message> = Vec::new();
        for i in 0..messages.len()
            invariant
                conversation@.len() == i,
                forall|k: int| 0 <= k < i ==> #[trigger] conversation@[k] == messages@[k],
        {
            conversation.push(Message { role: messages[i].role, content: messages[i].content.clone() });
        }
        AgentState { tokens_used: 0, conversation, reasoning_steps: Vec::new() }
    }

    /// Adds the tokens of one model call; when the counter would pass `u32::MAX` the state is
    /// left alone and an agent error is returned.
    pub fn consume_tokens(&mut self, prompt_tokens: u32, completion_tokens: u32) -> (r: Result<(), WorkerError>)
        ensures
            final(self).conversation == old(self).conversation,
            final(self).reasoning_steps == old(self).reasoning_steps,
            old(self).tokens_used + prompt_tokens + completion_tokens <= u32::MAX ==> {
                &&& r is Ok
                &&& final(self).tokens_used == old(self).tokens_used + prompt_tokens + completion_tokens
            },
            old(self).tokens_used + prompt_tokens + completion_tokens > u32::MAX ==> {
                &&& r matches Err(WorkerError::Agent(m)) && m@ == "token counter overflow"@
                &&& final(self).tokens_used == old(self).tokens_used
            },
    {
        match self.tokens_used.checked_add(prompt_tokens) {
            Some(v) => match v.checked_add(completion_tokens) {
                Some(w) => {
                    self.tokens_used = w;
                    Ok(())
                },
                None => Err(WorkerError::Agent("token counter overflow".to_string())),
            },
            None => Err(WorkerError::Agent("token counter overflow".to_string())),
        }
    }

    /// Records a thought without an action.
    pub fn record_thought(&mut self, thought: String)
        ensures
            final(self).tokens_used == old(self).tokens_used,
            final(self).conversation == old(self).conversation,
            final(self).reasoning_steps@ == old(self).reasoning_steps@.push(
                AgentStep { thought, action: None, observation: None },
            ),
    {
        self.reasoning_steps.push(AgentStep { thought, action: None, observation: None });
    }

    /// Records that the model's reply could not be parsed (see `parse_error_thought`).
    pub fn record_parse_error(&mut self, raw: &str)
        ensures
            final(self).tokens_used == old(self).tokens_used,
            final(self).conversation == old(self).conversation,
            final(self).reasoning_steps@.len() == old(self).reasoning_steps@.len() + 1,
            final(self).reasoning_steps@.drop_last() == old(self).reasoning_steps@,
            final(self).reasoning_steps@.last().thought@ == parse_error_thought(raw@),
            final(self).reasoning_steps@.last().action is None,
            final(self).reasoning_steps@.last().observation is None,
    {
        let preview = take_chars(raw, 200);
        let mut thought = "[PARSE ERROR] LLM response could not be parsed: ".to_string();
        thought.append(preview.as_str());
        assert(raw@.len() <= 200 ==> raw@.take(raw@.len() as int) == raw@);
        self.reasoning_steps.push(AgentStep { thought, action: None, observation: None });
        assert(self.reasoning_steps@.drop_last() == old(self).reasoning_steps@);
    }

    /// Adds the final answer to the conversation as an assistant message.
    pub fn add_final_answer(&mut self, answer: String)
        ensures
            final(self).tokens_used == old(self).tokens_used,
            final(self).reasoning_steps == old(self).reasoning_steps,
            final(self).conversation@ == old(self).conversation@.push(
                Message { role: ChatRole::Assistant, content: answer },
            ),
    {
        self.conversation.push(Message { role: ChatRole::Assistant, content: answer });
    }

    /// Records a step with its observation and action.
    pub fn add_turn(&mut self, thought: String, observation: String, action: Option<AgentAction>)
        ensures
            final(self).tokens_used == old(self).tokens_used,
            final(self).conversation == old(self).conversation,
            final(self).reasoning_steps@ == old(self).reasoning_steps@.push(
                AgentStep { thought, observation: Some(observation), action },
            ),
    {
        self.reasoning_steps.push(AgentStep { thought, observation: Some(observation), action });
    }
}

/// What is observed when the model names a tool that is not registered.
pub open spec fn tool_not_found_spec(name: Seq<char>, descriptions: Seq<char>) -> Seq<char> {
    "Tool '"@ + name + "' not found. Available: "@ + (if descriptions.len() == 0 {
        "none"@
    } else {
        descriptions
    })
}

/// What is observed when the model calls a tool with an empty name or input.
pub open spec fn empty_call_spec(name: Seq<char>, input: Seq<char>) -> Seq<char> {
    "Tool invocation failed: tool_name and tool_input must be non-empty. Got tool_name='"@ + name
        + "', tool_input='"@ + input + "'"@
}

/// What is observed of a tool call: a refusal (see `empty_call_spec`) when the name or the
/// input is blank, the not-found message (see `tool_not_found_spec`) when no tool has the
/// name, and else the answer of the tool registered under the name.
pub open spec fn observed_call(
    observation: Option<String>,
    tool_name: Seq<char>,
    tool_input: Seq<char>,
    registry: InMemoryToolRegistry,
) -> bool {
    &&& observation is Some
    &&& (trim_spec(tool_name).len() == 0 || trim_spec(tool_input).len() == 0) ==> observation->0@
        == empty_call_spec(tool_name, tool_input)
    &&& (trim_spec(tool_name).len() > 0 && trim_spec(tool_input).len() > 0 && !registry.names().contains(
        tool_name,
    )) ==> observation->0@ == tool_not_found_spec(tool_name, registry.listing())
    &&& (trim_spec(tool_name).len() > 0 && trim_spec(tool_input).len() > 0 && registry.names().contains(
        tool_name,
    )) ==> registry.answers_for(tool_name, tool_input, observation->0@)
}

/// Runs the tools that the agent asks for.
pub struct ToolHandler<'a> {
    registry: &'a InMemoryToolRegistry,
}

impl<'a> ToolHandler<'a> {
    /// The registry the handler runs tools from.
    pub closed spec fn registry(&self) -> InMemoryToolRegistry {
        *self.registry
    }

    /// A handler over `registry`.
    pub fn new(registry: &'a InMemoryToolRegistry) -> (r: Self)
        ensures
            r.registry() == *registry,
    {
        ToolHandler { registry }
    }

    /// The descriptions of the registered tools.
    pub fn descriptions(&self) -> (r: String)
        requires
            self.registry().wf(),
        ensures
            r@ == self.registry().listing(),
            r@.len() == 0 <==> self.registry().names().len() == 0,
    {
        self.registry.descriptions()
    }

    /// The observation for a tool that is not registered (see `tool_not_found_spec`).
    pub fn tool_not_found_message(&self, tool_name: &str) -> (r: String)
        requires
            self.registry().wf(),
        ensures
            r@ == tool_not_found_spec(tool_name@, self.registry().listing()),
    {
        let desc = self.registry.descriptions();
        let mut s = "Tool '".to_string();
        s.append(tool_name);
        s.append("' not found. Available: ");
        if desc.as_str().is_empty() {
            s.append("none");
        } else {
            s.append(desc.as_str());
        }
        assert(s@ == tool_not_found_spec(tool_name@, desc@));
        s
    }

    /// Runs the tool `tool_name` on `tool_input` and returns its answer; when there is no such
    /// tool, the observation says so.
    pub fn execute(&self, tool_name: &str, tool_input: &str) -> (r: String)
        requires
            self.registry().wf(),
        ensures
            self.registry().names().contains(tool_name@) ==> self.registry().answers_for(
                tool_name@,
                tool_input@,
                r@,
            ),
            !self.registry().names().contains(tool_name@) ==> r@ == tool_not_found_spec(
                tool_name@,
                self.registry().listing(),
            ),
    {
        match self.registry.execute(tool_name, tool_input) {
            Some(out) => out,
            None => self.tool_not_found_message(tool_name),
        }
    }

    /// Runs the tool the agent asked for and records the step: an empty name or input (after
    /// trimming) is refused with `empty_call_spec`; otherwise the tool's output, or the
    /// not-found message, is the observation.
    pub fn execute_with_state(&self, state: &mut AgentState, thought: String, tool_name: String, tool_input: String)
        requires
            self.registry().wf(),
        ensures
            final(state).tokens_used == old(state).tokens_used,
            final(state).conversation == old(state).conversation,
            final(state).reasoning_steps@.len() == old(state).reasoning_steps@.len() + 1,
            final(state).reasoning_steps@.drop_last() == old(state).reasoning_steps@,
            ({
                let s = final(state).reasoning_steps@.last();
                &&& s.thought == thought
                &&& s.action == Some(AgentAction::ExecuteTool { tool_name, tool_input })
                &&& observed_call(s.observation, tool_name@, tool_input@, self.registry())
            }),
    {
        let tn = trim(tool_name.as_str());
        let ti = trim(tool_input.as_str());
        let observation = if tn.as_str().is_empty() || ti.as_str().is_empty() {
            let mut o = "Tool invocation failed: tool_name and tool_input must be non-empty. Got tool_name='".to_string();
            o.append(tool_name.as_str());
            o.append("', tool_input='");
            o.append(tool_input.as_str());
            o.append("'");
            o
        } else {
            self.execute(tool_name.as_str(), tool_input.as_str())
        };
        let action = AgentAction::ExecuteTool { tool_name, tool_input };
        state.add_turn(thought, observation, Some(action));
        assert(state.reasoning_steps@.drop_last() == old(state).reasoning_steps@);
    }
}

/// What acting on a parsed reply with `action` and `thought` does to the state, and what it
/// returns: a tool call is run and recorded (see `observed_call`) and nothing is returned; a
/// final answer is added to the conversation as an assistant message and the run ends with
/// that answer, the tokens used and the steps so far.
pub open spec fn response_handled(
    before: AgentState,
    after: AgentState,
    action: AgentAction,
    thought: Seq<char>,
    r: Option<AgentResult>,
    registry: InMemoryToolRegistry,
) -> bool {
    &&& after.tokens_used == before.tokens_used
    &&& match action {
        AgentAction::ExecuteTool { tool_name, tool_input } => {
            &&& r is None
            &&& after.conversation == before.conversation
            &&& after.reasoning_steps@.len() == before.reasoning_steps@.len() + 1
            &&& after.reasoning_steps@.drop_last() == before.reasoning_steps@
            &&& after.reasoning_steps@.last().thought@ == thought
            &&& after.reasoning_steps@.last().action == Some(AgentAction::ExecuteTool { tool_name, tool_input })
            &&& observed_call(after.reasoning_steps@.last().observation, tool_name@, tool_input@, registry)
        },
        AgentAction::Finish { answer } => {
            &&& after.reasoning_steps == before.reasoning_steps
            &&& after.conversation@ == before.conversation@.push(
                Message { role: ChatRole::Assistant, content: answer },
            )
            &&& r matches Some(res) && res.final_answer == answer && res.total_tokens == before.tokens_used
                && res.reasoning_steps@ == before.reasoning_steps@
        },
    }
}

/// Acts on a parsed reply: a tool call is run and recorded, and the loop goes on (`None`); a
/// final answer is added to the conversation and ends the run with the steps so far (see
/// `response_handled`).
pub fn handle_response(state: &mut AgentState, llm_response: ReActAgentResponse, tool_handler: &ToolHandler) -> (r: Option<AgentResult>)
    requires
        tool_handler.registry().wf(),
    ensures
        response_handled(*old(state), *final(state), llm_response.action, llm_response.thought@, r, tool_handler.registry()),
{
    match llm_response.action {
        AgentAction::ExecuteTool { tool_name, tool_input } => {
            tool_handler.execute_with_state(state, llm_response.thought, tool_name, tool_input);
            None
        },
        AgentAction::Finish { answer } => {
            state.add_final_answer(answer.clone());
            Some(AgentResult {
                final_answer: answer,
                total_tokens: state.tokens_used,
                reasoning_steps: copy_steps(&state.reasoning_steps),
            })
        },
    }
}

/// Acts on a parsed reply of any kind (see `AgentResponse`) as `handle_response` does: a
/// tool call is run and recorded and the stage goes on (`None`); a final answer is added to
/// the conversation and ends the run with the steps so far.
pub fn handle_agent_response<T: AgentResponse>(state: &mut AgentState, llm_response: &T, tool_handler: &ToolHandler) -> (r: Option<AgentResult>)
    requires
        tool_handler.registry().wf(),
    ensures
        response_handled(
            *old(state),
            *final(state),
            llm_response.action_spec(),
            llm_response.thought_spec(),
            r,
            tool_handler.registry(),
        ),
{
    let thought = llm_response.thought();
    match llm_response.action() {
        AgentAction::ExecuteTool { tool_name, tool_input } => {
            tool_handler.execute_with_state(state, thought, tool_name, tool_input);
            None
        },
        AgentAction::Finish { answer } => {
            state.add_final_answer(answer.clone());
            Some(AgentResult {
                final_answer: answer,
                total_tokens: state.tokens_used,
                reasoning_steps: copy_steps(&state.reasoning_steps),
            })
        },
    }
}

/// One stage of the cascade on the outcome of parsing the model's reply: a reply that did
/// not parse is an agent error; a parsed reply is handled (see `handle_agent_response`).
pub fn process_stage_response<T: AgentResponse>(state: &mut AgentState, parsed: Result<T, String>, tool_handler: &ToolHandler) -> (r: Result<Option<AgentResult>, WorkerError>)
    requires
        tool_handler.registry().wf(),
    ensures
        final(state).tokens_used == old(state).tokens_used,
        parsed is Err ==> (r matches Err(WorkerError::Agent(m)) && m@ == "Failed to parse LLM response as JSON"@
            && *final(state) == *old(state)),
        parsed matches Ok(resp) ==> (r matches Ok(o) && response_handled(
            *old(state),
            *final(state),
            resp.action_spec(),
            resp.thought_spec(),
            o,
            tool_handler.registry(),
        )),
{
    match parsed {
        Ok(resp) => Ok(handle_agent_response(state, &resp, tool_handler)),
        Err(_raw) => Err(WorkerError::Agent("Failed to parse LLM response as JSON".to_string())),
    }
}

/// The end of the cascade after its last stage: that stage's result, or an agent error when
/// it ended without one.
pub fn finish_cascade(last_stage: Result<Option<AgentResult>, WorkerError>) -> (r: Result<AgentResult, WorkerError>)
    ensures
        match last_stage {
            Ok(Some(res)) => r == Ok::<AgentResult, WorkerError>(res),
            Ok(None) => r matches Err(WorkerError::Agent(m)) && m@ == "Failed to process last retrieval step"@,
            Err(e) => r == Err::<AgentResult, WorkerError>(e),
        },
{
    match last_stage {
        Ok(Some(res)) => Ok(res),
        Ok(None) => Err(WorkerError::Agent("Failed to process last retrieval step".to_string())),
        Err(e) => Err(e),
    }
}

/// The answer given when the loop runs out of iterations.
pub open spec fn iteration_limit_answer(max_iterations: u32) -> Seq<char> {
    "Agent stopped after "@ + decimal_spec(max_iterations as nat) + " iterations without final answer"@
}

/// Ends the run when `iteration` has passed `max_iterations`, with the steps so far.
pub fn check_iteration_limit(iteration: u32, max_iterations: u32, state: &AgentState) -> (r: Option<AgentResult>)
    ensures
        iteration <= max_iterations ==> r is None,
        iteration > max_iterations ==> (r matches Some(res) && res.final_answer@ == iteration_limit_answer(
            max_iterations,
        ) && res.total_tokens == state.tokens_used && res.reasoning_steps@ == state.reasoning_steps@),
{
    if iteration > max_iterations {
        let mut answer = "Agent stopped after ".to_string();
        let n = decimal_string(max_iterations as u64);
        answer.append(n.as_str());
        answer.append(" iterations without final answer");
        return Some(AgentResult {
            final_answer: answer,
            total_tokens: state.tokens_used,
            reasoning_steps: copy_steps(&state.reasoning_steps),
        });
    }
    None
}

/// What a call of the language model came to.
#[derive(Debug)]
pub enum LlmCallOutcome {
    /// No reply came within the time allowed.
    TimedOut,
    /// The provider failed, with this message.
    Failed(String),
    /// The model replied.
    Replied(GenerateOutput),
}

/// Takes in what a model call came to: a timeout becomes `LlmTimeout` with the seconds
/// allowed, a failure a provider error; a reply has its tokens counted (see
/// `AgentState::consume_tokens`, whose error is passed on) and its text returned.
pub fn absorb_llm_outcome(state: &mut AgentState, outcome: LlmCallOutcome, timeout_secs: u64) -> (r: Result<String, WorkerError>)
    ensures
        final(state).conversation == old(state).conversation,
        final(state).reasoning_steps == old(state).reasoning_steps,
        match outcome {
            LlmCallOutcome::TimedOut => r == Err::<String, WorkerError>(WorkerError::LlmTimeout(timeout_secs))
                && final(state).tokens_used == old(state).tokens_used,
            LlmCallOutcome::Failed(e) => r == Err::<String, WorkerError>(WorkerError::LlmProvider(e))
                && final(state).tokens_used == old(state).tokens_used,
            LlmCallOutcome::Replied(out) => if old(state).tokens_used + out.tokens_processed
                + out.tokens_generated <= u32::MAX {
                r == Ok::<String, WorkerError>(out.text) && final(state).tokens_used
                    == old(state).tokens_used + out.tokens_processed + out.tokens_generated
            } else {
                r matches Err(WorkerError::Agent(m)) && m@ == "token counter overflow"@
                    && final(state).tokens_used == old(state).tokens_used
            },
        },
{
    match outcome {
        LlmCallOutcome::TimedOut => Err(WorkerError::LlmTimeout(timeout_secs)),
        LlmCallOutcome::Failed(e) => Err(WorkerError::LlmProvider(e)),
        LlmCallOutcome::Replied(out) => {
            match state.consume_tokens(out.tokens_processed, out.tokens_generated) {
                Ok(()) => Ok(out.text),
                Err(e) => Err(e),
            }
        },
    }
}

/// What the loop tells the model when its reply was not valid JSON.
pub open spec fn invalid_json_notice() -> Seq<char> {
    "Your last response was not valid JSON. Output ONLY valid JSON matching the schema."@
}

/// Acts on the outcome of parsing the model's reply: a parsed reply is handled (see
/// `handle_response`); a reply that did not parse adds a user message asking for valid JSON,
/// and the loop goes on.
pub fn process_llm_response(state: &mut AgentState, parsed: Result<ReActAgentResponse, String>, tool_handler: &ToolHandler) -> (r: Option<AgentResult>)
    requires
        tool_handler.registry().wf(),
    ensures
        final(state).tokens_used == old(state).tokens_used,
        parsed is Err ==> {
            &&& r is None
            &&& final(state).reasoning_steps == old(state).reasoning_steps
            &&& final(state).conversation@ == old(state).conversation@.push(
                Message { role: ChatRole::User, content: final(state).conversation@.last().content },
            )
            &&& final(state).conversation@.last().content@ == invalid_json_notice()
        },
        parsed matches Ok(resp) ==> response_handled(
            *old(state),
            *final(state),
            resp.action,
            resp.thought@,
            r,
            tool_handler.registry(),
        ),
{
    match parsed {
        Ok(resp) => handle_response(state, resp, tool_handler),
        Err(_raw) => {
            state.conversation.push(Message {
                role: ChatRole::User,
                content: "Your last response was not valid JSON. Output ONLY valid JSON matching the schema.".to_string(),
            });
            None
        },
    }
}

/// The number of iterations the loop allows: `max_iterations`, but at least one.
pub fn effective_max_iterations(max_iterations: u32) -> (r: u32)
    ensures
        r == if max_iterations >= 1 { max_iterations } else { 1 },
{
    if max_iterations >= 1 {
        max_iterations
    } else {
        1
    }
}

} // verus!
