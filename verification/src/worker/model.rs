use vstd::prelude::*;
use vstd::string::*;

verus! {

/// The author of a chat message.
#[derive(Debug, Clone, Copy, PartialEq, Eq, Structural)]
pub enum ChatRole {
    System,
    User,
    Assistant,
}

/// The lower-case name of a role, as it is displayed.
pub open spec fn role_name(r: ChatRole) -> Seq<char> {
    match r {
        ChatRole::System => "system"@,
        ChatRole::User => "user"@,
        ChatRole::Assistant => "assistant"@,
    }
}

impl ChatRole {
    /// The lower-case name of the role ("system", "user" or "assistant").
    pub fn name(&self) -> (s: String)
        ensures
            s@ == role_name(*self),
    {
        match self {
            ChatRole::System => "system".to_string(),
            ChatRole::User => "user".to_string(),
            ChatRole::Assistant => "assistant".to_string(),
        }
    }
}

/// A message of the conversation.
#[derive(Debug)]
pub struct Message {
    pub role: ChatRole,
    pub content: String,
}

/// A message as it is sent to the language model.
#[derive(Debug)]
pub struct ChatMessage {
    pub role: ChatRole,
    pub content: String,
}

/// A chat message as a role and a text.
pub open spec fn chat_view(m: ChatMessage) -> (ChatRole, Seq<char>) {
    (m.role, m.content@)
}

/// The chat messages as roles and texts.
pub open spec fn chats_view(s: Seq<ChatMessage>) -> Seq<(ChatRole, Seq<char>)> {
    s.map_values(|m: ChatMessage| chat_view(m))
}

/// What the agent decided to do next.
#[derive(Debug)]
pub enum AgentAction {
    ExecuteTool { tool_name: String, tool_input: String },
    Finish { answer: String },
}

impl AgentAction {
    /// A copy of the action.
    pub fn duplicate(&self) -> (r: Self)
        ensures
            r == *self,
    {
        match self {
            AgentAction::ExecuteTool { tool_name, tool_input } => AgentAction::ExecuteTool {
                tool_name: tool_name.clone(),
                tool_input: tool_input.clone(),
            },
            AgentAction::Finish { answer } => AgentAction::Finish { answer: answer.clone() },
        }
    }
}

/// A copy of an optional string.
pub fn copy_opt_string(o: &Option<String>) -> (r: Option<String>)
    ensures
        r == *o,
{
    match o {
        Some(s) => Some(s.clone()),
        None => None,
    }
}

/// A copy of an optional action.
pub fn copy_opt_action(o: &Option<AgentAction>) -> (r: Option<AgentAction>)
    ensures
        r == *o,
{
    match o {
        Some(a) => Some(a.duplicate()),
        None => None,
    }
}

/// One step of the agent's reasoning.
#[derive(Debug)]
pub struct AgentStep {
    pub thought: String,
    pub observation: Option<String>,
    pub action: Option<AgentAction>,
}

impl AgentStep {
    /// A copy of the step.
    pub fn duplicate(&self) -> (r: Self)
        ensures
            r == *self,
    {
        AgentStep {
            thought: self.thought.clone(),
            observation: copy_opt_string(&self.observation),
            action: copy_opt_action(&self.action),
        }
    }
}

/// A copy of a list of steps.
pub fn copy_steps(steps: &Vec<AgentStep>) -> (r: Vec<AgentStep>)
    ensures
        r@ == steps@,
{
    let mut r: Vec<AgentStep> = Vec::new();
    for i in 0..steps.len()
        invariant
            r@ == steps@.take(i as int),
    {
        r.push(steps[i].duplicate());
        assert(r@ == steps@.take(i + 1));
    }
    assert(steps@.take(steps@.len() as int) == steps@);
    r
}

/// The outcome of an agent run.
#[derive(Debug)]
pub struct AgentResult {
    pub final_answer: String,
    pub total_tokens: u32,
    pub reasoning_steps: Vec<AgentStep>,
}

/// The chat messages that stand for one reasoning step: a tool call with its observation
/// becomes the assistant's thought and call followed by the observation as a user message;
/// any other step becomes the assistant's thought.
pub open spec fn step_chat(step: AgentStep) -> Seq<(ChatRole, Seq<char>)> {
    match (step.action, step.observation) {
        (Some(AgentAction::ExecuteTool { tool_name, tool_input }), Some(obs)) => seq![
            (ChatRole::Assistant, "Thought: "@ + step.thought@ + "\n\nAction: "@ + tool_name@ + "("@
                + tool_input@ + ")"@),
            (ChatRole::User, "Observation: "@ + obs@),
        ],
        _ => seq![(ChatRole::Assistant, step.thought@)],
    }
}

/// The chat messages that stand for a list of steps, in order.
pub open spec fn steps_chat(steps: Seq<AgentStep>) -> Seq<(ChatRole, Seq<char>)>
    decreases steps.len(),
{
    if steps.len() == 0 {
        Seq::empty()
    } else {
        steps_chat(steps.drop_last()) + step_chat(steps.last())
    }
}

/// Turns reasoning steps into chat messages (see `step_chat`).
pub fn reasoning_steps_to_chat(steps: &Vec<AgentStep>) -> (out: Vec<ChatMessage>)
    ensures
        chats_view(out@) == steps_chat(steps@),
{
    let mut out: Vec<ChatMessage> = Vec::new();
    for i in 0..steps.len()
        invariant
            chats_view(out@) == steps_chat(steps@.take(i as int)),
    {
        let step = &steps[i];
        let ghost before = chats_view(out@);
        proof {
            assert(steps@.take(i + 1).drop_last() == steps@.take(i as int));
            assert(steps@.take(i + 1).last() == *step);
        }
        match (&step.action, &step.observation) {
            (Some(AgentAction::ExecuteTool { tool_name, tool_input }), Some(obs)) => {
                let mut c = "Thought: ".to_string();
                c.append(step.thought.as_str());
                c.append("\n\nAction: ");
                c.append(tool_name.as_str());
                c.append("(");
                c.append(tool_input.as_str());
                c.append(")");
                out.push(ChatMessage { role: ChatRole::Assistant, content: c });
                let mut o = "Observation: ".to_string();
                o.append(obs.as_str());
                out.push(ChatMessage { role: ChatRole::User, content: o });
                assert(chats_view(out@) =~= before + step_chat(*step));
            },
            _ => {
                out.push(ChatMessage { role: ChatRole::Assistant, content: step.thought.clone() });
                assert(chats_view(out@) =~= before + step_chat(*step));
            },
        }
    }
    assert(steps@.take(steps@.len() as int) == steps@);
    out
}

/// The system prompt followed by the conversation.
pub open spec fn conversation_chat(messages: Seq<Message>, system_prompt: Seq<char>) -> Seq<(ChatRole, Seq<char>)> {
    seq![(ChatRole::System, system_prompt)] + messages.map_values(|m: Message| (m.role, m.content@))
}

/// The system prompt as a system message, followed by the messages of the conversation.
pub fn messages_to_chat(messages: &Vec<Message>, system_prompt: &str) -> (out: Vec<ChatMessage>)
    ensures
        chats_view(out@) == conversation_chat(messages@, system_prompt@),
{
    let mut out: Vec<ChatMessage> = Vec::new();
    out.push(ChatMessage { role: ChatRole::System, content: system_prompt.to_string() });
    for i in 0..messages.len()
        invariant
            chats_view(out@) == conversation_chat(messages@.take(i as int), system_prompt@),
    {
        let ghost before = chats_view(out@);
        out.push(ChatMessage { role: messages[i].role, content: messages[i].content.clone() });
        assert(messages@.take(i + 1) == messages@.take(i as int).push(messages@[i as int]));
        assert(chats_view(out@) == before.push((messages@[i as int].role, messages@[i as int].content@)));
        assert(chats_view(out@) =~= conversation_chat(messages@.take(i + 1), system_prompt@));
    }
    assert(messages@.take(messages@.len() as int) == messages@);
    out
}

/// The full context for the language model: the system prompt, the conversation, then the
/// reasoning steps so far.
pub fn build_chat_context(conversation: &Vec<Message>, steps: &Vec<AgentStep>, system_prompt: &str) -> (out: Vec<ChatMessage>)
    ensures
        chats_view(out@) == conversation_chat(conversation@, system_prompt@) + steps_chat(steps@),
{
    let mut msgs = messages_to_chat(conversation, system_prompt);
    let mut rest = reasoning_steps_to_chat(steps);
    let ghost a = msgs@;
    let ghost b = rest@;
    msgs.append(&mut rest);
    assert(chats_view(msgs@) =~= chats_view(a) + chats_view(b));
    msgs
}

/// A document to split and index.
#[derive(Debug)]
pub struct Document {
    pub text: String,
    pub name: String,
    pub file_format: String,
}

/// An entry of a stored conversation: a chat message or a reasoning step.
#[derive(Debug)]
pub enum ConversationEntry {
    ChatMsg { role: ChatRole, content: String },
    Step { thought: String, action: Option<AgentAction>, observation: Option<String> },
}

/// A stored conversation; the times are milliseconds since the Unix epoch, in UTC.
#[derive(Debug)]
pub struct ConversationDoc {
    pub conversation_id: String,
    pub created_at_ms: i64,
    pub updated_at_ms: i64,
    pub summary: Option<String>,
    pub total_messages: u32,
    pub total_tokens: u32,
    pub timeline: Vec<ConversationEntry>,
}

} // verus!
