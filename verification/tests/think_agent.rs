use lm_agent::worker::conversation::{
    build_summarization_prompt as combined_prompt, build_timeline_entries as string_timeline,
    conversation_key, summary_batch as string_summary_batch, timeline_to_messages as string_messages,
    ConversationDoc, ConversationEntry,
};
use lm_agent::worker::error::WorkerError;
use lm_agent::worker::llm_types::GenerateOutput;
use lm_agent::worker::model::ChatRole;
use lm_agent::worker::think_agent::{
    absorb_reply, decide, role_from_name, to_model_messages, Action, AgentAction, AgentResult,
    AgentState, AgentStep, LlmResponse, Message, ThinkStep,
};
use lm_agent::worker::tools::{CalculatorTool, InMemoryToolRegistry};

fn msg(role: &str, content: &str) -> Message {
    Message { role: role.to_string(), content: content.to_string() }
}

fn registry() -> InMemoryToolRegistry {
    InMemoryToolRegistry::from_tools(vec![Box::new(CalculatorTool)])
}

#[test]
fn roles_are_read_from_their_names() {
    assert_eq!(role_from_name("system"), ChatRole::System);
    assert_eq!(role_from_name("assistant"), ChatRole::Assistant);
    assert_eq!(role_from_name("user"), ChatRole::User);
    assert_eq!(role_from_name("tool"), ChatRole::User);
}

#[test]
fn model_messages_start_with_the_system_prompt() {
    let ms = vec![msg("user", "hi"), msg("assistant", "hello")];
    let out = to_model_messages(&ms, "be precise");
    assert_eq!(out.len(), 3);
    assert_eq!(out[0].role, ChatRole::System);
    assert_eq!(out[0].content, "be precise");
    assert_eq!(out[2].role, ChatRole::Assistant);
}

#[test]
fn add_turn_records_the_observation() {
    let state = AgentState::new(&[msg("user", "hi")]);
    let next = state.add_turn("t".to_string(), "42".to_string(), None);
    assert_eq!(next.id, state.id);
    assert_eq!(next.conversation.len(), 2);
    assert_eq!(next.conversation[1].role, "system");
    assert_eq!(next.conversation[1].content, "Observation: 42");
    assert_eq!(next.reasoning_steps.len(), 1);
    assert_eq!(state.reasoning_steps.len(), 0);
}

#[test]
fn replies_are_counted_or_turned_into_errors() {
    let mut state = AgentState::new(&[]);
    let out = GenerateOutput { text: "x".to_string(), tokens_processed: 2, tokens_generated: 3 };
    assert_eq!(absorb_reply(&mut state, Ok(out)).ok(), Some("x".to_string()));
    assert_eq!(state.tokens_used, 5);
    match absorb_reply(&mut state, Err("boom".to_string())) {
        Err(WorkerError::LlmProvider(m)) => assert_eq!(m, "boom"),
        _ => panic!("expected provider error"),
    }
    let big = GenerateOutput { text: "y".to_string(), tokens_processed: u32::MAX, tokens_generated: 0 };
    assert_eq!(absorb_reply(&mut state, Ok(big)).ok(), Some("y".to_string()));
    assert_eq!(state.tokens_used, 5);
}

#[test]
fn unparsed_replies_retry_then_give_up() {
    let reg = registry();
    let state = AgentState::new(&[msg("user", "hi")]);
    let state = match decide(state, None, &reg) {
        ThinkStep::Again(s) => s,
        ThinkStep::Done(_) => panic!("expected a retry"),
    };
    assert_eq!(state.conversation[1].role, "system");
    let mut state = state;
    state.reasoning_steps.push(AgentStep { thought: "a".to_string(), observation: None, action: None });
    state.reasoning_steps.push(AgentStep { thought: "b".to_string(), observation: None, action: None });
    match decide(state, None, &reg) {
        ThinkStep::Done(r) => assert_eq!(r.final_answer, "Failed to produce valid JSON after 2 attempts"),
        ThinkStep::Again(_) => panic!("expected to give up"),
    }
}

#[test]
fn thoughts_tools_and_answers() {
    let reg = registry();
    let state = AgentState::new(&[msg("user", "15*7+3?")]);
    let reply = LlmResponse::Think {
        thought: "use the calculator".to_string(),
        next_action: Some(Action::ExecuteTool { tool_name: "calculate".to_string(), tool_input: "15*7+3".to_string() }),
    };
    let state = match decide(state, Some(reply), &reg) {
        ThinkStep::Again(s) => s,
        ThinkStep::Done(_) => panic!("expected to go on"),
    };
    assert_eq!(state.conversation.last().unwrap().content, "Observation: 108");
    let state = match decide(state, Some(LlmResponse::Think { thought: "hm".to_string(), next_action: None }), &reg) {
        ThinkStep::Again(s) => s,
        ThinkStep::Done(_) => panic!("expected to go on"),
    };
    assert_eq!(state.conversation.last().unwrap().role, "assistant");
    assert_eq!(state.reasoning_steps.len(), 2);
    match decide(state, Some(LlmResponse::FinalAnswer { answer: "108".to_string() }), &reg) {
        ThinkStep::Done(r) => {
            assert_eq!(r.final_answer, "108");
            assert_eq!(r.reasoning_steps.len(), 2);
        }
        ThinkStep::Again(_) => panic!("expected the end"),
    }
}

#[test]
fn string_timelines_round_trip() {
    let result = AgentResult {
        final_answer: "done".to_string(),
        total_tokens: 3,
        reasoning_steps: vec![AgentStep {
            thought: "t".to_string(),
            observation: Some("o".to_string()),
            action: Some(AgentAction::ExecuteTool { tool_name: "calculate".to_string(), tool_input: "1".to_string() }),
        }],
    };
    let entries = string_timeline(&msg("user", "q"), &result);
    assert_eq!(entries.len(), 3);
    let back = string_messages(&entries);
    assert_eq!(back.len(), 2);
    assert_eq!(back[0].content, "q");
    assert_eq!(back[1].role, "assistant");
    assert_eq!(back[1].content, "done");
}

#[test]
fn conversation_docs_count_and_split_messages() {
    let mut doc = ConversationDoc::new("c1".to_string());
    assert_eq!(doc.created_at_ms, doc.updated_at_ms);
    assert_eq!(doc.message_count(), 0);
    doc.timeline.push(ConversationEntry::Message { role: "user".to_string(), content: "a".to_string() });
    doc.timeline.push(ConversationEntry::Step { thought: "s".to_string(), action: None, observation: None });
    doc.timeline.push(ConversationEntry::Message { role: "assistant".to_string(), content: "b".to_string() });
    doc.timeline.push(ConversationEntry::Message { role: "user".to_string(), content: "c".to_string() });
    assert_eq!(doc.message_count(), 3);
    assert_eq!(doc.to_messages().len(), 3);
    let older = doc.older_messages(1);
    assert_eq!(older.len(), 2);
    assert_eq!(older[1].content, "b");
    assert!(doc.older_messages(3).is_empty());
}

#[test]
fn combined_summary_prompt_lists_messages() {
    let ms = vec![msg("user", "hi"), msg("assistant", "hello")];
    let p = combined_prompt(&ms, Some("earlier"));
    assert!(p.contains("\n## Previous Summary\nearlier\n"));
    assert!(p.contains("## New Messages to Incorporate\n[user]: hi\n[assistant]: hello\n\n## Combined Summary"));
    let q = combined_prompt(&ms, Some(""));
    assert!(!q.contains("Previous Summary"));
}

#[test]
fn cache_keys_are_prefixed() {
    assert_eq!(conversation_key("abc"), "conv:abc");
}

#[test]
fn string_summary_batch_takes_what_there_is() {
    let ms: Vec<Message> = (0..13).map(|i| msg("user", &i.to_string())).collect();
    let batch = string_summary_batch(15, &ms, 10, 5).unwrap();
    assert_eq!(batch.len(), 3);
    assert_eq!(batch[0].content, "0");
    let ms: Vec<Message> = (0..20).map(|i| msg("user", &i.to_string())).collect();
    let batch = string_summary_batch(20, &ms, 10, 5).unwrap();
    assert_eq!(batch.len(), 5);
    assert_eq!(batch[0].content, "5");
    assert!(string_summary_batch(12, &ms, 10, 5).is_none());
}
