use lm_agent::orchestrator::schema::{PostRetrievalResponse, ReActAgentResponse};
use lm_agent::worker::error::WorkerError;
use lm_agent::worker::llm_types::{messages_to_llm, GenerateOutput, LlmRole};
use lm_agent::worker::model::{AgentAction, ChatRole, Message};
use lm_agent::worker::rag::{
    absorb_llm_outcome, check_iteration_limit, effective_max_iterations, finish_cascade,
    handle_response, process_llm_response, process_stage_response, AgentState, LlmCallOutcome,
    ToolHandler,
};
use lm_agent::worker::tools::{calculator_text, CalculatorTool, InMemoryToolRegistry, Tool, ToolRegistry};

fn registry() -> InMemoryToolRegistry {
    InMemoryToolRegistry::from_tools(vec![Box::new(CalculatorTool)])
}

fn user(text: &str) -> Message {
    Message { role: ChatRole::User, content: text.to_string() }
}

#[test]
fn calculator_evaluates_and_reports_errors() {
    let calc = CalculatorTool;
    assert_eq!(calc.name(), "calculate");
    assert_eq!(calc.execute("2+2"), "4");
    assert_eq!(calc.execute("15*7+3"), "108");
    assert!(calc.execute("2+").starts_with("Error evaluating expression: "));
}

#[test]
fn registry_runs_registered_tools_only() {
    let reg = registry();
    assert_eq!(reg.tool_count(), 1);
    assert_eq!(reg.execute("calculate", "1+1"), Some("2".to_string()));
    assert_eq!(reg.execute("search", "x"), None);
    assert_eq!(
        reg.descriptions(),
        "- calculate: evaluates a mathematical expression (supports +, -, *, /, parentheses, functions)"
    );
}

#[test]
fn registering_twice_keeps_one_tool() {
    let mut reg = InMemoryToolRegistry::new();
    reg.register(Box::new(CalculatorTool));
    reg.register(Box::new(CalculatorTool));
    assert_eq!(reg.tool_count(), 1);
}

#[test]
fn calculator_answers_are_values_or_error_texts() {
    let calc = CalculatorTool;
    assert_eq!(calc.execute("(1+2)*3"), "9");
    let e = calc.execute("1+*");
    assert!(e.starts_with("Error evaluating expression: "));
    assert!(e.len() > "Error evaluating expression: ".len());
}

#[test]
fn consume_tokens_adds_and_refuses_overflow() {
    let mut state = AgentState::new(&vec![user("hi")]);
    assert!(state.consume_tokens(10, 5).is_ok());
    assert_eq!(state.tokens_used, 15);
    match state.consume_tokens(u32::MAX, 1) {
        Err(WorkerError::Agent(m)) => assert_eq!(m, "token counter overflow"),
        _ => panic!("expected overflow error"),
    }
    assert_eq!(state.tokens_used, 15);
}

#[test]
fn parse_errors_are_recorded_with_a_preview() {
    let mut state = AgentState::new(&vec![]);
    let raw = "y".repeat(250);
    state.record_parse_error(&raw);
    let thought = &state.reasoning_steps[0].thought;
    assert!(thought.starts_with("[PARSE ERROR] LLM response could not be parsed: "));
    assert_eq!(thought.chars().count(), "[PARSE ERROR] LLM response could not be parsed: ".len() + 200);
}

#[test]
fn tool_handler_reports_missing_tools() {
    let reg = registry();
    let handler = ToolHandler::new(&reg);
    assert_eq!(
        handler.execute("search", "x"),
        "Tool 'search' not found. Available: - calculate: evaluates a mathematical expression (supports +, -, *, /, parentheses, functions)"
    );
    let empty = InMemoryToolRegistry::new();
    let h2 = ToolHandler::new(&empty);
    assert_eq!(h2.execute("search", "x"), "Tool 'search' not found. Available: none");
}

#[test]
fn empty_tool_calls_are_refused() {
    let reg = registry();
    let handler = ToolHandler::new(&reg);
    let mut state = AgentState::new(&vec![]);
    handler.execute_with_state(&mut state, "t".to_string(), " ".to_string(), "1".to_string());
    assert_eq!(
        state.reasoning_steps[0].observation.as_deref(),
        Some("Tool invocation failed: tool_name and tool_input must be non-empty. Got tool_name=' ', tool_input='1'")
    );
}

#[test]
fn tool_call_then_final_answer() {
    let reg = registry();
    let handler = ToolHandler::new(&reg);
    let mut state = AgentState::new(&vec![user("what is 15*7+3?")]);
    let call = ReActAgentResponse {
        thought: "compute".to_string(),
        action: AgentAction::ExecuteTool { tool_name: "calculate".to_string(), tool_input: "15*7+3".to_string() },
    };
    assert!(handle_response(&mut state, call, &handler).is_none());
    assert_eq!(state.reasoning_steps.len(), 1);
    assert_eq!(state.reasoning_steps[0].observation.as_deref(), Some("108"));
    let done = ReActAgentResponse {
        thought: "done".to_string(),
        action: AgentAction::Finish { answer: "108".to_string() },
    };
    state.tokens_used = 7;
    let result = handle_response(&mut state, done, &handler).unwrap();
    assert_eq!(result.final_answer, "108");
    assert_eq!(result.total_tokens, 7);
    assert_eq!(result.reasoning_steps.len(), 1);
    assert_eq!(state.conversation.len(), 2);
    assert_eq!(state.conversation[1].role, ChatRole::Assistant);
}

#[test]
fn unparsed_reply_asks_for_json() {
    let reg = registry();
    let handler = ToolHandler::new(&reg);
    let mut state = AgentState::new(&vec![user("hi")]);
    assert!(process_llm_response(&mut state, Err("junk".to_string()), &handler).is_none());
    assert_eq!(state.conversation.len(), 2);
    assert_eq!(state.conversation[1].role, ChatRole::User);
    assert_eq!(
        state.conversation[1].content,
        "Your last response was not valid JSON. Output ONLY valid JSON matching the schema."
    );
}

#[test]
fn iteration_limit_stops_the_loop() {
    let state = AgentState::new(&vec![]);
    assert!(check_iteration_limit(3, 3, &state).is_none());
    let r = check_iteration_limit(4, 3, &state).unwrap();
    assert_eq!(r.final_answer, "Agent stopped after 3 iterations without final answer");
    assert_eq!(effective_max_iterations(0), 1);
    assert_eq!(effective_max_iterations(5), 5);
}

#[test]
fn model_call_outcomes_become_errors_or_text() {
    let mut state = AgentState::new(&vec![]);
    match absorb_llm_outcome(&mut state, LlmCallOutcome::TimedOut, 30) {
        Err(WorkerError::LlmTimeout(s)) => assert_eq!(s, 30),
        _ => panic!("expected timeout"),
    }
    match absorb_llm_outcome(&mut state, LlmCallOutcome::Failed("down".to_string()), 30) {
        Err(WorkerError::LlmProvider(m)) => assert_eq!(m, "down"),
        _ => panic!("expected provider error"),
    }
    let out = GenerateOutput { text: "{}".to_string(), tokens_processed: 3, tokens_generated: 4 };
    assert_eq!(absorb_llm_outcome(&mut state, LlmCallOutcome::Replied(out), 30).ok(), Some("{}".to_string()));
    assert_eq!(state.tokens_used, 7);
}

#[test]
fn cascade_stages_finish_or_fail() {
    let reg = registry();
    let handler = ToolHandler::new(&reg);
    let mut state = AgentState::new(&vec![user("q")]);
    match process_stage_response::<PostRetrievalResponse>(&mut state, Err("bad".to_string()), &handler) {
        Err(WorkerError::Agent(m)) => assert_eq!(m, "Failed to parse LLM response as JSON"),
        _ => panic!("expected agent error"),
    }
    let post = PostRetrievalResponse {
        context_evaluating: "c".to_string(),
        self_questions: "q".to_string(),
        self_answers: "a".to_string(),
        final_answer: "the answer".to_string(),
    };
    let stage = process_stage_response(&mut state, Ok(post), &handler);
    let result = finish_cascade(stage).ok().unwrap();
    assert_eq!(result.final_answer, "the answer");
    match finish_cascade(Ok(None)) {
        Err(WorkerError::Agent(m)) => assert_eq!(m, "Failed to process last retrieval step"),
        _ => panic!("expected agent error"),
    }
}

#[test]
fn messages_for_the_model_keep_their_roles() {
    let ms = vec![user("hi"), Message { role: ChatRole::Assistant, content: "hello".to_string() }];
    let out = messages_to_llm(&ms, "sys");
    assert_eq!(out.len(), 3);
    assert_eq!(out[0].role, LlmRole::System);
    assert_eq!(out[0].content, "sys");
    assert_eq!(out[1].role, LlmRole::User);
    assert_eq!(out[2].role, LlmRole::Assistant);
    assert_eq!(out[2].content, "hello");
}

#[test]
fn calculator_text_formats_outcomes() {
    assert_eq!(calculator_text(Ok("4".to_string())), "4");
    assert_eq!(calculator_text(Err("bad".to_string())), "Error evaluating expression: bad");
}

#[test]
fn later_tools_replace_earlier_ones_under_a_name() {
    let reg = InMemoryToolRegistry::from_tools(vec![Box::new(CalculatorTool), Box::new(CalculatorTool)]);
    assert_eq!(reg.tool_count(), 1);
    assert_eq!(reg.execute("calculate", "2*3"), Some("6".to_string()));
}
