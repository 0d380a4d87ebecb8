use lm_agent::worker::parser::{extract_between, extract_between_to_end, parse_agent_output, AgentAction};

#[test]
fn test_parse_final_answer() {
    let text = "Thought: I need to think about this.\nFinal Answer: The result is 108.";
    let (thought, action) = parse_agent_output(text);
    assert_eq!(thought.unwrap(), "I need to think about this.");
    assert_eq!(action, AgentAction::FinalAnswer("The result is 108.".into()));
}

#[test]
fn test_parse_continue() {
    let text = "Thought: Let me calculate this.\nAction: calculate[15*7+3]";
    let (thought, action) = parse_agent_output(text);
    assert_eq!(thought.unwrap(), "Let me calculate this.");
    assert!(matches!(action, AgentAction::Continue(_)));
}

#[test]
fn test_parse_final_answer_no_thought() {
    let text = "Final Answer: 42";
    let (thought, action) = parse_agent_output(text);
    assert!(thought.is_none());
    assert_eq!(action, AgentAction::FinalAnswer("42".into()));
}

#[test]
fn test_parse_final_answer_multiline() {
    let text = "Thought: Step 1.\nThought: Step 2.\nFinal Answer: The capital is Paris.";
    let (thought, action) = parse_agent_output(text);
    assert!(thought.is_some());
    assert_eq!(action, AgentAction::FinalAnswer("The capital is Paris.".into()));
}

#[test]
fn continue_keeps_the_whole_output() {
    let text = "Thought: Let me calculate this.\nAction: calculate[15*7+3]";
    let (_, action) = parse_agent_output(text);
    assert_eq!(action, AgentAction::Continue(text.to_string()));
}

#[test]
fn extract_between_stops_at_the_end_marker() {
    assert_eq!(extract_between("a [x] b", "[", "]"), Some("x".to_string()));
    assert_eq!(extract_between("no markers", "[", "]"), None);
    assert_eq!(extract_between("open [ only", "[", "]"), None);
}

#[test]
fn extract_between_to_end_takes_the_rest() {
    assert_eq!(extract_between_to_end("Final Answer:  done  ", "Final Answer:"), Some("done".to_string()));
    assert_eq!(extract_between_to_end("nothing here", "Final Answer:"), None);
}
