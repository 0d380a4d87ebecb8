use lm_agent::orchestrator::schema::{
    error_preview, json_candidates, json_slice_between, strip_markdown_fences, AgentResponse,
    PostRetrievalResponse, PreRetrievalResponse, ReActAgentResponse,
};
use lm_agent::worker::model::AgentAction;

fn action_from_value(v: &serde_json::Value) -> Option<AgentAction> {
    let obj = v.as_object()?;
    if let (Some(name), Some(input)) = (
        obj.get("tool_name").and_then(|x| x.as_str()),
        obj.get("tool_input").and_then(|x| x.as_str()),
    ) {
        return Some(AgentAction::ExecuteTool { tool_name: name.to_string(), tool_input: input.to_string() });
    }
    let answer = obj.get("answer").and_then(|x| x.as_str())?;
    Some(AgentAction::Finish { answer: answer.to_string() })
}

fn react_from_json(text: &str) -> Option<ReActAgentResponse> {
    let v: serde_json::Value = serde_json::from_str(text).ok()?;
    let obj = v.as_object()?;
    let thought = obj.get("thought").and_then(|x| x.as_str())?;
    let action = action_from_value(obj.get("action")?)?;
    Some(ReActAgentResponse { thought: thought.to_string(), action })
}

fn extract_llm_response(raw: &str) -> Result<ReActAgentResponse, String> {
    for candidate in json_candidates(raw) {
        if let Some(resp) = react_from_json(&candidate) {
            return Ok(resp);
        }
    }
    Err(error_preview(raw))
}

#[test]
fn test_extract_tool_call() {
    let raw = r#"{"thought": "I need to calculate", "action": {"tool_name": "calculate", "tool_input": "2+2"}}"#;
    let resp = extract_llm_response(raw).unwrap();
    assert_eq!(resp.thought, "I need to calculate");
    assert!(matches!(resp.action, AgentAction::ExecuteTool { .. }));
}

#[test]
fn test_extract_finish() {
    let raw = r#"{"thought": "The answer is clear", "action": {"answer": "42"}}"#;
    let resp = extract_llm_response(raw).unwrap();
    assert_eq!(resp.thought, "The answer is clear");
    match resp.action {
        AgentAction::Finish { answer } => assert_eq!(answer, "42"),
        _ => panic!("expected Finish"),
    }
}

#[test]
fn schema_test_extract_with_markdown_fence() {
    let raw = "```json\n{\"thought\": \"done\", \"action\": {\"answer\": \"Paris\"}}\n```";
    let resp = extract_llm_response(raw).unwrap();
    match resp.action {
        AgentAction::Finish { answer } => assert_eq!(answer, "Paris"),
        _ => panic!("expected Finish"),
    }
}

#[test]
fn schema_test_extract_invalid() {
    let raw = "some random text without json";
    assert!(extract_llm_response(raw).is_err());
}

#[test]
fn test_extract_missing_action() {
    let raw = r#"{"thought": "just thinking"}"#;
    assert!(extract_llm_response(raw).is_err());
}

#[test]
fn strip_markdown_fences_removes_json_fence() {
    assert_eq!(strip_markdown_fences("```json\n{\"a\": 1}\n```"), "{\"a\": 1}");
    assert_eq!(strip_markdown_fences("```\nplain\n```"), "plain");
    assert_eq!(strip_markdown_fences("  no fence  "), "no fence");
}

#[test]
fn json_slice_between_finds_the_block() {
    assert_eq!(json_slice_between("pre ```json\n{}\n``` post", "```json\n", "\n```"), "{}");
    assert_eq!(json_slice_between("whole", "", ""), "whole");
    assert_eq!(json_slice_between("no prefix here", "<<", ">>"), "no prefix here");
}

#[test]
fn candidates_start_with_the_cleaned_reply() {
    let c = json_candidates("  ```json\n{\"x\": 2}\n```  ");
    assert_eq!(c.len(), 4);
    assert_eq!(c[0], "{\"x\": 2}");
    assert_eq!(c[3], "{\"x\": 2}");
}

#[test]
fn error_preview_is_cut_to_two_hundred_chars() {
    let long = "x".repeat(300);
    assert_eq!(error_preview(&long).chars().count(), 200);
    assert_eq!(error_preview("short"), "short");
}

#[test]
fn retrieval_responses_build_their_thoughts() {
    let pre = PreRetrievalResponse {
        intent: "find".to_string(),
        information_gap: "docs".to_string(),
        action: AgentAction::Finish { answer: "a".to_string() },
    };
    assert_eq!(pre.thought(), "INTENT:\nfind\n\nINFORMATION GAP:\ndocs");
    let post = PostRetrievalResponse {
        context_evaluating: "c".to_string(),
        self_questions: "q".to_string(),
        self_answers: "s".to_string(),
        final_answer: "f".to_string(),
    };
    assert_eq!(post.thought(), "CONTEXT EVALUATING:\nc\n\nSELF QUESTIONS:\nq\n\nSELF ANSWERS:\ns");
    match post.action() {
        AgentAction::Finish { answer } => assert_eq!(answer, "f"),
        _ => panic!("expected Finish"),
    }
}
