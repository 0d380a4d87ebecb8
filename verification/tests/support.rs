use lm_agent::orchestrator::prompts::{build_postretrieval_system_prompt, build_preretrieval_system_prompt};
use lm_agent::orchestrator::splitter::{map_file_format, split_doc, FileFormat};
use lm_agent::term_counts::count_terms;
use lm_agent::term_map::TermMap;
use lm_agent::text::{decimal_string, summary_block, trim};
use lm_agent::tui::chat_view::{chat_layout, split_lines, ChatEntry, LineKind, MessageRole};
use lm_agent::tui::file_reader::{is_binary, FileReader};
use lm_agent::worker::config::{get_onnx_log_level, AgentType, Config, OnnxLogLevel, ProviderType};
use lm_agent::worker::dense_input::{model_input, pooled_rows, pooling_divisor};
use lm_agent::worker::error::WorkerError;
use lm_agent::worker::model::{ChatRole, Document, Message};
use lm_agent::worker::summary::{build_summarization_prompt, is_valid_summary, should_summarize, summary_batch, summary_from_reply};
use lm_agent::worker::think_prompt;

fn config(level: &str) -> Config {
    Config {
        grpc_addr: "http://localhost:50051".to_string(),
        http_port: 8080,
        log_json: false,
        max_iterations: 5,
        request_timeout: 30,
        provider_type: ProviderType::Grpc,
        agent_type: AgentType::Rag,
        redis_url: "redis://localhost:6379".to_string(),
        mongo_uri: "mongodb://localhost:27017".to_string(),
        mongo_db: "lm".to_string(),
        history_max_messages: 10,
        summary_interval: 5,
        redis_ttl_secs: 3600,
        qdrant_url: "http://localhost:6334".to_string(),
        qdrant_collection_name: "docs".to_string(),
        embedding_model_path: "model.onnx".to_string(),
        embedding_tokenizer_path: "tokenizer.json".to_string(),
        onnx_log_level: level.to_string(),
    }
}

#[test]
fn onnx_log_levels_are_parsed() {
    assert_eq!(get_onnx_log_level(&config("verbose")).ok(), Some(OnnxLogLevel::Verbose));
    assert_eq!(get_onnx_log_level(&config("warning")).ok(), Some(OnnxLogLevel::Warning));
    assert_eq!(get_onnx_log_level(&config("fatal")).ok(), Some(OnnxLogLevel::Fatal));
    match get_onnx_log_level(&config("loud")) {
        Err(WorkerError::Environment(m)) => assert_eq!(
            m,
            "Failed to parse onnx log level. Available options: verbose, info, warning, error, fatal"
        ),
        _ => panic!("expected an environment error"),
    }
}

#[test]
fn file_formats_and_splitting() {
    assert_eq!(map_file_format("md"), FileFormat::Markdown);
    assert_eq!(map_file_format("markdown"), FileFormat::Markdown);
    assert_eq!(map_file_format("txt"), FileFormat::Unsupported);
    let split = |text: &String, name: &String| vec![format!("{}:{}", name, text)];
    let md = Document { text: "body".to_string(), name: "a.md".to_string(), file_format: "md".to_string() };
    assert_eq!(split_doc(&md, &split), Some(vec!["a.md:body".to_string()]));
    let txt = Document { text: "body".to_string(), name: "a.txt".to_string(), file_format: "txt".to_string() };
    assert_eq!(split_doc(&txt, &split), None);
}

#[test]
fn file_reader_admits_small_markdown_text() {
    let reader = FileReader::new(100);
    assert!(reader.has_supported_extension(Some("md")));
    assert!(!reader.has_supported_extension(Some("txt")));
    assert!(!reader.has_supported_extension(None));
    assert!(reader.admits(Some("md"), 100));
    assert!(!reader.admits(Some("md"), 101));
    let info = reader.file_info("a.md".to_string(), Some("md"), 5, "hello".to_string()).unwrap();
    assert_eq!(info.path, "a.md");
    assert_eq!(info.size, 5);
    assert!(reader.file_info("b.md".to_string(), Some("md"), 3, "a\0b".to_string()).is_none());
}

#[test]
fn binary_detection_looks_at_the_first_block() {
    assert!(!is_binary(b"plain text"));
    assert!(is_binary(b"ab\0cd"));
    let mut late = vec![b'a'; 9000];
    late[8500] = 0;
    assert!(!is_binary(&late));
    late[8191] = 0;
    assert!(is_binary(&late));
}

#[test]
fn lines_are_split_like_str_split() {
    assert_eq!(split_lines("a\nb"), vec!["a".to_string(), "b".to_string()]);
    assert_eq!(split_lines(""), vec!["".to_string()]);
    assert_eq!(split_lines("a\n"), vec!["a".to_string(), "".to_string()]);
}

#[test]
fn chat_layout_wraps_and_scrolls() {
    let entries = vec![
        ChatEntry { role: MessageRole::User, content: "hello\nsecond".to_string() },
        ChatEntry { role: MessageRole::Assistant, content: "x".repeat(20).to_string() },
    ];
    let (lines, scroll) = chat_layout(&entries, 12, 6, 0);
    assert_eq!(lines.len(), 7);
    assert_eq!(lines[0].kind, LineKind::First(MessageRole::User));
    assert_eq!(lines[0].text, "hello");
    assert_eq!(lines[1].kind, LineKind::Continued);
    assert_eq!(lines[3].text, "-".repeat(10));
    // rows: "You: hello" 1, "second" 1, "" 1, rule 1, "Assistant: xxxx...(31 bytes)" 4, "" 1, rule 1
    assert_eq!(scroll, 10 - 4);
    let (_, scrolled) = chat_layout(&entries, 12, 6, 2);
    assert_eq!(scrolled, 4);
    let (_, top) = chat_layout(&entries, 12, 6, 100);
    assert_eq!(top, 0);
}

#[test]
fn model_input_is_cut_to_the_limit() {
    let ids: Vec<u32> = (0..600).collect();
    let input = model_input(&ids, &vec![0; 600], &vec![1; 600]);
    assert_eq!(input.token_ids.len(), 512);
    assert_eq!(input.token_ids[511], 511);
    assert_eq!(input.attention_mask.len(), 512);
    let short = model_input(&[7, 8], &[0, 0], &[1, 1]);
    assert_eq!(short.token_ids, vec![7i64, 8]);
}

#[test]
fn pooling_uses_masked_rows() {
    assert_eq!(pooling_divisor(&[1, 0, 1, 1]), 3);
    assert_eq!(pooling_divisor(&[0, 0]), 1);
    assert_eq!(pooled_rows(&[1, 0, 1], 5), vec![0usize, 2]);
    assert_eq!(pooled_rows(&[1, 1, 1], 2), vec![0usize, 1]);
}

#[test]
fn term_counts_are_sorted_by_index() {
    let mut vocab: TermMap<usize> = TermMap::new();
    vocab.insert("b".to_string(), 1);
    vocab.insert("a".to_string(), 0);
    let counts = count_terms(&vocab, &vec![9], &vec!["b".to_string(), "a".to_string(), "b".to_string(), "z".to_string()]);
    assert_eq!(counts.len(), 2);
    assert_eq!((counts[0].index, counts[0].tf, counts[0].df), (0, 1, 9));
    assert_eq!((counts[1].index, counts[1].tf, counts[1].df), (1, 2, 1));
}

#[test]
fn summaries_are_due_every_interval() {
    assert!(!should_summarize(10, 10, 5));
    assert!(should_summarize(15, 10, 5));
    assert!(!should_summarize(16, 10, 5));
    assert!(should_summarize(20, 10, 5));
}

fn m(role: ChatRole, c: &str) -> Message {
    Message { role, content: c.to_string() }
}

#[test]
fn summary_batch_takes_the_latest_older_messages() {
    let ms: Vec<Message> = (0..15).map(|i| m(ChatRole::User, &i.to_string())).collect();
    let batch = summary_batch(15, &ms, 10, 5).unwrap();
    assert_eq!(batch.len(), 5);
    assert_eq!(batch[0].content, "0");
    assert_eq!(batch[4].content, "4");
    assert!(summary_batch(14, &ms, 10, 5).is_none());
}

#[test]
fn summarization_prompt_holds_the_transcript() {
    let ms = vec![m(ChatRole::User, "hi"), m(ChatRole::Assistant, "hello")];
    let p = build_summarization_prompt(&ms, Some("before"));
    assert!(p.contains("[user]: hi\n[assistant]: hello"));
    assert!(p.contains("## Previous Context Summary\nbefore"));
    assert!(!build_summarization_prompt(&ms, None).contains("Previous Context Summary"));
}

#[test]
fn summary_validation_rejects_echoes() {
    assert!(is_valid_summary("The user asked about the weather and was told it was sunny."));
    assert!(!is_valid_summary("too short"));
    assert!(!is_valid_summary("{\"user\": \"hi there friend\", \"assistant\": \"hello\"}"));
    assert!(!is_valid_summary("[{\"role\": \"user\", \"content\": \"what is the weather\"}]"));
    assert_eq!(summary_from_reply(Some("parsed".to_string()), "raw".to_string()), "parsed");
    assert_eq!(summary_from_reply(None, "raw".to_string()), "raw");
}

#[test]
fn prompts_carry_schema_summary_and_tools() {
    let pre = build_preretrieval_system_prompt("- t: d", Some("sum"), "{schema}");
    assert!(pre.contains("```json\n{schema}\n```\n"));
    assert!(pre.contains("\n## Conversation Summary\nsum\n"));
    assert!(pre.contains("- t: d"));
    let post = build_postretrieval_system_prompt("- t: d", None, "{s}");
    assert!(!post.contains("Conversation Summary"));
    let think = think_prompt::build_system_prompt("- t: d", "{s}");
    assert!(think.contains("## Available Tools\n- t: d"));
}

#[test]
fn text_helpers() {
    assert_eq!(trim("  a b \n"), "a b");
    assert_eq!(decimal_string(0), "0");
    assert_eq!(decimal_string(1234), "1234");
    assert_eq!(summary_block(Some("s")), "\n## Conversation Summary\ns\n");
    assert_eq!(summary_block(Some("")), "");
}

#[test]
fn an_empty_summary_gives_the_prompt_without_one() {
    assert_eq!(
        build_preretrieval_system_prompt("- t: d", Some(""), "{s}"),
        build_preretrieval_system_prompt("- t: d", None, "{s}")
    );
    assert_eq!(
        build_postretrieval_system_prompt("- t: d", Some(""), "{s}"),
        build_postretrieval_system_prompt("- t: d", None, "{s}")
    );
}
