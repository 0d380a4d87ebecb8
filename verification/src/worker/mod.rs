pub mod model;
pub mod timeline;
pub mod parser;
pub mod react_prompt;
pub mod rag_prompt;
pub mod think_prompt;
pub mod summary;
pub mod tools;
pub mod error;
pub mod rag;
pub mod llm_types;
pub mod think_agent;
pub mod config;
pub mod tfidf;
pub mod dense_input;
pub mod conversation;
