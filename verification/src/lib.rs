pub mod text;
pub mod term_map;
pub mod term_counts;
pub mod nlp;
pub mod orchestrator;
pub mod worker;
pub mod tui;
