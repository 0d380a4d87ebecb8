pub mod prompts;
pub mod schema;
pub mod sparse;
pub mod splitter;
