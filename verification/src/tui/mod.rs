pub mod file_reader;
pub mod chat_view;
