use vstd::prelude::*;
use vstd::string::*;

use crate::text::str_eq;
use crate::worker::model::Document;

verus! {

/// The formats of document that can be split.
#[derive(Debug, Clone, Copy, PartialEq, Eq, Structural)]
pub enum FileFormat {
    Markdown,
    Unsupported,
}

/// The format that a format name stands for: "md" and "markdown" are Markdown.
pub open spec fn file_format_of(name: Seq<char>) -> FileFormat {
    if name == "md"@ || name == "markdown"@ {
        FileFormat::Markdown
    } else {
        FileFormat::Unsupported
    }
}

/// The format that a format name stands for (see `file_format_of`).
pub fn map_file_format(format_str: &str) -> (r: FileFormat)
    ensures
        r == file_format_of(format_str@),
{
    if str_eq(format_str, "md") || str_eq(format_str, "markdown") {
        FileFormat::Markdown
    } else {
        FileFormat::Unsupported
    }
}

/// Splits a document into chunks: a Markdown document is handed, with its text and name, to
/// `split_markdown`, whose chunks are returned; a document of any other format is not split.
pub fn split_doc<S: Fn(&String, &String) -> Vec<String>>(doc: &Document, split_markdown: &S) -> (r: Option<Vec<String>>)
    requires
        file_format_of(doc.file_format@) == FileFormat::Markdown ==> call_requires(
            *split_markdown,
            (&doc.text, &doc.name),
        ),
    ensures
        file_format_of(doc.file_format@) == FileFormat::Markdown ==> (r matches Some(chunks)
            && call_ensures(*split_markdown, (&doc.text, &doc.name), chunks)),
        file_format_of(doc.file_format@) == FileFormat::Unsupported ==> r is None,
{
    match map_file_format(doc.file_format.as_str()) {
        FileFormat::Markdown => Some(split_markdown(&doc.text, &doc.name)),
        FileFormat::Unsupported => None,
    }
}

} // verus!
