use vstd::prelude::*;
use vstd::string::*;
use vstd::utf8::encode_utf8;

use crate::text::{concat2, str_eq};

verus! {

/// A document file that was read.
#[derive(Debug)]
pub struct FileInfo {
    pub path: String,
    pub content: String,
    pub size: u64,
}

/// Decides which files are read as documents: those with a supported extension, no larger
/// than a limit, and whose content is not binary.
pub struct FileReader {
    max_file_size: u64,
    supported_extensions: Vec<String>,
}

/// Whether the first 8192 bytes of `content` (or all of it, when shorter) hold a zero byte.
pub open spec fn is_binary_spec(content: Seq<u8>) -> bool {
    exists|i: int| 0 <= i < content.len() && i < 8192 && content[i] == 0
}

/// Whether `content` looks binary (see `is_binary_spec`).
pub fn is_binary(content: &[u8]) -> (r: bool)
    ensures
        r == is_binary_spec(content@),
{
    let check_len: usize = if content.len() < 8192 { content.len() } else { 8192 };
    let mut i: usize = 0;
    while i < check_len
        invariant
            check_len <= content@.len(),
            check_len <= 8192,
            check_len == content@.len() || check_len == 8192,
            i <= check_len,
            forall|k: int| 0 <= k < i ==> content@[k] != 0,
        decreases check_len - i,
    {
        if content[i] == 0 {
            return true;
        }
        i = i + 1;
    }
    false
}

impl FileReader {
    /// The largest size, in bytes, of a file that is read.
    pub closed spec fn max_size(&self) -> u64 {
        self.max_file_size
    }

    /// The extensions, with their leading dot, of the files that are read.
    pub closed spec fn extensions(&self) -> Seq<Seq<char>> {
        self.supported_extensions@.map_values(|e: String| e@)
    }

    /// A reader of Markdown files (".md") of at most `max_file_size` bytes.
    pub fn new(max_file_size: u64) -> (r: Self)
        ensures
            r.max_size() == max_file_size,
            r.extensions() == seq![".md"@],
    {
        let mut supported_extensions: Vec<String> = Vec::new();
        supported_extensions.push(".md".to_string());
        let r = FileReader { max_file_size, supported_extensions };
        assert(r.extensions() =~= seq![".md"@]);
        r
    }

    /// Whether a file whose extension (the part of its name after the last dot, if any) is
    /// `extension` has a supported extension: "." followed by it is one of `extensions`.
    pub fn has_supported_extension(&self, extension: Option<&str>) -> (r: bool)
        ensures
            r == (extension matches Some(e) && self.extensions().contains("."@ + e@)),
    {
        match extension {
            None => false,
            Some(e) => {
                let dotted = concat2(".", e);
                let mut i: usize = 0;
                while i < self.supported_extensions.len()
                    invariant
                        i <= self.supported_extensions@.len(),
                        dotted@ == "."@ + e@,
                        extension == Some(e),
                        forall|k: int| 0 <= k < i ==> self.extensions()[k] != dotted@,
                    decreases self.supported_extensions@.len() - i,
                {
                    if str_eq(self.supported_extensions[i].as_str(), dotted.as_str()) {
                        assert(self.extensions().len() == self.supported_extensions@.len());
                        assert(self.extensions()[i as int] == dotted@);
                        assert(self.extensions().contains(dotted@));
                        return true;
                    }
                    i = i + 1;
                }
                proof {
                    if self.extensions().contains(dotted@) {
                        let k = choose|k: int| 0 <= k < self.extensions().len() && self.extensions()[k] == dotted@;
                        assert(self.extensions()[k] != dotted@);
                    }
                }
                false
            },
        }
    }

    /// Whether a file of this extension and size is to be read at all.
    pub fn admits(&self, extension: Option<&str>, size: u64) -> (r: bool)
        ensures
            r == ((extension matches Some(e) && self.extensions().contains("."@ + e@)) && size
                <= self.max_size()),
    {
        self.has_supported_extension(extension) && size <= self.max_file_size
    }

    /// The document read from `path`, when the file is admitted (see `admits`) and its
    /// content is not binary.
    pub fn file_info(&self, path: String, extension: Option<&str>, size: u64, content: String) -> (r: Option<FileInfo>)
        ensures
            r is Some <==> ((extension matches Some(e) && self.extensions().contains("."@ + e@))
                && size <= self.max_size() && !is_binary_spec(encode_utf8(content@))),
            r matches Some(info) ==> info.path == path && info.content == content && info.size == size,
    {
        if !self.admits(extension, size) {
            return None;
        }
        if is_binary(content.as_str().as_bytes()) {
            return None;
        }
        Some(FileInfo { path, content, size })
    }
}

} // verus!
