//! Documents and the processor that prepares and chunks their content.

use vstd::prelude::*;
use vstd::string::{StrSliceExecFns, StringExecFns};
use std::path::{Path, PathBuf};
use crate::chunking::{chunk_chars, chunks};
use crate::cleaner::{cleaned, DocumentCleaner};
use crate::config::ProcessingConfig;
use crate::error::SmartFetchError;
use crate::lines::{lines, split_lines, split_words, words};
use crate::pattern::compiles;
use crate::reflow::{reflow_chars, reflowed};
use crate::text::{
    lowercase, lowercased, rows, string_of_range, to_chars, to_string, trim, trim_range, views,
};

verus! {

/// A path of the file system, borrowed.
#[verifier::external_type_specification]
#[verifier::external_body]
pub struct ExPath(Path);

/// A path of the file system, owned.
#[verifier::external_type_specification]
#[verifier::external_body]
pub struct ExPathBuf(PathBuf);

/// The extension of a path, where it has one that is text: what stands after
/// the last dot of its file name.
pub uninterp spec fn path_extension(path: &Path) -> Option<Seq<char>>;

/// The path that an owned path holds.
pub uninterp spec fn path_of(path: &PathBuf) -> &Path;

/// Calls `Path::extension`, and `OsStr::to_str` on what it returns. The
/// result depends on the path alone.
#[verifier::external_body]
pub(crate) fn extension_of(path: &Path) -> (ext: Option<String>)
    ensures
        ext is Some <==> path_extension(path) is Some,
        ext is Some ==> ext->Some_0@ == path_extension(path)->Some_0,
{
    path.extension().and_then(|e| e.to_str()).map(|s| s.to_string())
}

/// Calls `PathBuf::as_path`.
#[verifier::external_body]
pub(crate) fn as_path(path: &PathBuf) -> (p: &Path)
    ensures
        p == path_of(path),
{
    path.as_path()
}

/// The clone of an owned path is the same path.
pub assume_specification[ <PathBuf as Clone>::clone ](path: &PathBuf) -> (copy: PathBuf)
    ensures
        copy == *path,
;

/// A document as it was loaded.
#[derive(Debug, Clone)]
pub struct Document {
    pub path: PathBuf,
    pub content: String,
    pub content_type: String,
    pub size_bytes: usize,
    pub metadata: DocumentMetadata,
}

/// What is known of a document besides its content.
#[derive(Debug, Clone, Default)]
pub struct DocumentMetadata {
    pub title: Option<String>,
    pub author: Option<String>,
    pub created_at: Option<String>,
    pub modified_at: Option<String>,
    pub word_count: usize,
    pub line_count: usize,
}

/// The figures of a document.
#[derive(Debug)]
pub struct DocumentStats {
    pub size_bytes: usize,
    pub word_count: usize,
    pub line_count: usize,
    pub content_type: String,
    pub estimated_tokens: usize,
}

/// The content type that goes with an extension in lower case.
pub open spec fn content_type_of(extension: Seq<char>) -> Seq<char> {
    if extension == "md"@ {
        "text/markdown"@
    } else if extension == "json"@ {
        "application/json"@
    } else if extension == "yaml"@ || extension == "yml"@ {
        "text/yaml"@
    } else if extension == "toml"@ {
        "text/toml"@
    } else if extension == "xml"@ {
        "application/xml"@
    } else if extension == "csv"@ {
        "text/csv"@
    } else {
        "text/plain"@
    }
}

/// The extension that a path is judged by: its own in lower case, or the
/// empty one where it has none.
pub open spec fn judged_extension(path: &Path) -> Seq<char> {
    match path_extension(path) {
        Some(e) => lowercased(e),
        None => lowercased(Seq::empty()),
    }
}

/// `line` without the hash signs at its start.
pub open spec fn strip_hashes(line: Seq<char>) -> Seq<char>
    decreases line.len(),
{
    if line.len() > 0 && line[0] == '#' {
        strip_hashes(line.drop_first())
    } else {
        line
    }
}

/// The first of `ls` that starts with a hash sign.
pub open spec fn first_heading(ls: Seq<Seq<char>>) -> Option<Seq<char>>
    decreases ls.len(),
{
    if ls.len() == 0 {
        None
    } else if ls[0].len() > 0 && ls[0][0] == '#' {
        Some(ls[0])
    } else {
        first_heading(ls.drop_first())
    }
}

/// The title of a content: its first line that starts with a hash sign,
/// without the hash signs at its start, trimmed.
pub open spec fn title_of(s: Seq<char>) -> Option<Seq<char>> {
    match first_heading(lines(s)) {
        Some(line) => Some(trim(strip_hashes(line))),
        None => None,
    }
}

/// The view of a string that may be absent.
pub open spec fn optional_view(s: Option<String>) -> Option<Seq<char>> {
    match s {
        Some(t) => Some(t@),
        None => None,
    }
}

/// The content after preprocessing: unchanged where preprocessing is off,
/// else cleaned, where cleaning is on, and reflowed.
pub open spec fn preprocessed(config: ProcessingConfig, s: Seq<char>) -> Seq<char> {
    if !config.preprocessing_enabled() {
        s
    } else if config.cleaning_enabled() {
        reflowed(cleaned(config.cleaning->Some_0@, s))
    } else {
        reflowed(s)
    }
}

/// Whether `formats` holds `extension`.
pub open spec fn supports(formats: Seq<Seq<char>>, extension: Seq<char>) -> bool {
    exists|i: int| 0 <= i < formats.len() && formats[i] == extension
}

/// Whether a document passes validation: its content is not empty, its size
/// is within the limit where one is set, and its extension in lower case,
/// where the path has one, is among the supported formats.
pub open spec fn is_valid_document(config: ProcessingConfig, document: &Document) -> bool {
    &&& document.content@.len() > 0
    &&& match config.max_document_size_bytes {
        Some(max) => document.size_bytes <= max,
        None => true,
    }
    &&& match path_extension(path_of(&document.path)) {
        Some(e) => supports(views(config.supported_formats@), lowercased(e)),
        None => true,
    }
}

/// Why a document that does not pass validation is rejected: the first of
/// the three checks that it fails, in the order of [`is_valid_document`].
pub open spec fn rejection(config: ProcessingConfig, document: &Document) -> Seq<char> {
    if document.content@.len() == 0 {
        "文档内容为空"@
    } else if config.max_document_size_bytes is Some && document.size_bytes
        > config.max_document_size_bytes->Some_0 {
        "文档大小超过限制"@
    } else {
        "不支持的文件格式: "@ + path_extension(path_of(&document.path))->Some_0
    }
}

/// The content type for an extension in lower case.
pub fn content_type_for(extension: &str) -> (t: String)
    ensures
        t@ == content_type_of(extension@),
{
    let e = String::from_str(extension);
    if e == String::from_str("md") {
        String::from_str("text/markdown")
    } else if e == String::from_str("json") {
        String::from_str("application/json")
    } else if e == String::from_str("yaml") || e == String::from_str("yml") {
        String::from_str("text/yaml")
    } else if e == String::from_str("toml") {
        String::from_str("text/toml")
    } else if e == String::from_str("xml") {
        String::from_str("application/xml")
    } else if e == String::from_str("csv") {
        String::from_str("text/csv")
    } else {
        String::from_str("text/plain")
    }
}

/// Whether `formats` holds `extension`.
pub fn is_supported(formats: &Vec<String>, extension: &String) -> (b: bool)
    ensures
        b == supports(views(formats@), extension@),
{
    let mut i: usize = 0;
    while i < formats.len()
        invariant
            i <= formats.len(),
            forall|k: int| 0 <= k < i ==> views(formats@)[k] != extension@,
        decreases formats.len() - i,
    {
        if formats[i] == *extension {
            assert(views(formats@)[i as int] == extension@);
            return true;
        }
        i += 1;
    }
    false
}

/// The title among the lines of a content.
pub fn title_among(ls: &Vec<Vec<char>>) -> (title: Option<String>)
    ensures
        optional_view(title) == match first_heading(rows(ls@)) {
            Some(line) => Some(trim(strip_hashes(line))),
            None => None,
        },
{
    let mut i: usize = 0;
    assert(rows(ls@).skip(0) =~= rows(ls@));
    while i < ls.len()
        invariant
            i <= ls.len(),
            first_heading(rows(ls@).skip(i as int)) == first_heading(rows(ls@)),
        decreases ls.len() - i,
    {
        let line = &ls[i];
        proof {
            assert(rows(ls@).skip(i as int).drop_first() =~= rows(ls@).skip(i as int + 1));
            assert(rows(ls@).skip(i as int)[0] == line@);
        }
        if line.len() > 0 && line[0] == '#' {
            let mut k: usize = 0;
            assert(line@.skip(0) =~= line@);
            while k < line.len() && line[k] == '#'
                invariant
                    k <= line.len(),
                    strip_hashes(line@.skip(k as int)) == strip_hashes(line@),
                decreases line.len() - k,
            {
                assert(line@.skip(k as int).drop_first() =~= line@.skip(k as int + 1));
                k += 1;
            }
            assert(line@.skip(k as int) =~= line@.subrange(k as int, line@.len() as int));
            let (a, b) = trim_range(line, k, line.len());
            return Some(string_of_range(line, a, b));
        }
        i += 1;
    }
    assert(rows(ls@).skip(i as int) =~= Seq::<Seq<char>>::empty());
    None
}

/// The processor of documents: its options and, where cleaning is on, its
/// cleaner.
pub struct DocumentProcessor {
    config: ProcessingConfig,
    cleaner: Option<DocumentCleaner>,
}

impl DocumentProcessor {
    /// The cleaner is there where cleaning is on, with the options of the
    /// configuration.
    #[verifier::type_invariant]
    spec fn well_formed(&self) -> bool {
        &&& self.cleaner is Some <==> self.config.cleaning_enabled()
        &&& self.cleaner is Some ==> self.cleaner->Some_0.options() == self.config.cleaning->Some_0@
    }

    /// The options that the processor was made with.
    pub closed spec fn settings(&self) -> ProcessingConfig {
        self.config
    }

    /// Makes a processor. It fails only where cleaning is on and one of the
    /// cleaner's fixed patterns does not compile.
    pub fn new(config: ProcessingConfig) -> (r: Result<DocumentProcessor, SmartFetchError>)
        ensures
            r is Ok <==> !config.cleaning_enabled() || (compiles(
                crate::cleaner::base64_image_pattern(),
            ) && compiles(crate::cleaner::binary_data_pattern()) && compiles(
                crate::cleaner::html_tag_pattern(),
            )),
            r is Ok ==> r->Ok_0.settings() == config,
            r is Err ==> r->Err_0 is RegexError,
    {
        let enabled = match &config.cleaning {
            Some(c) => crate::cleaner::is_set(c.enable_cleaning),
            None => false,
        };
        if enabled {
            let cleaning = match &config.cleaning {
                Some(c) => c.clone(),
                None => crate::config::CleaningConfig::default(),
            };
            match DocumentCleaner::new(cleaning) {
                Ok(cleaner) => Ok(DocumentProcessor { config, cleaner: Some(cleaner) }),
                Err(e) => Err(e),
            }
        } else {
            Ok(DocumentProcessor { config, cleaner: None })
        }
    }

    /// The content type of a path, by its extension in lower case.
    pub fn detect_content_type(path: &Path) -> (r: Result<String, SmartFetchError>)
        ensures
            r is Ok,
            r->Ok_0@ == content_type_of(judged_extension(path)),
    {
        let lowered = match extension_of(path) {
            Some(e) => lowercase(e.as_str()),
            None => {
                proof {
                    reveal_strlit("");
                    assert(""@ =~= Seq::<char>::empty());
                }
                lowercase("")
            },
        };
        Ok(content_type_for(lowered.as_str()))
    }

    /// Admits the size of a file, in bytes: a file of more than 10 MiB is
    /// refused.
    pub fn check_document_size(size_bytes: u64) -> (r: Result<usize, SmartFetchError>)
        ensures
            r is Ok <==> size_bytes <= 10485760,
            r is Ok ==> r->Ok_0 == size_bytes,
            r is Err ==> r->Err_0 is DocumentError && r->Err_0.detail() == "文件大小超过10MB限制"@,
    {
        if size_bytes > 10485760 {
            Err(SmartFetchError::DocumentError(String::from_str("文件大小超过10MB限制")))
        } else {
            Ok(size_bytes as usize)
        }
    }

    /// The document for a content that was read from `path`, of `size_bytes`
    /// bytes on disk: its content type goes by the extension of the path,
    /// and its metadata by the content.
    pub fn assemble_document(path: PathBuf, content: String, size_bytes: usize) -> (d: Document)
        ensures
            d.path == path,
            d.content == content,
            d.size_bytes == size_bytes,
            d.content_type@ == content_type_of(judged_extension(path_of(&path))),
            d.metadata.word_count == words(content@).len(),
            d.metadata.line_count == lines(content@).len(),
            optional_view(d.metadata.title) == title_of(content@),
            d.metadata.author is None,
            d.metadata.created_at is None,
            d.metadata.modified_at is None,
    {
        let content_type = match Self::detect_content_type(as_path(&path)) {
            Ok(t) => t,
            Err(_) => vstd::pervasive::unreached(),
        };
        let metadata = Self::extract_metadata(content.as_str());
        Document { path, content, content_type, size_bytes, metadata }
    }

    /// The number of words and of lines of a content, and its title.
    pub fn extract_metadata(content: &str) -> (m: DocumentMetadata)
        ensures
            m.word_count == words(content@).len(),
            m.line_count == lines(content@).len(),
            optional_view(m.title) == title_of(content@),
            m.author is None,
            m.created_at is None,
            m.modified_at is None,
    {
        let chars = to_chars(content);
        let word_count = split_words(&chars).len();
        let ls = split_lines(&chars);
        let line_count = ls.len();
        let title = title_among(&ls);
        DocumentMetadata {
            title,
            author: None,
            created_at: None,
            modified_at: None,
            word_count,
            line_count,
        }
    }

    /// Prepares a content: unchanged where preprocessing is off, else
    /// cleaned, where cleaning is on, and reflowed.
    pub fn preprocess_content(&self, content: &str) -> (r: Result<String, SmartFetchError>)
        requires
            self.settings().preprocessing_enabled() && self.settings().cleaning_enabled()
                ==> self.settings().cleaning->Some_0.max_string_length != Some(0usize),
        ensures
            r is Ok,
            r->Ok_0@ == preprocessed(self.settings(), content@),
            !self.settings().preprocessing_enabled() ==> r->Ok_0@ == content@,
    {
        proof {
            use_type_invariant(self);
        }
        if let Some(false) = self.config.enable_preprocessing {
            return Ok(String::from_str(content));
        }
        let mut processed = String::from_str(content);
        if let Some(cleaner) = &self.cleaner {
            match cleaner.clean_content(processed.as_str()) {
                Ok(c) => {
                    processed = c;
                },
                Err(e) => {
                    return Err(e);
                },
            }
        }
        let chars = to_chars(processed.as_str());
        let result = reflow_chars(&chars);
        Ok(to_string(&result))
    }

    /// Cuts a content into chunks of at most the configured number of
    /// characters: the content itself where it fits, else its pieces, each
    /// ending just after a sentence break where one is in reach, trimmed, and
    /// left out where nothing but whitespace was in them.
    pub fn chunk_content(&self, content: &str) -> (r: Result<Vec<String>, SmartFetchError>)
        requires
            self.settings().effective_chunk_size() >= 1,
        ensures
            r is Ok,
            views(r->Ok_0@) == chunks(content@, self.settings().effective_chunk_size()),
    {
        let chunk_size = match self.config.chunk_size {
            Some(n) => n,
            None => 4000,
        };
        let chars = to_chars(content);
        Ok(chunk_chars(&chars, chunk_size))
    }

    /// Checks a document: its content is not empty, its size is within the
    /// limit, and its format is supported.
    pub fn validate_document(&self, document: &Document) -> (r: Result<(), SmartFetchError>)
        ensures
            r is Ok <==> is_valid_document(self.settings(), document),
            r is Err ==> r->Err_0 is ValidationError,
            r is Err ==> r->Err_0.detail() == rejection(self.settings(), document),
    {
        if document.content.as_str().unicode_len() == 0 {
            return Err(SmartFetchError::ValidationError(String::from_str("文档内容为空")));
        }
        if let Some(max_size_bytes) = self.config.max_document_size_bytes {
            if document.size_bytes > max_size_bytes {
                return Err(
                    SmartFetchError::ValidationError(String::from_str("文档大小超过限制")),
                );
            }
        }
        if let Some(ext) = extension_of(as_path(&document.path)) {
            let lowered = lowercase(ext.as_str());
            if !is_supported(&self.config.supported_formats, &lowered) {
                return Err(
                    SmartFetchError::ValidationError(
                        String::from_str("不支持的文件格式: ").concat(ext.as_str()),
                    ),
                );
            }
        }
        Ok(())
    }

    /// The figures of a document.
    pub fn get_document_stats(&self, document: &Document) -> (stats: DocumentStats)
        ensures
            stats.size_bytes == document.size_bytes,
            stats.word_count == document.metadata.word_count,
            stats.line_count == document.metadata.line_count,
            stats.content_type@ == document.content_type@,
            stats.estimated_tokens == document.content@.len() / 4,
    {
        DocumentStats {
            size_bytes: document.size_bytes,
            word_count: document.metadata.word_count,
            line_count: document.metadata.line_count,
            content_type: document.content_type.clone(),
            estimated_tokens: self.estimate_tokens(document.content.as_str()),
        }
    }

    /// An estimate of the number of tokens in a content: a quarter of its
    /// number of characters, rounded down.
    pub fn estimate_tokens(&self, content: &str) -> (n: usize)
        ensures
            n == content@.len() / 4,
    {
        content.unicode_len() / 4
    }
}

} // verus!
