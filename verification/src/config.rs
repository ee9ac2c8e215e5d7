//! The options of cleaning and of processing.

use vstd::prelude::*;
use vstd::string::StringExecFns;
use crate::error::SmartFetchError;
use crate::text::{lowercase, lowercased, views};

verus! {

/// The options of cleaning. An option that is not set counts as switched off.
#[derive(Debug)]
pub struct CleaningConfig {
    pub enable_cleaning: Option<bool>,
    pub remove_base64_images: Option<bool>,
    pub remove_binary_data: Option<bool>,
    pub max_string_length: Option<usize>,
    pub remove_html_tags: Option<bool>,
    pub normalize_whitespace: Option<bool>,
    pub custom_patterns: Option<Vec<String>>,
}

/// The options of cleaning with every default resolved.
pub struct CleaningOptions {
    pub enable_cleaning: bool,
    pub remove_base64_images: bool,
    pub remove_binary_data: bool,
    pub max_string_length: Option<int>,
    pub remove_html_tags: bool,
    pub normalize_whitespace: bool,
    pub custom_patterns: Seq<Seq<char>>,
}

/// An option that is not set is switched off.
pub open spec fn is_on(flag: Option<bool>) -> bool {
    flag == Some(true)
}

impl View for CleaningConfig {
    type V = CleaningOptions;

    open spec fn view(&self) -> CleaningOptions {
        CleaningOptions {
            enable_cleaning: is_on(self.enable_cleaning),
            remove_base64_images: is_on(self.remove_base64_images),
            remove_binary_data: is_on(self.remove_binary_data),
            max_string_length: match self.max_string_length {
                Some(n) => Some(n as int),
                None => None,
            },
            remove_html_tags: is_on(self.remove_html_tags),
            normalize_whitespace: is_on(self.normalize_whitespace),
            custom_patterns: match self.custom_patterns {
                Some(p) => views(p@),
                None => Seq::empty(),
            },
        }
    }
}

impl Default for CleaningConfig {
    /// Cleaning is on, with every pass but the removal of markup, lines
    /// wrapped at 1000 characters, and no patterns of the user's.
    fn default() -> (c: CleaningConfig)
        ensures
            c.enable_cleaning == Some(true),
            c.remove_base64_images == Some(true),
            c.remove_binary_data == Some(true),
            c.max_string_length == Some(1000usize),
            c.remove_html_tags == Some(false),
            c.normalize_whitespace == Some(true),
            c.custom_patterns is None,
    {
        CleaningConfig {
            enable_cleaning: Some(true),
            remove_base64_images: Some(true),
            remove_binary_data: Some(true),
            max_string_length: Some(1000),
            remove_html_tags: Some(false),
            normalize_whitespace: Some(true),
            custom_patterns: None,
        }
    }
}

impl Clone for CleaningConfig {
    fn clone(&self) -> (c: CleaningConfig)
        ensures
            c@ == self@,
            c.max_string_length == self.max_string_length,
    {
        let custom_patterns = match &self.custom_patterns {
            Some(p) => {
                let copy = clone_strings(p);
                Some(copy)
            },
            None => None,
        };
        CleaningConfig {
            enable_cleaning: self.enable_cleaning,
            remove_base64_images: self.remove_base64_images,
            remove_binary_data: self.remove_binary_data,
            max_string_length: self.max_string_length,
            remove_html_tags: self.remove_html_tags,
            normalize_whitespace: self.normalize_whitespace,
            custom_patterns,
        }
    }
}

/// A copy of a vector of strings.
pub fn clone_strings(v: &Vec<String>) -> (out: Vec<String>)
    ensures
        views(out@) == views(v@),
        out@.len() == v@.len(),
{
    let mut out: Vec<String> = Vec::new();
    let mut i: usize = 0;
    while i < v.len()
        invariant
            i <= v.len(),
            out@.len() == i,
            forall|k: int| 0 <= k < i ==> out@[k]@ == v@[k]@,
        decreases v.len() - i,
    {
        out.push(v[i].clone());
        i += 1;
    }
    assert(views(out@) =~= views(v@));
    out
}

/// What a setting in lower case says of a switch: on for `true`, `1`, `yes`
/// and `on`, off for `false`, `0`, `no` and `off`, and for anything else
/// what the switch was, off where it was not set.
pub open spec fn switch_value(lowered: Seq<char>, default: Option<bool>) -> bool {
    if lowered == "true"@ || lowered == "1"@ || lowered == "yes"@ || lowered == "on"@ {
        true
    } else if lowered == "false"@ || lowered == "0"@ || lowered == "no"@ || lowered == "off"@ {
        false
    } else {
        is_on(default)
    }
}

/// What a setting in lower case says of a switch.
pub fn switch_for(lowered: &str, default: Option<bool>) -> (b: bool)
    ensures
        b == switch_value(lowered@, default),
{
    let s = String::from_str(lowered);
    if s == String::from_str("true") || s == String::from_str("1") || s == String::from_str("yes")
        || s == String::from_str("on") {
        true
    } else if s == String::from_str("false") || s == String::from_str("0") || s
        == String::from_str("no") || s == String::from_str("off") {
        false
    } else {
        match default {
            Some(b) => b,
            None => false,
        }
    }
}

/// What a setting says of a switch, whatever its case.
pub fn parse_switch(value: &str, default: Option<bool>) -> (b: bool)
    ensures
        b == switch_value(lowercased(value@), default),
{
    let lowered = lowercase(value);
    switch_for(lowered.as_str(), default)
}

/// The options of processing.
#[derive(Debug)]
pub struct ProcessingConfig {
    /// The largest size of a document, in bytes.
    pub max_document_size_bytes: Option<usize>,
    /// The largest number of characters in a chunk.
    pub chunk_size: Option<usize>,
    /// The extensions of the files that are processed, in lower case.
    pub supported_formats: Vec<String>,
    /// Whether content is preprocessed; on where it is not set.
    pub enable_preprocessing: Option<bool>,
    /// The options of cleaning, where content is cleaned.
    pub cleaning: Option<CleaningConfig>,
}

impl ProcessingConfig {
    /// The chunk size in force: 4000 characters where none is set.
    pub open spec fn effective_chunk_size(&self) -> int {
        match self.chunk_size {
            Some(n) => n as int,
            None => 4000,
        }
    }

    /// Preprocessing is on unless it is switched off.
    pub open spec fn preprocessing_enabled(&self) -> bool {
        self.enable_preprocessing != Some(false)
    }

    /// Cleaning is configured and switched on.
    pub open spec fn cleaning_enabled(&self) -> bool {
        self.cleaning is Some && self.cleaning->Some_0@.enable_cleaning
    }
}

impl Default for ProcessingConfig {
    /// Documents of up to 10 MiB, chunks of 4000 characters, the formats
    /// `txt` and `md`, preprocessing on, and the default cleaning.
    fn default() -> (c: ProcessingConfig)
        ensures
            c.max_document_size_bytes == Some(10485760usize),
            c.chunk_size == Some(4000usize),
            views(c.supported_formats@) == seq!["txt"@, "md"@],
            c.enable_preprocessing == Some(true),
            c.cleaning is Some,
            c.cleaning->Some_0.enable_cleaning == Some(true),
            c.cleaning->Some_0.remove_base64_images == Some(true),
            c.cleaning->Some_0.remove_binary_data == Some(true),
            c.cleaning->Some_0.max_string_length == Some(1000usize),
            c.cleaning->Some_0.remove_html_tags == Some(false),
            c.cleaning->Some_0.normalize_whitespace == Some(true),
            c.cleaning->Some_0.custom_patterns is None,
    {
        let mut supported_formats: Vec<String> = Vec::new();
        supported_formats.push(String::from_str("txt"));
        supported_formats.push(String::from_str("md"));
        assert(views(supported_formats@) =~= seq!["txt"@, "md"@]);
        ProcessingConfig {
            max_document_size_bytes: Some(10485760),
            chunk_size: Some(4000),
            supported_formats,
            enable_preprocessing: Some(true),
            cleaning: Some(CleaningConfig::default()),
        }
    }
}

impl Clone for ProcessingConfig {
    fn clone(&self) -> (c: ProcessingConfig)
        ensures
            c.max_document_size_bytes == self.max_document_size_bytes,
            c.chunk_size == self.chunk_size,
            views(c.supported_formats@) == views(self.supported_formats@),
            c.enable_preprocessing == self.enable_preprocessing,
            c.cleaning is Some == self.cleaning is Some,
            c.cleaning is Some ==> c.cleaning->Some_0@ == self.cleaning->Some_0@
                && c.cleaning->Some_0.max_string_length == self.cleaning->Some_0.max_string_length,
    {
        let cleaning = match &self.cleaning {
            Some(c) => Some(c.clone()),
            None => None,
        };
        ProcessingConfig {
            max_document_size_bytes: self.max_document_size_bytes,
            chunk_size: self.chunk_size,
            supported_formats: clone_strings(&self.supported_formats),
            enable_preprocessing: self.enable_preprocessing,
            cleaning,
        }
    }
}

/// A header that goes with every request to the model.
#[derive(Debug)]
pub struct HeaderConfig {
    pub name: String,
    pub value: String,
}

/// Where the server listens, and its limits.
#[derive(Debug)]
pub struct ServerConfig {
    pub host: String,
    pub port: u16,
    pub max_connections: Option<u32>,
    pub request_timeout_seconds: Option<u64>,
}

impl Default for ServerConfig {
    /// The local host at port 8080, with at most 100 connections and a minute
    /// for each request.
    fn default() -> (c: ServerConfig)
        ensures
            c.host@ == "127.0.0.1"@,
            c.port == 8080,
            c.max_connections == Some(100u32),
            c.request_timeout_seconds == Some(60u64),
    {
        ServerConfig {
            host: String::from_str("127.0.0.1"),
            port: 8080,
            max_connections: Some(100),
            request_timeout_seconds: Some(60),
        }
    }
}

/// What is wrong with the settings of a model, if anything: the first of an
/// empty endpoint, an empty model name, a token limit of zero, and a
/// temperature out of range.
pub open spec fn llm_settings_fault(
    api_endpoint: Seq<char>,
    model: Seq<char>,
    max_tokens: Option<u32>,
    temperature_in_range: bool,
) -> Option<Seq<char>> {
    if api_endpoint.len() == 0 {
        Some("LLM API端点不能为空"@)
    } else if model.len() == 0 {
        Some("LLM模型名称不能为空"@)
    } else if max_tokens == Some(0u32) {
        Some("最大token数必须大于0"@)
    } else if !temperature_in_range {
        Some("温度参数必须在0.0到2.0之间"@)
    } else {
        None
    }
}

/// Checks the settings of a model. `temperature_in_range` says whether the
/// temperature, where one is set, lies between 0 and 2.
pub fn validate_llm_settings(
    api_endpoint: &str,
    model: &str,
    max_tokens: Option<u32>,
    temperature_in_range: bool,
) -> (r: Result<(), SmartFetchError>)
    ensures
        r is Ok <==> llm_settings_fault(api_endpoint@, model@, max_tokens, temperature_in_range)
            is None,
        r is Err ==> r->Err_0 is ConfigError && Some(r->Err_0.detail()) == llm_settings_fault(
            api_endpoint@,
            model@,
            max_tokens,
            temperature_in_range,
        ),
{
    if api_endpoint.is_empty() {
        return Err(SmartFetchError::ConfigError(String::from_str("LLM API端点不能为空")));
    }
    if model.is_empty() {
        return Err(SmartFetchError::ConfigError(String::from_str("LLM模型名称不能为空")));
    }
    if let Some(n) = max_tokens {
        if n == 0 {
            return Err(SmartFetchError::ConfigError(String::from_str("最大token数必须大于0")));
        }
    }
    if !temperature_in_range {
        return Err(
            SmartFetchError::ConfigError(String::from_str("温度参数必须在0.0到2.0之间")),
        );
    }
    Ok(())
}

} // verus!
