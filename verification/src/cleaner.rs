//! The cleaner: an ordered sequence of passes over a content.

use vstd::prelude::*;
use vstd::string::{StringExecFns, StringSliceAdditionalSpecFns};
use regex::Regex;
use crate::config::{CleaningConfig, CleaningOptions};
use crate::error::SmartFetchError;
use crate::normalize::{normalize_chars, normalized};
use crate::pattern::{compile, compiles, replace_all, replaced, source_of};
use crate::text::{to_chars, to_string, views};
use crate::wrap::{hard_wrap, hard_wrap_chars};

verus! {

/// The pattern of an embedded image: `data:image/`, a subtype of characters
/// other than `;`, `;base64,`, and a payload in the base64 alphabet.
pub open spec fn base64_image_pattern() -> Seq<char> {
    r"data:image/[^;]+;base64,[A-Za-z0-9+/=]+"@
}

/// The pattern of a character of binary data: one that is neither printable
/// ASCII, nor a carriage return, a newline or a tab, nor a CJK unified
/// ideograph.
pub open spec fn binary_data_pattern() -> Seq<char> {
    r"[^\x20-\x7E\r\n\t\u4E00-\u9FFF]"@
}

/// The pattern of a tag of markup: `<`, characters other than `>`, and `>`.
pub open spec fn html_tag_pattern() -> Seq<char> {
    r"<[^>]*>"@
}

/// `s` after the patterns of the user's, applied in order: each removes its
/// matches from what the ones before it left, and one that does not compile
/// leaves the content as it is.
pub open spec fn apply_patterns(s: Seq<char>, patterns: Seq<Seq<char>>) -> Seq<char>
    decreases patterns.len(),
{
    if patterns.len() == 0 {
        s
    } else if compiles(patterns[0]) {
        apply_patterns(replaced(patterns[0], s, Seq::empty()), patterns.drop_first())
    } else {
        apply_patterns(s, patterns.drop_first())
    }
}

/// `s` without its embedded images, where that pass is on.
pub open spec fn after_images(o: CleaningOptions, s: Seq<char>) -> Seq<char> {
    if o.remove_base64_images {
        replaced(base64_image_pattern(), s, Seq::empty())
    } else {
        s
    }
}

/// `s` with each character of binary data replaced by a space, where that
/// pass is on.
pub open spec fn after_binary(o: CleaningOptions, s: Seq<char>) -> Seq<char> {
    if o.remove_binary_data {
        replaced(binary_data_pattern(), s, seq![' '])
    } else {
        s
    }
}

/// `s` without its tags of markup, where that pass is on.
pub open spec fn after_tags(o: CleaningOptions, s: Seq<char>) -> Seq<char> {
    if o.remove_html_tags {
        replaced(html_tag_pattern(), s, Seq::empty())
    } else {
        s
    }
}

/// `s` wrapped hard, where a length is set.
pub open spec fn after_wrap(o: CleaningOptions, s: Seq<char>) -> Seq<char> {
    match o.max_string_length {
        Some(n) => hard_wrap(s, n),
        None => s,
    }
}

/// `s` with its whitespace normalized, where that pass is on.
pub open spec fn after_whitespace(o: CleaningOptions, s: Seq<char>) -> Seq<char> {
    if o.normalize_whitespace {
        normalized(s)
    } else {
        s
    }
}

/// The cleaned form of `s`: `s` itself where cleaning is off, else `s` after
/// the passes in their fixed order: images, binary data, markup, wrapping,
/// whitespace, the patterns of the user's.
pub open spec fn cleaned(o: CleaningOptions, s: Seq<char>) -> Seq<char> {
    if !o.enable_cleaning {
        s
    } else {
        apply_patterns(
            after_whitespace(
                o,
                after_wrap(o, after_tags(o, after_binary(o, after_images(o, s)))),
            ),
            o.custom_patterns,
        )
    }
}

/// A cleaner: the options it was made with and its three fixed filters,
/// compiled once.
pub struct DocumentCleaner {
    config: CleaningConfig,
    base64_image_regex: Regex,
    binary_data_regex: Regex,
    html_tag_regex: Regex,
}

/// The lengths of a content before and after cleaning, in bytes.
#[derive(Debug, Clone, Copy)]
pub struct CleaningStats {
    pub original_length: usize,
    pub cleaned_length: usize,
    pub removed_chars: usize,
}

impl DocumentCleaner {
    /// Each filter is compiled from its fixed pattern.
    #[verifier::type_invariant]
    spec fn well_formed(&self) -> bool {
        &&& source_of(&self.base64_image_regex) == base64_image_pattern()
        &&& source_of(&self.binary_data_regex) == binary_data_pattern()
        &&& source_of(&self.html_tag_regex) == html_tag_pattern()
    }

    /// The options that the cleaner was made with.
    pub closed spec fn options(&self) -> CleaningOptions {
        self.config@
    }

    /// Makes a cleaner. It fails only where one of the three fixed patterns
    /// does not compile.
    pub fn new(config: CleaningConfig) -> (r: Result<DocumentCleaner, SmartFetchError>)
        ensures
            r is Ok <==> compiles(base64_image_pattern()) && compiles(binary_data_pattern())
                && compiles(html_tag_pattern()),
            r is Ok ==> r->Ok_0.options() == config@,
            r is Err ==> r->Err_0 is RegexError,
    {
        let base64_image_regex = match compile(r"data:image/[^;]+;base64,[A-Za-z0-9+/=]+") {
            Ok(re) => re,
            Err(e) => {
                return Err(SmartFetchError::from_regex(e));
            },
        };
        let binary_data_regex = match compile(r"[^\x20-\x7E\r\n\t\u4E00-\u9FFF]") {
            Ok(re) => re,
            Err(e) => {
                return Err(SmartFetchError::from_regex(e));
            },
        };
        let html_tag_regex = match compile(r"<[^>]*>") {
            Ok(re) => re,
            Err(e) => {
                return Err(SmartFetchError::from_regex(e));
            },
        };
        Ok(DocumentCleaner { config, base64_image_regex, binary_data_regex, html_tag_regex })
    }

    /// Cleans `content`: returns it unchanged where cleaning is off, else
    /// after every pass that is on, in the fixed order.
    pub fn clean_content(&self, content: &str) -> (r: Result<String, SmartFetchError>)
        requires
            self.options().enable_cleaning ==> self.options().max_string_length != Some(0int),
        ensures
            r is Ok,
            r->Ok_0@ == cleaned(self.options(), content@),
            !self.options().enable_cleaning ==> r->Ok_0@ == content@,
    {
        if !is_set(self.config.enable_cleaning) {
            return Ok(String::from_str(content));
        }
        let mut cleaned = String::from_str(content);
        if is_set(self.config.remove_base64_images) {
            cleaned = self.remove_base64_images(cleaned.as_str());
        }
        if is_set(self.config.remove_binary_data) {
            cleaned = self.remove_binary_data(cleaned.as_str());
        }
        if is_set(self.config.remove_html_tags) {
            cleaned = self.remove_html_tags(cleaned.as_str());
        }
        if let Some(max_length) = self.config.max_string_length {
            cleaned = self.truncate_long_strings(cleaned.as_str(), max_length);
        }
        if is_set(self.config.normalize_whitespace) {
            cleaned = self.normalize_whitespace(cleaned.as_str());
        }
        if let Some(custom_patterns) = &self.config.custom_patterns {
            cleaned = self.apply_custom_patterns(cleaned.as_str(), custom_patterns);
        }
        Ok(cleaned)
    }

    /// Removes every embedded image from `content`.
    pub fn remove_base64_images(&self, content: &str) -> (out: String)
        ensures
            out@ == replaced(base64_image_pattern(), content@, Seq::empty()),
    {
        proof {
            use_type_invariant(self);
            reveal_strlit("");
        }
        let out = replace_all(&self.base64_image_regex, content, "");
        assert(""@ =~= Seq::<char>::empty());
        out
    }

    /// Replaces every character of binary data in `content` by a space.
    pub fn remove_binary_data(&self, content: &str) -> (out: String)
        ensures
            out@ == replaced(binary_data_pattern(), content@, seq![' ']),
    {
        proof {
            use_type_invariant(self);
            reveal_strlit(" ");
        }
        let out = replace_all(&self.binary_data_regex, content, " ");
        assert(" "@ =~= seq![' ']);
        out
    }

    /// Removes every tag of markup from `content`.
    pub fn remove_html_tags(&self, content: &str) -> (out: String)
        ensures
            out@ == replaced(html_tag_pattern(), content@, Seq::empty()),
    {
        proof {
            use_type_invariant(self);
            reveal_strlit("");
        }
        let out = replace_all(&self.html_tag_regex, content, "");
        assert(""@ =~= Seq::<char>::empty());
        out
    }

    /// Wraps `content` hard: segments of `max_length` characters joined by
    /// single newlines.
    pub fn truncate_long_strings(&self, content: &str, max_length: usize) -> (out: String)
        requires
            max_length >= 1,
        ensures
            out@ == hard_wrap(content@, max_length as int),
    {
        let chars = to_chars(content);
        let wrapped = hard_wrap_chars(&chars, max_length);
        to_string(&wrapped)
    }

    /// Normalizes the whitespace of `content` outside its code blocks.
    pub fn normalize_whitespace(&self, content: &str) -> (out: String)
        ensures
            out@ == normalized(content@),
    {
        let chars = to_chars(content);
        let result = normalize_chars(&chars);
        to_string(&result)
    }

    /// Removes from `content` the matches of each of `patterns` in turn. A
    /// pattern that does not compile is passed over.
    pub fn apply_custom_patterns(&self, content: &str, patterns: &Vec<String>) -> (out: String)
        ensures
            out@ == apply_patterns(content@, views(patterns@)),
    {
        let mut cleaned = String::from_str(content);
        let mut i: usize = 0;
        assert(views(patterns@).skip(0) =~= views(patterns@));
        while i < patterns.len()
            invariant
                i <= patterns.len(),
                apply_patterns(cleaned@, views(patterns@).skip(i as int)) == apply_patterns(
                    content@,
                    views(patterns@),
                ),
            decreases patterns.len() - i,
        {
            proof {
                reveal_strlit("");
                assert(""@ =~= Seq::<char>::empty());
                assert(views(patterns@).skip(i as int).drop_first() =~= views(patterns@).skip(
                    i as int + 1,
                ));
                assert(views(patterns@).skip(i as int)[0] == patterns@[i as int]@);
            }
            match compile(patterns[i].as_str()) {
                Ok(regex) => {
                    cleaned = replace_all(&regex, cleaned.as_str(), "");
                },
                Err(_) => {},
            }
            i += 1;
        }
        cleaned
    }

    /// The lengths of `original` and `cleaned` in bytes, and their difference.
    pub fn get_cleaning_stats(&self, original: &str, cleaned: &str) -> (stats: CleaningStats)
        requires
            cleaned.spec_bytes().len() <= original.spec_bytes().len(),
        ensures
            stats.original_length == original.spec_bytes().len(),
            stats.cleaned_length == cleaned.spec_bytes().len(),
            stats.removed_chars == original.spec_bytes().len() - cleaned.spec_bytes().len(),
    {
        let original_length = original.as_bytes().len();
        let cleaned_length = cleaned.as_bytes().len();
        CleaningStats {
            original_length,
            cleaned_length,
            removed_chars: original_length - cleaned_length,
        }
    }
}

/// The catalogs of patterns that a caller may hand to a cleaner.
pub struct CleaningPatterns;

impl CleaningPatterns {
    /// The patterns of noise: runs of three or more periods, of two or more
    /// exclamation marks, of two or more question marks, the parameters of
    /// a URL, runs of ten or more digits, runs of twenty or more letters.
    pub open spec fn noise() -> Seq<Seq<char>> {
        seq![
            r"[.]{3,}"@,
            r"[!]{2,}"@,
            r"[?]{2,}"@,
            r"\?[^&]*&[^&]*"@,
            r"\b\d{10,}\b"@,
            r"\b[a-zA-Z]{20,}\b"@,
        ]
    }

    /// The patterns of code: colour codes of six hexadecimal digits, and
    /// names of classes that start with a dot.
    pub open spec fn code() -> Seq<Seq<char>> {
        seq![r"#[0-9a-fA-F]{6}"@, r"\.[a-zA-Z][a-zA-Z0-9_-]*"@]
    }

    /// The patterns of logs: time stamps, levels, and addresses of four
    /// numbers.
    pub open spec fn log() -> Seq<Seq<char>> {
        seq![
            r"\d{4}-\d{2}-\d{2}\s+\d{2}:\d{2}:\d{2}"@,
            r"\b(DEBUG|INFO|WARN|ERROR|TRACE)\b"@,
            r"\b\d{1,3}\.\d{1,3}\.\d{1,3}\.\d{1,3}\b"@,
        ]
    }

    /// The patterns of noise.
    pub fn noise_patterns() -> (v: Vec<String>)
        ensures
            views(v@) == Self::noise(),
    {
        let mut v: Vec<String> = Vec::new();
        v.push(String::from_str(r"[.]{3,}"));
        v.push(String::from_str(r"[!]{2,}"));
        v.push(String::from_str(r"[?]{2,}"));
        v.push(String::from_str(r"\?[^&]*&[^&]*"));
        v.push(String::from_str(r"\b\d{10,}\b"));
        v.push(String::from_str(r"\b[a-zA-Z]{20,}\b"));
        assert(views(v@) =~= Self::noise());
        v
    }

    /// The patterns of code.
    pub fn code_patterns() -> (v: Vec<String>)
        ensures
            views(v@) == Self::code(),
    {
        let mut v: Vec<String> = Vec::new();
        v.push(String::from_str(r"#[0-9a-fA-F]{6}"));
        v.push(String::from_str(r"\.[a-zA-Z][a-zA-Z0-9_-]*"));
        assert(views(v@) =~= Self::code());
        v
    }

    /// The patterns of logs.
    pub fn log_patterns() -> (v: Vec<String>)
        ensures
            views(v@) == Self::log(),
    {
        let mut v: Vec<String> = Vec::new();
        v.push(String::from_str(r"\d{4}-\d{2}-\d{2}\s+\d{2}:\d{2}:\d{2}"));
        v.push(String::from_str(r"\b(DEBUG|INFO|WARN|ERROR|TRACE)\b"));
        v.push(String::from_str(r"\b\d{1,3}\.\d{1,3}\.\d{1,3}\.\d{1,3}\b"));
        assert(views(v@) =~= Self::log());
        v
    }
}

/// Whether an option is set and switched on.
pub fn is_set(flag: Option<bool>) -> (b: bool)
    ensures
        b == crate::config::is_on(flag),
{
    match flag {
        Some(b) => b,
        None => false,
    }
}

} // verus!
