//! The error type of the crate.

use vstd::prelude::*;
use vstd::string::StringExecFns;
use crate::pattern::error_text;

verus! {

/// What can go wrong in this crate and in the programs around it.
#[derive(Debug)]
pub enum SmartFetchError {
    ConfigError(String),
    IoError(String),
    TemplateError(String),
    LlmApiError(String),
    NetworkError(String),
    SerializationError(String),
    DocumentError(String),
    ValidationError(String),
    TimeoutError(String),
    Unknown(String),
    RegexError(String),
}

impl SmartFetchError {
    /// The text that the error carries.
    pub open spec fn detail(&self) -> Seq<char> {
        match self {
            SmartFetchError::ConfigError(m) => m@,
            SmartFetchError::IoError(m) => m@,
            SmartFetchError::TemplateError(m) => m@,
            SmartFetchError::LlmApiError(m) => m@,
            SmartFetchError::NetworkError(m) => m@,
            SmartFetchError::SerializationError(m) => m@,
            SmartFetchError::DocumentError(m) => m@,
            SmartFetchError::ValidationError(m) => m@,
            SmartFetchError::TimeoutError(m) => m@,
            SmartFetchError::Unknown(m) => m@,
            SmartFetchError::RegexError(m) => m@,
        }
    }

    /// The label that stands before the text of each kind of error.
    pub open spec fn label(&self) -> Seq<char> {
        match self {
            SmartFetchError::ConfigError(_) => "配置错误: "@,
            SmartFetchError::IoError(_) => "IO错误: "@,
            SmartFetchError::TemplateError(_) => "模板错误: "@,
            SmartFetchError::LlmApiError(_) => "LLM API错误: "@,
            SmartFetchError::NetworkError(_) => "网络错误: "@,
            SmartFetchError::SerializationError(_) => "序列化错误: "@,
            SmartFetchError::DocumentError(_) => "文档处理错误: "@,
            SmartFetchError::ValidationError(_) => "验证错误: "@,
            SmartFetchError::TimeoutError(_) => "超时错误: "@,
            SmartFetchError::Unknown(_) => "未知错误: "@,
            SmartFetchError::RegexError(_) => "正则表达式错误: "@,
        }
    }

    /// The error as a line of text: its label, then its text.
    pub fn message(&self) -> (text: String)
        ensures
            text@ == self.label() + self.detail(),
    {
        match self {
            SmartFetchError::ConfigError(m) => String::from_str("配置错误: ").concat(m.as_str()),
            SmartFetchError::IoError(m) => String::from_str("IO错误: ").concat(m.as_str()),
            SmartFetchError::TemplateError(m) => String::from_str("模板错误: ").concat(m.as_str()),
            SmartFetchError::LlmApiError(m) => String::from_str("LLM API错误: ").concat(
                m.as_str(),
            ),
            SmartFetchError::NetworkError(m) => String::from_str("网络错误: ").concat(m.as_str()),
            SmartFetchError::SerializationError(m) => String::from_str("序列化错误: ").concat(
                m.as_str(),
            ),
            SmartFetchError::DocumentError(m) => String::from_str("文档处理错误: ").concat(
                m.as_str(),
            ),
            SmartFetchError::ValidationError(m) => String::from_str("验证错误: ").concat(
                m.as_str(),
            ),
            SmartFetchError::TimeoutError(m) => String::from_str("超时错误: ").concat(m.as_str()),
            SmartFetchError::Unknown(m) => String::from_str("未知错误: ").concat(m.as_str()),
            SmartFetchError::RegexError(m) => String::from_str("正则表达式错误: ").concat(
                m.as_str(),
            ),
        }
    }

    /// The error for a pattern that does not compile: a `RegexError` whose
    /// text starts with the label of such errors and goes on with what the
    /// `regex` crate says of the pattern.
    pub fn from_regex(err: regex::Error) -> (e: SmartFetchError)
        ensures
            e is RegexError,
            e.detail().len() >= "正则表达式错误: "@.len(),
            e.detail().take("正则表达式错误: "@.len() as int) == "正则表达式错误: "@,
    {
        let text = error_text(&err);
        let full = String::from_str("正则表达式错误: ").concat(text.as_str());
        assert(full@.take("正则表达式错误: "@.len() as int) =~= "正则表达式错误: "@);
        SmartFetchError::RegexError(full)
    }
}

} // verus!
