//! What a model answers, and which part of the answer is handed on.

use vstd::prelude::*;
use vstd::string::StringExecFns;
use crate::error::SmartFetchError;

verus! {

/// A message of a conversation.
#[derive(Debug)]
pub struct ChatMessage {
    pub role: String,
    pub content: String,
}

/// One of the answers that a model offers.
#[derive(Debug)]
pub struct Choice {
    pub index: u32,
    pub message: ChatMessage,
    pub finish_reason: Option<String>,
}

/// The tokens that a request has used.
#[derive(Debug)]
pub struct Usage {
    pub prompt_tokens: u32,
    pub completion_tokens: u32,
    pub total_tokens: u32,
}

/// The answer of a model to a request.
#[derive(Debug)]
pub struct ChatCompletionResponse {
    pub id: String,
    pub object: String,
    pub created: u64,
    pub model: String,
    pub choices: Vec<Choice>,
    pub usage: Option<Usage>,
}

impl ChatCompletionResponse {
    /// What is wrong with the answer, if anything: it offers no choice, or,
    /// where content is required, its first choice is empty.
    pub open spec fn fault(&self, require_content: bool) -> Option<Seq<char>> {
        if self.choices@.len() == 0 {
            Some("API返回了空的选择列表"@)
        } else if require_content && self.choices@[0].message.content@.len() == 0 {
            Some("API返回了空的内容"@)
        } else {
            None
        }
    }

    /// The content of the first choice.
    pub fn first_content(&self, require_content: bool) -> (r: Result<String, SmartFetchError>)
        ensures
            r is Ok <==> self.fault(require_content) is None,
            r is Ok ==> r->Ok_0@ == self.choices@[0].message.content@,
            r is Err ==> r->Err_0 is LlmApiError && Some(r->Err_0.detail()) == self.fault(
                require_content,
            ),
    {
        if self.choices.len() == 0 {
            return Err(SmartFetchError::LlmApiError(String::from_str("API返回了空的选择列表")));
        }
        let choice = &self.choices[0];
        if require_content && choice.message.content.as_str().is_empty() {
            return Err(SmartFetchError::LlmApiError(String::from_str("API返回了空的内容")));
        }
        Ok(choice.message.content.clone())
    }
}

} // verus!
