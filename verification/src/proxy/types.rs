//! Chat-completion requests and responses, in the shape of the OpenAI API.
//!
//! Sampling parameters that are fractions (`temperature`, `top_p` and the
//! two penalties) are carried as the bits of their IEEE-754 single-precision
//! value: the proxy hands them on and never computes with them.

use crate::text::str_eq;
use vstd::prelude::*;

verus! {

/// A chat message.
#[derive(Debug, Clone)]
pub struct Message {
    pub role: String,
    pub content: String,
    pub name: Option<String>,
}

/// A stop sequence: one string or several.
#[derive(Debug, Clone)]
pub enum StopSequence {
    Single(String),
    Multiple(Vec<String>),
}

/// Options of a streaming response.
#[derive(Debug, Clone, Copy, PartialEq, Eq, Structural)]
pub struct StreamOptions {
    /// When true, the last chunk of the stream carries a usage object.
    pub include_usage: Option<bool>,
}

/// A chat-completion request.
#[derive(Debug, Clone)]
pub struct ChatCompletionRequest {
    pub model: String,
    pub messages: Vec<Message>,
    /// Bits of the sampling temperature.
    pub temperature_bits: Option<u32>,
    pub max_tokens: Option<u32>,
    pub stream: Option<bool>,
    pub stream_options: Option<StreamOptions>,
    /// Bits of the nucleus-sampling mass.
    pub top_p_bits: Option<u32>,
    /// Bits of the frequency penalty.
    pub frequency_penalty_bits: Option<u32>,
    /// Bits of the presence penalty.
    pub presence_penalty_bits: Option<u32>,
    pub stop: Option<StopSequence>,
    pub user: Option<String>,
}

/// Token usage statistics.
#[derive(Debug, Clone)]
pub struct Usage {
    pub prompt_tokens: u32,
    pub completion_tokens: u32,
    pub total_tokens: u32,
}

/// A completion choice.
#[derive(Debug, Clone)]
pub struct Choice {
    pub index: u32,
    pub message: Message,
    pub finish_reason: Option<String>,
}

/// A chat-completion response.
#[derive(Debug, Clone)]
pub struct ChatCompletionResponse {
    pub id: String,
    pub object: String,
    pub created: u64,
    pub model: String,
    pub choices: Vec<Choice>,
    pub usage: Option<Usage>,
    /// The provider that handled the request.
    pub arbstr_provider: Option<String>,
}

/// Delta content of a streaming chunk.
#[derive(Debug, Clone)]
pub struct Delta {
    pub role: Option<String>,
    pub content: Option<String>,
}

/// A choice of a streaming chunk.
#[derive(Debug, Clone)]
pub struct ChunkChoice {
    pub index: u32,
    pub delta: Delta,
    pub finish_reason: Option<String>,
}

/// A streaming chunk.
#[derive(Debug, Clone)]
pub struct ChatCompletionChunk {
    pub id: String,
    pub object: String,
    pub created: u64,
    pub model: String,
    pub choices: Vec<ChunkChoice>,
}

/// The index of the last message of the user among the first `upto`
/// messages, or -1 if there is none.
pub open spec fn last_user_message(messages: Seq<Message>, upto: int) -> int
    decreases upto,
{
    if upto <= 0 {
        -1
    } else if messages[upto - 1].role@ == "user"@ {
        upto - 1
    } else {
        last_user_message(messages, upto - 1)
    }
}

/// The stream options after usage reporting was asked for: what the client
/// set stays, what it left open is switched on.
pub open spec fn with_usage_reporting(options: Option<StreamOptions>) -> StreamOptions {
    match options {
        Some(given) => match given.include_usage {
            Some(_) => given,
            None => StreamOptions { include_usage: Some(true) },
        },
        None => StreamOptions { include_usage: Some(true) },
    }
}

impl ChatCompletionRequest {
    /// The prompt of the user: the content of the last message whose role is
    /// `user`.
    pub fn user_prompt(&self) -> (r: Option<&str>)
        ensures
            ({
                let at = last_user_message(self.messages@, self.messages@.len() as int);
                match r {
                    Some(text) => 0 <= at < self.messages@.len() && text@
                        == self.messages@[at].content@,
                    None => at == -1,
                }
            }),
    {
        let mut i: usize = self.messages.len();
        while i > 0
            invariant
                i <= self.messages@.len(),
                last_user_message(self.messages@, self.messages@.len() as int)
                    == last_user_message(self.messages@, i as int),
            decreases i,
        {
            i -= 1;
            if str_eq(self.messages[i].role.as_str(), "user") {
                return Some(self.messages[i].content.as_str());
            }
        }
        None
    }

    /// Whether the client asked for a streaming response.
    pub fn is_streaming(&self) -> (r: bool)
        ensures
            r == (self.stream == Some(true)),
    {
        match self.stream {
            Some(flag) => flag,
            None => false,
        }
    }
}

/// Makes sure that a streaming request asks for usage reporting. An option
/// that the client has set, to either value, is left as it is. Nothing else
/// in the request changes.
pub fn ensure_stream_options(request: &mut ChatCompletionRequest)
    ensures
        final(request).stream_options == Some(with_usage_reporting(old(request).stream_options)),
        final(request).model == old(request).model,
        final(request).messages == old(request).messages,
        final(request).temperature_bits == old(request).temperature_bits,
        final(request).max_tokens == old(request).max_tokens,
        final(request).stream == old(request).stream,
        final(request).top_p_bits == old(request).top_p_bits,
        final(request).frequency_penalty_bits == old(request).frequency_penalty_bits,
        final(request).presence_penalty_bits == old(request).presence_penalty_bits,
        final(request).stop == old(request).stop,
        final(request).user == old(request).user,
{
    let updated = match request.stream_options {
        Some(given) => match given.include_usage {
            Some(_) => given,
            None => StreamOptions { include_usage: Some(true) },
        },
        None => StreamOptions { include_usage: Some(true) },
    };
    request.stream_options = Some(updated);
}

} // verus!
