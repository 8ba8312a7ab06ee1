//! The inference client's logic: error classification for the network
//! call and assembly of the final suggestion.
//!
//! The request itself is sent outside the library; this module decides
//! what each transport outcome means and shapes the generated text into a
//! suggestion.

use crate::budget::budget;
use crate::budget::byte_cap;
use crate::budget::cut_point;
use crate::budget::TruncationResult;
use crate::prompt::build_messages;
use crate::prompt::user_content;
use crate::prompt::Message;
use crate::text::trim_of;
use crate::text::trim_str;
use vstd::prelude::*;
use vstd::string::StringExecFns;
use vstd::string::StringSliceAdditionalSpecFns;

verus! {

/// Upper bound, in tokens, on the generated message: commit subjects stay
/// short.
pub const OUTPUT_TOKEN_CAP: u32 = 80;

/// Failure of the inference request.
pub enum InferenceError {
    /// The service was unreachable.
    Connect,
    /// Any other transport failure or a malformed response, with its
    /// description.
    Protocol(String),
}

/// The guidance shown when the service is unreachable: the user must be
/// pointed at starting the local inference service.
pub open spec fn connect_guidance() -> Seq<char> {
    "Could not connect to Ollama at http://localhost:11434\n  Make sure Ollama is running: ollama serve"@
}

impl InferenceError {
    /// The user-facing message: actionable guidance for a connect failure,
    /// the transport's description otherwise.
    pub fn message(&self) -> (r: String)
        ensures
            match self {
                InferenceError::Connect => r@ == connect_guidance(),
                InferenceError::Protocol(detail) => r@ == "Request failed: "@ + detail@,
            },
    {
        match self {
            InferenceError::Connect => {
                "Could not connect to Ollama at http://localhost:11434\n  Make sure Ollama is running: ollama serve".to_owned()
            },
            InferenceError::Protocol(detail) => {
                "Request failed: ".to_owned().concat(detail.as_str())
            },
        }
    }
}

/// Maps a failed send to its meaning: unreachability is distinguished from
/// every other transport failure.
pub fn classify_send_failure(is_connect: bool, detail: String) -> (e: InferenceError)
    ensures
        e == (if is_connect {
            InferenceError::Connect
        } else {
            InferenceError::Protocol(detail)
        }),
{
    if is_connect {
        InferenceError::Connect
    } else {
        InferenceError::Protocol(detail)
    }
}

/// Prepares one diff-to-message request: applies the context budget to the
/// diff and assembles the message sequence around what survived, scoped to
/// one file name when one is given.
///
/// The caller sends the messages and reports the truncation; neither step
/// changes what the model is asked.
pub fn prepare_request(
    instructions: &str,
    diff: &str,
    scope: Option<&str>,
    context_tokens: u32,
) -> (r: (Vec<Message>, TruncationResult))
    requires
        diff.spec_bytes().len() <= usize::MAX,
    ensures
        r.1.original_bytes == diff.spec_bytes().len(),
        r.1.was_truncated == (diff.spec_bytes().len() > byte_cap(context_tokens)),
        r.1.used_text@ == diff.spec_bytes().take(
            cut_point(diff.spec_bytes(), byte_cap(context_tokens)),
        ),
        r.1.used_bytes == r.1.used_text@.len(),
        !r.1.was_truncated ==> r.1.used_text@ == diff.spec_bytes(),
        r.0@.len() == 2,
        r.0@[0].role@ == "system"@,
        r.0@[0].content@ == instructions.spec_bytes(),
        r.0@[1].role@ == "user"@,
        r.0@[1].content@ == user_content(
            match scope {
                Option::Some(name) => Option::Some(name.spec_bytes()),
                Option::None => Option::None,
            },
            r.1.used_text@,
        ),
{
    let t = budget(diff, context_tokens);
    let msgs = build_messages(instructions, t.used_text.as_slice(), scope);
    (msgs, t)
}

/// Output of one diff-to-message cycle.
pub struct CommitResult {
    /// The generated message, trimmed of surrounding whitespace.
    pub message: String,
    /// Whether the diff was truncated to fit the context budget.
    pub truncated: bool,
    /// Byte length of the whole diff.
    pub original_bytes: usize,
    /// Byte length of the part the model saw.
    pub used_bytes: usize,
}

/// Shapes the service's generated text into a suggestion, carrying the
/// truncation report along for the caller's notice.
pub fn finish_suggestion(generated: &str, t: &TruncationResult) -> (r: CommitResult)
    ensures
        r.message@ == trim_of(generated@),
        r.truncated == t.was_truncated,
        r.original_bytes == t.original_bytes,
        r.used_bytes == t.used_bytes,
{
    CommitResult {
        message: trim_str(generated),
        truncated: t.was_truncated,
        original_bytes: t.original_bytes,
        used_bytes: t.used_bytes,
    }
}

} // verus!
