//! A prompt paired with the identity of the rendered message that carries it.

use vstd::prelude::*;

use crate::ids::MessageId;
use crate::prompt::Prompt;

verus! {

/// A participant has at most one live `PromptMessage` at a time; committing a
/// new one replaces it wholesale.
#[derive(Debug, Clone, Copy, PartialEq, Eq, Structural)]
pub struct PromptMessage {
    pub prompt: Prompt,
    pub message_id: MessageId,
}

} // verus!
