//! A typed inbound event, as handed over by the transport.

use vstd::prelude::*;

use crate::emoji::Emoji;
use crate::ids::EmojiId;

verus! {

#[derive(Debug, PartialEq, Eq)]
pub enum Response {
    /// A freeform text message.
    Message(String),
    /// A recognized reaction.
    Reaction(Emoji),
    /// A unicode reaction the engine does not know. Ignored, never an error.
    UnrecognizedReaction(String),
    /// A transport-defined custom reaction. Ignored.
    Custom(EmojiId),
}

/// Mathematical image of a [`Response`]: text as a character sequence.
pub ghost enum ResponseV {
    Message(Seq<char>),
    Reaction(Emoji),
    UnrecognizedReaction(Seq<char>),
    Custom(EmojiId),
}

impl View for Response {
    type V = ResponseV;

    open spec fn view(&self) -> ResponseV {
        match self {
            Response::Message(s) => ResponseV::Message(s@),
            Response::Reaction(e) => ResponseV::Reaction(*e),
            Response::UnrecognizedReaction(s) => ResponseV::UnrecognizedReaction(s@),
            Response::Custom(id) => ResponseV::Custom(*id),
        }
    }
}

impl Response {
    /// Wrap a freeform text message.
    pub fn message(content: String) -> (r: Response)
        ensures
            r@ == ResponseV::Message(content@),
    {
        Response::Message(content)
    }

    /// Classify an inbound unicode reaction: a known emoji becomes a
    /// `Reaction`, anything else an `UnrecognizedReaction`.
    pub fn unicode_reaction(chars: String) -> (r: Response)
        ensures
            r@ == Self::spec_unicode_reaction(chars@),
    {
        match Emoji::from_chars(chars.as_str()) {
            Some(emoji) => Response::Reaction(emoji),
            None => Response::UnrecognizedReaction(chars),
        }
    }

    pub open spec fn spec_unicode_reaction(s: Seq<char>) -> ResponseV {
        match Emoji::spec_from_chars(s) {
            Some(emoji) => ResponseV::Reaction(emoji),
            None => ResponseV::UnrecognizedReaction(s),
        }
    }

    /// Wrap a custom reaction identity.
    pub fn custom_reaction(id: EmojiId) -> (r: Response)
        ensures
            r == Response::Custom(id),
    {
        Response::Custom(id)
    }
}

} // verus!
