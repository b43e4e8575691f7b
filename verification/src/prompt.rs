//! The conversational state currently presented to a participant.
//!
//! Prompts are totally ordered by urgency through an explicit numeric
//! discriminant, ascending: `Welcome < Bio < Quiescent < Candidate < Match`.
//! The ordering is consulted in exactly two places: profile-completion gating
//! and interrupt suppression (`cannot_interrupt`).

use vstd::prelude::*;

use crate::emoji::Emoji;
use crate::error::Error;
use crate::ids::UserId;

verus! {

/// What a participant is currently being asked.
///
/// Only `Quiescent` is the resting state in which nothing is owed.
/// `Candidate` and `Match` carry the identity of another participant; the
/// referenced row is looked up on demand, never cached here.
#[derive(Debug, Clone, Copy, PartialEq, Eq, Structural)]
pub enum Prompt {
    Welcome,
    Bio,
    Quiescent,
    Candidate { id: UserId },
    Match { id: UserId },
}

impl Prompt {
    /// The reaction affordances the transport must attach to this prompt.
    pub open spec fn spec_reactions(self) -> Seq<Emoji> {
        match self {
            Prompt::Candidate { .. } => seq![Emoji::ThumbsUp, Emoji::ThumbsDown],
            Prompt::Match { .. } => seq![Emoji::ThumbsUp],
            Prompt::Welcome => seq![Emoji::ThumbsUp],
            Prompt::Bio => Seq::empty(),
            Prompt::Quiescent => Seq::empty(),
        }
    }

    /// The reaction options to offer alongside this prompt.
    pub fn reactions(self) -> (r: Vec<Emoji>)
        ensures
            r@ == self.spec_reactions(),
    {
        let r: Vec<Emoji> = match self {
            Prompt::Candidate { .. } => vec![Emoji::ThumbsUp, Emoji::ThumbsDown],
            Prompt::Match { .. } => vec![Emoji::ThumbsUp],
            Prompt::Welcome => vec![Emoji::ThumbsUp],
            Prompt::Bio => vec![],
            Prompt::Quiescent => vec![],
        };
        proof {
            assert(r@ =~= self.spec_reactions());
        }
        r
    }

    /// Urgency of a prompt variant, as a spec-level integer.
    pub open spec fn urgency(self) -> u64 {
        match self {
            Prompt::Welcome => 0,
            Prompt::Bio => 1,
            Prompt::Quiescent => 2,
            Prompt::Candidate { .. } => 3,
            Prompt::Match { .. } => 4,
        }
    }

    /// Whether the prompt is the resting state.
    pub fn quiescent(self) -> (r: bool)
        ensures
            r == (self is Quiescent),
    {
        matches!(self, Prompt::Quiescent)
    }

    /// The prompt's urgency discriminant. A fixed numeric ordering, not an
    /// incidental declaration order, so comparisons stay stable.
    pub fn discriminant(self) -> (r: u64)
        ensures
            r == self.urgency(),
    {
        match self {
            Prompt::Welcome => 0,
            Prompt::Bio => 1,
            Prompt::Quiescent => 2,
            Prompt::Candidate { .. } => 3,
            Prompt::Match { .. } => 4,
        }
    }

    /// The stored image of the prompt: its discriminant and, for `Candidate`
    /// and `Match`, the referenced participant as payload.
    pub open spec fn spec_store(self) -> (u64, Option<u64>) {
        match self {
            Prompt::Candidate { id } => (self.urgency(), Some(id.0)),
            Prompt::Match { id } => (self.urgency(), Some(id.0)),
            _ => (self.urgency(), None),
        }
    }

    /// Encode the prompt for the persisted layout: discriminant and optional
    /// payload.
    pub fn store(self) -> (r: (u64, Option<u64>))
        ensures
            r == self.spec_store(),
    {
        match self {
            Prompt::Candidate { id } => (3, Some(id.0)),
            Prompt::Match { id } => (4, Some(id.0)),
            _ => (self.discriminant(), None),
        }
    }

    /// The prompt a stored image decodes to, or the exact defect of the
    /// image: an unknown discriminant, a missing payload on a variant that
    /// carries one, or a payload on a variant that does not.
    pub open spec fn spec_load(storage: (u64, Option<u64>)) -> Result<Prompt, Error> {
        let (discriminant, payload) = storage;
        if discriminant > 4 {
            Err(Error::PromptLoadBadDiscriminant { discriminant })
        } else if discriminant == 3 || discriminant == 4 {
            match payload {
                None => Err(Error::PromptLoadMissingPayload { discriminant }),
                Some(p) => Ok(
                    if discriminant == 3 {
                        Prompt::Candidate { id: UserId(p) }
                    } else {
                        Prompt::Match { id: UserId(p) }
                    },
                ),
            }
        } else {
            match payload {
                Some(p) => Err(Error::PromptLoadSuperfluousPayload { discriminant, payload: p }),
                None => Ok(
                    if discriminant == 0 {
                        Prompt::Welcome
                    } else if discriminant == 1 {
                        Prompt::Bio
                    } else {
                        Prompt::Quiescent
                    },
                ),
            }
        }
    }

    /// Decode a stored prompt image.
    pub fn load(storage: (u64, Option<u64>)) -> (r: Result<Prompt, Error>)
        ensures
            r == Self::spec_load(storage),
    {
        let (discriminant, payload) = storage;
        if discriminant > 4 {
            Err(Error::PromptLoadBadDiscriminant { discriminant })
        } else if discriminant == 3 || discriminant == 4 {
            match payload {
                None => Err(Error::PromptLoadMissingPayload { discriminant }),
                Some(p) => Ok(
                    if discriminant == 3 {
                        Prompt::Candidate { id: UserId(p) }
                    } else {
                        Prompt::Match { id: UserId(p) }
                    },
                ),
            }
        } else {
            match payload {
                Some(p) => Err(Error::PromptLoadSuperfluousPayload { discriminant, payload: p }),
                None => Ok(
                    if discriminant == 0 {
                        Prompt::Welcome
                    } else if discriminant == 1 {
                        Prompt::Bio
                    } else {
                        Prompt::Quiescent
                    },
                ),
            }
        }
    }

    /// Whether this prompt, offered as an interrupt, must be suppressed
    /// because the recipient's currently displayed prompt (given by its
    /// discriminant) is already equally or more urgent.
    pub fn cannot_interrupt(self, discriminant: u64) -> (r: bool)
        ensures
            r == (self.urgency() <= discriminant),
    {
        self.discriminant() <= discriminant
    }
}

/// Storing a prompt and loading it back yields the prompt again.
pub proof fn lemma_prompt_codec_round_trip(p: Prompt)
    ensures
        Prompt::spec_load(p.spec_store()) == Ok::<Prompt, Error>(p),
{
}

} // verus!
