//! Plain newtype identities. A participant, a rendered message and a custom
//! reaction are identified by bare numeric ids; the transport resolves them to
//! its own handles outside this crate.

use vstd::prelude::*;

verus! {

/// Identity of a participant.
#[derive(Debug, Clone, Copy, PartialEq, Eq, Hash, Structural)]
pub struct UserId(pub u64);

/// Identity of an externally rendered message.
#[derive(Debug, Clone, Copy, PartialEq, Eq, Hash, Structural)]
pub struct MessageId(pub u64);

/// Identity of a transport-defined custom reaction.
#[derive(Debug, Clone, Copy, PartialEq, Eq, Hash, Structural)]
pub struct EmojiId(pub u64);

} // verus!
