//! The reaction affordances the transport can attach to a prompt, and the
//! interpretations the engine gives to incoming reactions.

use vstd::prelude::*;
use vstd::string::StringExecFns;

verus! {

/// A reaction emoji the engine understands. Anything else is an unrecognized
/// reaction and is ignored, never an error.
#[derive(Debug, Clone, Copy, PartialEq, Eq, Structural)]
pub enum Emoji {
    ThumbsDown,
    ThumbsUp,
}

impl Emoji {
    /// The lower-case name of the emoji.
    pub open spec fn spec_name(self) -> Seq<char> {
        match self {
            Emoji::ThumbsDown => "thumbsdown"@,
            Emoji::ThumbsUp => "thumbsup"@,
        }
    }

    /// Colon-delimited markup for the emoji, as rendered in prompt text.
    pub open spec fn spec_markup(self) -> Seq<char> {
        match self {
            Emoji::ThumbsDown => ":thumbsdown:"@,
            Emoji::ThumbsUp => ":thumbsup:"@,
        }
    }

    pub fn markup(self) -> (r: String)
        ensures
            r@ == self.spec_markup(),
    {
        proof {
            reveal_strlit(":thumbsdown:");
            reveal_strlit(":thumbsup:");
            reveal_strlit("thumbsdown");
            reveal_strlit("thumbsup");
            reveal_strlit(":");
        }
        let r = String::from_str(":").concat(self.name()).concat(":");
        proof {
            assert(r@ =~= self.spec_markup());
        }
        r
    }

    pub fn name(self) -> (r: &'static str)
        ensures
            r@ == self.spec_name(),
    {
        match self {
            Emoji::ThumbsDown => "thumbsdown",
            Emoji::ThumbsUp => "thumbsup",
        }
    }

    pub fn char(self) -> (r: char)
        ensures
            r == self.spec_char(),
    {
        match self {
            Emoji::ThumbsDown => '👎',
            Emoji::ThumbsUp => '👍',
        }
    }

    /// The unicode character carrying the emoji on the wire.
    pub open spec fn spec_char(self) -> char {
        match self {
            Emoji::ThumbsDown => '👎',
            Emoji::ThumbsUp => '👍',
        }
    }

    /// Recognize an inbound unicode reaction. Exactly the two known emoji
    /// characters parse; everything else is `None`.
    pub fn from_chars(chars: &str) -> (r: Option<Emoji>)
        ensures
            r == Self::spec_from_chars(chars@),
    {
        let len = chars.unicode_len();
        if len != 1 {
            return None;
        }
        let c = chars.get_char(0);
        proof {
            assert(chars@ =~= seq![chars@[0]]);
        }
        if c == '👍' {
            Some(Emoji::ThumbsUp)
        } else if c == '👎' {
            Some(Emoji::ThumbsDown)
        } else {
            None
        }
    }

    pub open spec fn spec_from_chars(s: Seq<char>) -> Option<Emoji> {
        if s == seq!['👍'] {
            Some(Emoji::ThumbsUp)
        } else if s == seq!['👎'] {
            Some(Emoji::ThumbsDown)
        } else {
            None
        }
    }
}

/// The defect of a string that names no emoji.
#[derive(Debug, Clone, Copy, PartialEq, Eq, Structural)]
pub struct UnknownEmoji;

impl core::str::FromStr for Emoji {
    type Err = UnknownEmoji;

    /// Parse an emoji from its lower-case name.
    fn from_str(s: &str) -> Result<Emoji, UnknownEmoji> {
        if crate::text::str_eq(s, "thumbsup") {
            Ok(Emoji::ThumbsUp)
        } else if crate::text::str_eq(s, "thumbsdown") {
            Ok(Emoji::ThumbsDown)
        } else {
            Err(UnknownEmoji)
        }
    }
}

} // verus!
