//! Prompt text rendering: a lookup from the prompt variant to human-readable
//! text, embedding the referenced participant's bio where a `Candidate` or
//! `Match` prompt calls for it. A missing referenced participant or a missing
//! bio is a referential invariant violation and is surfaced as an error,
//! never silently substituted with empty text.

use vstd::prelude::*;
use vstd::string::StringExecFns;

use crate::emoji::Emoji;
use crate::error::Error;
use crate::ids::UserId;
use crate::prompt::Prompt;
use crate::store::views_of;
use crate::text::{u64_dec, u64_to_string};
use crate::user::{find_user, User, UserV};

verus! {

/// The referenced participant's bio, or the invariant violation hit looking
/// it up.
pub open spec fn spec_bio(users: Seq<UserV>, id: UserId) -> Result<Seq<char>, Error> {
    match find_user(users, id) {
        None => Err(Error::UserUnknown { id }),
        Some(u) => match u.bio {
            None => Err(Error::UserMissingBio { id }),
            Some(b) => Ok(b),
        },
    }
}

/// The text carrying each prompt. Only `Candidate` and `Match` read the
/// store, to embed the referenced participant's bio; they fail exactly when
/// that lookup does.
pub open spec fn spec_prompt_text(users: Seq<UserV>, prompt: Prompt) -> Result<Seq<char>, Error> {
    match prompt {
        Prompt::Welcome => Ok(
            "Hi!\nQuwue is a bot that matches you with other Discord users.\nYour Discord tag will only be revealed to matches.\nTo start, you'll need to set up your profile.\nReact with "@
                + Emoji::ThumbsUp.spec_markup() + " or type `ok` to continue."@,
        ),
        Prompt::Bio => Ok("Please enter a bio to show to other users."@),
        Prompt::Quiescent => Ok(
            "You've seen all available matches. We'll message you when we have new matches to show you!"@,
        ),
        Prompt::Candidate { id } => match spec_bio(users, id) {
            Ok(b) => Ok("New potential match:\n"@ + b),
            Err(e) => Err(e),
        },
        Prompt::Match { id } => match spec_bio(users, id) {
            Ok(b) => Ok(
                "You matched with <@"@ + u64_dec(id.0 as int) + ">:\n"@ + b
                    + "\nSend them a message!\nReact with "@ + Emoji::ThumbsUp.spec_markup()
                    + " or type `ok` to continue."@,
            ),
            Err(e) => Err(e),
        },
    }
}

/// Look the referenced participant's bio up in a participant table.
pub(crate) fn render_bio(users: &Vec<User>, id: UserId) -> (r: Result<String, Error>)
    ensures
        r matches Ok(s) ==> spec_bio(views_of(users@), id) == Ok::<Seq<char>, Error>(s@),
        r matches Err(e) ==> spec_bio(views_of(users@), id) == Err::<Seq<char>, Error>(e),
{
    match crate::store::find_user_record(users, id) {
        None => Err(Error::UserUnknown { id }),
        Some(u) => match &u.bio {
            None => Err(Error::UserMissingBio { id }),
            Some(b) => Ok(b.clone()),
        },
    }
}

/// Render the text for a prompt against a participant table.
pub(crate) fn render_prompt_text(users: &Vec<User>, prompt: Prompt) -> (r: Result<String, Error>)
    ensures
        r matches Ok(s) ==> spec_prompt_text(views_of(users@), prompt) == Ok::<
            Seq<char>,
            Error,
        >(s@),
        r matches Err(e) ==> spec_prompt_text(views_of(users@), prompt) == Err::<
            Seq<char>,
            Error,
        >(e),
{
    match prompt {
        Prompt::Welcome => Ok(
            String::from_str(
                "Hi!\nQuwue is a bot that matches you with other Discord users.\nYour Discord tag will only be revealed to matches.\nTo start, you'll need to set up your profile.\nReact with ",
            ).concat(Emoji::ThumbsUp.markup().as_str()).concat(" or type `ok` to continue."),
        ),
        Prompt::Bio => Ok(String::from_str("Please enter a bio to show to other users.")),
        Prompt::Quiescent => Ok(
            String::from_str(
                "You've seen all available matches. We'll message you when we have new matches to show you!",
            ),
        ),
        Prompt::Candidate { id } => match render_bio(users, id) {
            Ok(b) => Ok(String::from_str("New potential match:\n").concat(b.as_str())),
            Err(e) => Err(e),
        },
        Prompt::Match { id } => match render_bio(users, id) {
            Ok(b) => Ok(
                String::from_str("You matched with <@").concat(
                    u64_to_string(id.0).as_str(),
                ).concat(">:\n").concat(b.as_str()).concat(
                    "\nSend them a message!\nReact with ",
                ).concat(Emoji::ThumbsUp.markup().as_str()).concat(
                    " or type `ok` to continue.",
                ),
            ),
            Err(e) => Err(e),
        },
    }
}

} // verus!
