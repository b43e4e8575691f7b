//! A participant and the response interpreter: a pure function from the
//! participant's current prompt and an incoming response to an optional action
//! and the next intrinsic prompt, under profile-completion gating.

use vstd::prelude::*;

use crate::action::{opt_action_view, Action, ActionV};
use crate::emoji::Emoji;
use crate::ids::UserId;
use crate::prompt::Prompt;
use crate::prompt_message::PromptMessage;
use crate::response::{Response, ResponseV};
use crate::text::{seq_eq_ci, str_eq_ci, trim, trim_spec};
use crate::update::{Update, UpdateV};

verus! {

/// A participant: immutable identity, mutable profile fields, and the prompt
/// currently shown. Created lazily on first contact, never deleted.
#[derive(Debug, PartialEq, Eq)]
pub struct User {
    pub id: UserId,
    pub welcomed: bool,
    pub bio: Option<String>,
    pub prompt_message: Option<PromptMessage>,
}

/// Mathematical image of a [`User`]: the bio as a character sequence.
pub ghost struct UserV {
    pub id: UserId,
    pub welcomed: bool,
    pub bio: Option<Seq<char>>,
    pub prompt_message: Option<PromptMessage>,
}

impl View for User {
    type V = UserV;

    open spec fn view(&self) -> UserV {
        UserV {
            id: self.id,
            welcomed: self.welcomed,
            bio: match self.bio {
                Some(ref b) => Some(b@),
                None => None,
            },
            prompt_message: self.prompt_message,
        }
    }
}

impl UserV {
    /// Whether the participant still owes a profile-completion step.
    pub open spec fn profile_incomplete(self) -> bool {
        !self.welcomed || self.bio is None
    }

    /// The profile-completion prompt currently owed. Meaningful only while
    /// the profile is incomplete.
    pub open spec fn gating_prompt(self) -> Prompt {
        if !self.welcomed {
            Prompt::Welcome
        } else {
            Prompt::Bio
        }
    }
}

/// The action derived from a text message, given the current prompt. The
/// interpretation table is keyed by prompt variant alone:
/// - `Welcome`: `"ok"` (case-insensitive, surrounding whitespace ignored)
///   confirms; any other text is ignored.
/// - `Bio`: any text becomes the bio, trimmed.
/// - `Candidate`: `"yes"`/`"y"` accepts, `"no"`/`"n"` declines
///   (case-insensitive); anything else is ignored.
/// - `Match`: `"ok"` dismisses the match; anything else is ignored.
/// - `Quiescent`: everything is ignored.
pub open spec fn spec_action_for_message(prompt: Prompt, content: Seq<char>) -> Option<ActionV> {
    let t = trim_spec(content);
    match prompt {
        Prompt::Welcome => if seq_eq_ci(t, "ok"@) {
            Some(ActionV::Welcome)
        } else {
            None
        },
        Prompt::Bio => Some(ActionV::SetBio { text: t }),
        Prompt::Candidate { id } => if seq_eq_ci(t, "yes"@) || seq_eq_ci(t, "y"@) {
            Some(ActionV::AcceptCandidate { id })
        } else if seq_eq_ci(t, "no"@) || seq_eq_ci(t, "n"@) {
            Some(ActionV::DeclineCandidate { id })
        } else {
            None
        },
        Prompt::Match { id } => if seq_eq_ci(t, "ok"@) {
            Some(ActionV::DismissMatch { id })
        } else {
            None
        },
        Prompt::Quiescent => None,
    }
}

/// The action derived from a recognized reaction, given the current prompt:
/// a thumbs-up confirms a `Welcome`, accepts a `Candidate` and dismisses a
/// `Match`; a thumbs-down declines a `Candidate`. Everything else is ignored.
pub open spec fn spec_action_for_reaction(prompt: Prompt, emoji: Emoji) -> Option<ActionV> {
    match prompt {
        Prompt::Welcome => if emoji == Emoji::ThumbsUp {
            Some(ActionV::Welcome)
        } else {
            None
        },
        Prompt::Candidate { id } => match emoji {
            Emoji::ThumbsUp => Some(ActionV::AcceptCandidate { id }),
            Emoji::ThumbsDown => Some(ActionV::DeclineCandidate { id }),
        },
        Prompt::Match { id } => if emoji == Emoji::ThumbsUp {
            Some(ActionV::DismissMatch { id })
        } else {
            None
        },
        Prompt::Bio => None,
        Prompt::Quiescent => None,
    }
}

/// Profile-completion gating: an uncompleted profile always wins, regardless
/// of the action just taken, except for the action that completes the missing
/// step itself.
pub open spec fn spec_next_prompt(u: UserV, action: ActionV) -> Prompt {
    if !(u.welcomed || action is Welcome) {
        Prompt::Welcome
    } else if u.bio is None && !(action is SetBio) {
        Prompt::Bio
    } else {
        Prompt::Quiescent
    }
}

/// The full interpretation step: derive an action from the response under the
/// current prompt, then the next intrinsic prompt under profile gating. A
/// participant without a live prompt is owed `Welcome`; a response that
/// yields no action leaves the current prompt in place.
pub open spec fn spec_update(u: UserV, response: ResponseV) -> UpdateV {
    match u.prompt_message {
        None => UpdateV { action: None, next_prompt: Prompt::Welcome },
        Some(pm) => {
            let action = match response {
                ResponseV::Message(content) => spec_action_for_message(pm.prompt, content),
                ResponseV::Reaction(emoji) => spec_action_for_reaction(pm.prompt, emoji),
                ResponseV::UnrecognizedReaction(_) => None,
                ResponseV::Custom(_) => None,
            };
            match action {
                None => UpdateV { action: None, next_prompt: pm.prompt },
                Some(a) => UpdateV { action: Some(a), next_prompt: spec_next_prompt(u, a) },
            }
        },
    }
}

impl User {
    /// Interpret a response against this participant's current state.
    pub fn update(&self, response: &Response) -> (u: Update)
        ensures
            u@ == spec_update(self@, response@),
    {
        let prompt = match self.prompt_message {
            Some(prompt_message) => prompt_message.prompt,
            None => {
                return Update { action: None, next_prompt: Prompt::Welcome };
            },
        };

        let action = match response {
            Response::Message(content) => Self::action_for_message(prompt, content.as_str()),
            Response::Reaction(emoji) => Self::action_for_reaction(prompt, *emoji),
            Response::UnrecognizedReaction(_) => None,
            Response::Custom(_) => None,
        };

        match action {
            None => Update { action: None, next_prompt: prompt },
            Some(action) => {
                let next_prompt = self.next_prompt(&action);
                Update { action: Some(action), next_prompt }
            },
        }
    }

    /// The action a text message carries while `prompt` is shown.
    pub fn action_for_message(prompt: Prompt, content: &str) -> (r: Option<Action>)
        ensures
            opt_action_view(r) == spec_action_for_message(prompt, content@),
    {
        let t = trim(content);
        match prompt {
            Prompt::Welcome => if str_eq_ci(t, "ok") {
                Some(Action::Welcome)
            } else {
                None
            },
            Prompt::Bio => Some(Action::SetBio { text: t.to_owned() }),
            Prompt::Candidate { id } => if str_eq_ci(t, "yes") || str_eq_ci(t, "y") {
                Some(Action::AcceptCandidate { id })
            } else if str_eq_ci(t, "no") || str_eq_ci(t, "n") {
                Some(Action::DeclineCandidate { id })
            } else {
                None
            },
            Prompt::Match { id } => if str_eq_ci(t, "ok") {
                Some(Action::DismissMatch { id })
            } else {
                None
            },
            Prompt::Quiescent => None,
        }
    }

    /// The action a recognized reaction carries while `prompt` is shown.
    pub fn action_for_reaction(prompt: Prompt, emoji: Emoji) -> (r: Option<Action>)
        ensures
            opt_action_view(r) == spec_action_for_reaction(prompt, emoji),
    {
        match prompt {
            Prompt::Welcome => if emoji == Emoji::ThumbsUp {
                Some(Action::Welcome)
            } else {
                None
            },
            Prompt::Candidate { id } => match emoji {
                Emoji::ThumbsUp => Some(Action::AcceptCandidate { id }),
                Emoji::ThumbsDown => Some(Action::DeclineCandidate { id }),
            },
            Prompt::Match { id } => if emoji == Emoji::ThumbsUp {
                Some(Action::DismissMatch { id })
            } else {
                None
            },
            Prompt::Bio => None,
            Prompt::Quiescent => None,
        }
    }

    /// The next intrinsic prompt after `action`, under profile gating.
    pub fn next_prompt(&self, action: &Action) -> (r: Prompt)
        ensures
            r == spec_next_prompt(self@, action@),
    {
        if !(self.welcomed || matches!(action, Action::Welcome)) {
            return Prompt::Welcome;
        }
        if self.bio.is_none() && !matches!(action, Action::SetBio { .. }) {
            return Prompt::Bio;
        }
        Prompt::Quiescent
    }
}

/// The first (and, in a well-formed table, only) participant with the id.
pub open spec fn find_user(users: Seq<UserV>, id: UserId) -> Option<UserV>
    decreases users.len(),
{
    if users.len() == 0 {
        None
    } else if users[0].id == id {
        Some(users[0])
    } else {
        find_user(users.drop_first(), id)
    }
}

/// Participant ids are unique.
pub open spec fn wf_users(users: Seq<UserV>) -> bool {
    forall|i: int, j: int| 0 <= i < j < users.len() ==> users[i].id != users[j].id
}

/// The table with the first participant carrying the id replaced by `f` of it.
pub open spec fn update_user(users: Seq<UserV>, id: UserId, f: spec_fn(UserV) -> UserV) -> Seq<
    UserV,
>
    decreases users.len(),
{
    if users.len() == 0 {
        users
    } else if users[0].id == id {
        seq![f(users[0])] + users.drop_first()
    } else {
        seq![users[0]] + update_user(users.drop_first(), id, f)
    }
}

/// The table after marking the participant welcomed.
pub open spec fn welcome_users(users: Seq<UserV>, id: UserId) -> Seq<UserV> {
    update_user(users, id, |u: UserV| UserV { welcomed: true, ..u })
}

/// The table after setting the participant's bio.
pub open spec fn set_bio_users(users: Seq<UserV>, id: UserId, text: Seq<char>) -> Seq<UserV> {
    update_user(users, id, |u: UserV| UserV { bio: Some(text), ..u })
}

/// The table after replacing the participant's live prompt message.
pub open spec fn set_prompt_users(users: Seq<UserV>, id: UserId, pm: PromptMessage) -> Seq<UserV> {
    update_user(users, id, |u: UserV| UserV { prompt_message: Some(pm), ..u })
}

/// An absent id is absent from every row.
pub proof fn lemma_find_user_none(users: Seq<UserV>, id: UserId)
    requires
        find_user(users, id) is None,
    ensures
        forall|i: int| 0 <= i < users.len() ==> users[i].id != id,
    decreases users.len(),
{
    if users.len() > 0 {
        lemma_find_user_none(users.drop_first(), id);
        assert forall|i: int| 0 <= i < users.len() implies users[i].id != id by {
            if i > 0 {
                assert(users.drop_first()[i - 1] == users[i]);
            }
        }
    }
}

/// Appending a row only affects lookups of its id, and only when that id was
/// absent before.
pub proof fn lemma_find_user_push(users: Seq<UserV>, u2: UserV, id: UserId)
    ensures
        find_user(users.push(u2), id) == (if find_user(users, id) is Some {
            find_user(users, id)
        } else if u2.id == id {
            Some(u2)
        } else {
            None
        }),
    decreases users.len(),
{
    let out = users.push(u2);
    if users.len() == 0 {
        assert(out =~= seq![u2]);
        assert(out.drop_first() =~= Seq::<UserV>::empty());
        assert(find_user(out.drop_first(), id) is None);
    } else {
        assert(out[0] == users[0]);
        assert(out.drop_first() =~= users.drop_first().push(u2));
        lemma_find_user_push(users.drop_first(), u2, id);
    }
}

/// Replacing the first row with the id, given its index, is a pointwise
/// update of the table at that index.
pub proof fn lemma_update_user_at(
    users: Seq<UserV>,
    id: UserId,
    f: spec_fn(UserV) -> UserV,
    i: int,
)
    requires
        0 <= i < users.len(),
        users[i].id == id,
        forall|j: int| 0 <= j < i ==> users[j].id != id,
    ensures
        update_user(users, id, f) =~= users.update(i, f(users[i])),
    decreases i,
{
    let out = update_user(users, id, f);
    if i == 0 {
        assert(out =~= seq![f(users[0])] + users.drop_first());
    } else {
        assert(users.drop_first()[i - 1] == users[i]);
        assert forall|j: int| 0 <= j < i - 1 implies users.drop_first()[j].id != id by {
            assert(users.drop_first()[j] == users[j + 1]);
        }
        lemma_update_user_at(users.drop_first(), id, f, i - 1);
        assert(out =~= seq![users[0]] + update_user(users.drop_first(), id, f));
        assert(out =~= users.update(i, f(users[i])));
    }
}

/// Updating an absent id leaves the table unchanged.
pub proof fn lemma_update_user_absent(users: Seq<UserV>, id: UserId, f: spec_fn(UserV) -> UserV)
    requires
        find_user(users, id) is None,
    ensures
        update_user(users, id, f) =~= users,
    decreases users.len(),
{
    if users.len() > 0 {
        lemma_update_user_absent(users.drop_first(), id, f);
        assert(update_user(users, id, f) =~= seq![users[0]] + update_user(
            users.drop_first(),
            id,
            f,
        ));
    }
}

/// Profile gating is idempotent: while the participant's profile is incomplete
/// and the prompt on display is the gating prompt owed, a response that yields
/// no action re-returns that same gating prompt, unchanged; and since a gating
/// prompt is never `Quiescent`, the resolution engine never overrides it.
pub proof fn lemma_profile_gating_idempotent(u: UserV, response: ResponseV)
    requires
        u.profile_incomplete(),
        u.prompt_message matches Some(pm) && pm.prompt == u.gating_prompt(),
    ensures
        spec_update(u, response).action is None ==> spec_update(u, response).next_prompt
            == u.gating_prompt(),
        u.gating_prompt() !is Quiescent,
{
}

} // verus!
