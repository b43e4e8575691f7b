use quwue::action::Action;
use quwue::emoji::Emoji;
use quwue::ids::{EmojiId, MessageId, UserId};
use quwue::prompt::Prompt;
use quwue::prompt_message::PromptMessage;
use quwue::response::Response;
use quwue::user::User;

fn user_with_prompt(prompt: Option<Prompt>, welcomed: bool, bio: Option<&str>) -> User {
    User {
        id: UserId(1),
        welcomed,
        bio: bio.map(|b| b.to_string()),
        prompt_message: prompt.map(|prompt| PromptMessage {
            prompt,
            message_id: MessageId(10),
        }),
    }
}

#[test]
fn first_contact_is_owed_welcome() {
    let user = user_with_prompt(None, false, None);
    let update = user.update(&Response::message("hi".into()));
    assert_eq!(update.action, None);
    assert_eq!(update.next_prompt, Prompt::Welcome);
}

#[test]
fn welcome_confirmed_by_ok_message() {
    let user = user_with_prompt(Some(Prompt::Welcome), false, None);
    for text in ["ok", "OK", "Ok", "  ok  "] {
        let update = user.update(&Response::message(text.into()));
        assert_eq!(update.action, Some(Action::Welcome));
        assert_eq!(update.next_prompt, Prompt::Bio);
    }
}

#[test]
fn welcome_ignores_other_text() {
    let user = user_with_prompt(Some(Prompt::Welcome), false, None);
    let update = user.update(&Response::message("foo".into()));
    assert_eq!(update.action, None);
    assert_eq!(update.next_prompt, Prompt::Welcome);
}

#[test]
fn welcome_confirmed_by_thumbs_up() {
    let user = user_with_prompt(Some(Prompt::Welcome), false, None);
    let update = user.update(&Response::Reaction(Emoji::ThumbsUp));
    assert_eq!(update.action, Some(Action::Welcome));
    assert_eq!(update.next_prompt, Prompt::Bio);
    let update = user.update(&Response::Reaction(Emoji::ThumbsDown));
    assert_eq!(update.action, None);
}

#[test]
fn bio_prompt_takes_any_text_trimmed() {
    let user = user_with_prompt(Some(Prompt::Bio), true, None);
    let update = user.update(&Response::message("  my bio!  ".into()));
    assert_eq!(update.action, Some(Action::SetBio { text: "my bio!".into() }));
    assert_eq!(update.next_prompt, Prompt::Quiescent);
}

#[test]
fn candidate_prompt_interprets_yes_and_no() {
    let user = user_with_prompt(Some(Prompt::Candidate { id: UserId(9) }), true, Some("b"));
    for text in ["yes", "y", "YES", "Y"] {
        let update = user.update(&Response::message(text.into()));
        assert_eq!(update.action, Some(Action::AcceptCandidate { id: UserId(9) }));
        assert_eq!(update.next_prompt, Prompt::Quiescent);
    }
    for text in ["no", "n", "No", "N"] {
        let update = user.update(&Response::message(text.into()));
        assert_eq!(update.action, Some(Action::DeclineCandidate { id: UserId(9) }));
        assert_eq!(update.next_prompt, Prompt::Quiescent);
    }
    let update = user.update(&Response::message("maybe".into()));
    assert_eq!(update.action, None);
    assert_eq!(update.next_prompt, Prompt::Candidate { id: UserId(9) });
}

#[test]
fn candidate_prompt_interprets_reactions() {
    let user = user_with_prompt(Some(Prompt::Candidate { id: UserId(9) }), true, Some("b"));
    let update = user.update(&Response::Reaction(Emoji::ThumbsUp));
    assert_eq!(update.action, Some(Action::AcceptCandidate { id: UserId(9) }));
    let update = user.update(&Response::Reaction(Emoji::ThumbsDown));
    assert_eq!(update.action, Some(Action::DeclineCandidate { id: UserId(9) }));
}

#[test]
fn match_prompt_dismissed_by_ok() {
    let user = user_with_prompt(Some(Prompt::Match { id: UserId(9) }), true, Some("b"));
    let update = user.update(&Response::message("ok".into()));
    assert_eq!(update.action, Some(Action::DismissMatch { id: UserId(9) }));
    assert_eq!(update.next_prompt, Prompt::Quiescent);
    let update = user.update(&Response::Reaction(Emoji::ThumbsUp));
    assert_eq!(update.action, Some(Action::DismissMatch { id: UserId(9) }));
    let update = user.update(&Response::message("foo".into()));
    assert_eq!(update.action, None);
    assert_eq!(update.next_prompt, Prompt::Match { id: UserId(9) });
}

#[test]
fn unrecognized_input_is_ignored_not_an_error() {
    let user = user_with_prompt(Some(Prompt::Welcome), false, None);
    let update = user.update(&Response::unicode_reaction("🦀".into()));
    assert_eq!(update.action, None);
    assert_eq!(update.next_prompt, Prompt::Welcome);
    let update = user.update(&Response::custom_reaction(EmojiId(5)));
    assert_eq!(update.action, None);
    let update = user.update(&Response::UnrecognizedReaction("🦀".into()));
    assert_eq!(update.action, None);
}

#[test]
fn unicode_reaction_classification() {
    assert_eq!(
        Response::unicode_reaction("👍".into()),
        Response::Reaction(Emoji::ThumbsUp)
    );
    assert_eq!(
        Response::unicode_reaction("🦀".into()),
        Response::UnrecognizedReaction("🦀".into())
    );
}

#[test]
fn gating_reasserts_on_every_turn() {
    // Welcomed but no bio: any recognized action other than setting the bio
    // still forces the Bio prompt.
    let user = user_with_prompt(Some(Prompt::Candidate { id: UserId(9) }), true, None);
    let update = user.update(&Response::message("yes".into()));
    assert_eq!(update.action, Some(Action::AcceptCandidate { id: UserId(9) }));
    assert_eq!(update.next_prompt, Prompt::Bio);
}
