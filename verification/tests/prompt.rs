use quwue::emoji::Emoji;
use quwue::error::Error;
use quwue::ids::UserId;
use quwue::prompt::Prompt;

#[test]
fn priority() {
    let mut discriminants = vec![
        Prompt::Match { id: UserId(1) }.discriminant(),
        Prompt::Candidate { id: UserId(1) }.discriminant(),
        Prompt::Quiescent.discriminant(),
        Prompt::Bio.discriminant(),
        Prompt::Welcome.discriminant(),
    ];
    discriminants.sort();

    assert_eq!(
        discriminants,
        vec![
            Prompt::Welcome.discriminant(),
            Prompt::Bio.discriminant(),
            Prompt::Quiescent.discriminant(),
            Prompt::Candidate { id: UserId(1) }.discriminant(),
            Prompt::Match { id: UserId(1) }.discriminant(),
        ]
    );
}

#[test]
fn quiescent() {
    assert!(Prompt::Quiescent.quiescent());
    assert!(!Prompt::Welcome.quiescent());
    assert!(!Prompt::Candidate { id: UserId(2) }.quiescent());
}

#[test]
fn reactions() {
    assert_eq!(
        Prompt::Candidate { id: UserId(1) }.reactions(),
        vec![Emoji::ThumbsUp, Emoji::ThumbsDown]
    );
    assert_eq!(Prompt::Match { id: UserId(1) }.reactions(), vec![Emoji::ThumbsUp]);
    assert_eq!(Prompt::Welcome.reactions(), vec![Emoji::ThumbsUp]);
    assert_eq!(Prompt::Bio.reactions(), vec![]);
    assert_eq!(Prompt::Quiescent.reactions(), vec![]);
}

#[test]
fn cannot_interrupt() {
    let candidate = Prompt::Candidate { id: UserId(1) };
    assert!(candidate.cannot_interrupt(Prompt::Match { id: UserId(2) }.discriminant()));
    assert!(candidate.cannot_interrupt(candidate.discriminant()));
    assert!(!candidate.cannot_interrupt(Prompt::Quiescent.discriminant()));
    assert!(!Prompt::Match { id: UserId(1) }.cannot_interrupt(candidate.discriminant()));
}

#[test]
fn prompt_codec_round_trips() {
    let prompts = vec![
        Prompt::Welcome,
        Prompt::Bio,
        Prompt::Quiescent,
        Prompt::Candidate { id: UserId(17) },
        Prompt::Match { id: UserId(99) },
    ];
    for prompt in prompts {
        assert_eq!(Prompt::load(prompt.store()), Ok(prompt));
    }
}

#[test]
fn prompt_codec_rejects_defective_images() {
    assert_eq!(
        Prompt::load((9, None)),
        Err(Error::PromptLoadBadDiscriminant { discriminant: 9 })
    );
    assert_eq!(
        Prompt::load((3, None)),
        Err(Error::PromptLoadMissingPayload { discriminant: 3 })
    );
    assert_eq!(
        Prompt::load((4, None)),
        Err(Error::PromptLoadMissingPayload { discriminant: 4 })
    );
    assert_eq!(
        Prompt::load((0, Some(5))),
        Err(Error::PromptLoadSuperfluousPayload { discriminant: 0, payload: 5 })
    );
    assert_eq!(Prompt::load((2, None)), Ok(Prompt::Quiescent));
}

#[test]
fn error_messages_name_the_defect() {
    assert_eq!(Error::UserUnknown { id: UserId(7) }.message(), "unknown user: 7");
    assert_eq!(Error::UserMissingBio { id: UserId(12) }.message(), "user missing bio: 12");
    assert_eq!(
        Error::PromptLoadBadDiscriminant { discriminant: 9 }.message(),
        "bad prompt discriminant: 9"
    );
}

#[test]
fn db_url_prefixes_the_scheme() {
    assert_eq!(quwue::db_url::db_url("quwue.db"), "sqlite:quwue.db");
    assert_eq!(quwue::db_url::db_url(""), "sqlite:");
}
