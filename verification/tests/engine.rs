use quwue::action::Action;
use quwue::error::Error;
use quwue::ids::{MessageId, UserId};
use quwue::ledger::ResponseRow;
use quwue::prompt::Prompt;
use quwue::prompt_message::PromptMessage;
use quwue::response::Response;
use quwue::store::Db;
use quwue::update::Update;
use quwue::user::User;

/// Walk a participant through profile completion, asserting that the final
/// resolved prompt is `expected_prompt`.
fn create_user(db: &mut Db, id: u64, expected_prompt: Prompt) -> UserId {
    let uid = UserId(id);
    db.user(uid);

    let update = Update {
        action: Some(Action::Welcome),
        next_prompt: Prompt::Bio,
    };
    let tx = db.prepare(uid, &update).unwrap();
    tx.commit(db, MessageId(200)).unwrap();

    let update = Update {
        action: Some(Action::SetBio {
            text: format!("User {}'s bio!", id),
        }),
        next_prompt: Prompt::Quiescent,
    };
    let tx = db.prepare(uid, &update).unwrap();
    assert_eq!(tx.prompt(), expected_prompt);
    tx.commit(db, MessageId(200)).unwrap();

    uid
}

#[test]
fn create_user_is_idempotent() {
    let mut db = Db::new();
    let discord_id = UserId(100);

    assert_eq!(db.user_count(), 0);

    let have = db.user(discord_id);
    let want = User {
        id: discord_id,
        prompt_message: None,
        welcomed: false,
        bio: None,
    };
    assert_eq!(have, want);
    assert_eq!(db.user_count(), 1);

    let have = db.user(discord_id);
    assert_eq!(have, want);
    assert_eq!(db.user_count(), 1);
}

#[test]
fn welcome() {
    let mut db = Db::new();
    let discord_id = UserId(100);
    let message_id = MessageId(200);

    db.user(discord_id);

    let update = Update {
        action: Some(Action::Welcome),
        next_prompt: Prompt::Welcome,
    };
    let tx = db.prepare(discord_id, &update).unwrap();
    tx.commit(&mut db, message_id).unwrap();

    let have = db.user(discord_id);
    let want = User {
        id: discord_id,
        welcomed: true,
        prompt_message: Some(PromptMessage {
            prompt: Prompt::Welcome,
            message_id,
        }),
        bio: None,
    };
    assert_eq!(have, want);
}

#[test]
fn db_set_bio() {
    let mut db = Db::new();
    let discord_id = UserId(100);
    let message_id = MessageId(200);

    db.user(discord_id);

    let update = Update {
        action: Some(Action::SetBio { text: "bio!".to_owned() }),
        next_prompt: Prompt::Bio,
    };
    let tx = db.prepare(discord_id, &update).unwrap();
    tx.commit(&mut db, message_id).unwrap();

    let have = db.user(discord_id);
    let want = User {
        id: discord_id,
        welcomed: false,
        prompt_message: Some(PromptMessage {
            prompt: Prompt::Bio,
            message_id,
        }),
        bio: Some("bio!".to_owned()),
    };
    assert_eq!(have, want);
}

#[test]
fn expect_candidate() {
    let mut db = Db::new();
    let a = create_user(&mut db, 1, Prompt::Quiescent);
    create_user(&mut db, 2, Prompt::Candidate { id: a });
}

#[test]
fn filter_out_accepted_candidates() {
    let mut db = Db::new();
    let a = create_user(&mut db, 1, Prompt::Quiescent);
    let b = create_user(&mut db, 2, Prompt::Candidate { id: a });

    let update = Update {
        action: Some(Action::AcceptCandidate { id: a }),
        next_prompt: Prompt::Quiescent,
    };
    let tx = db.prepare(b, &update).unwrap();
    assert_eq!(tx.prompt(), Prompt::Quiescent);
}

#[test]
fn filter_out_declined_candidates() {
    let mut db = Db::new();
    let a = create_user(&mut db, 1, Prompt::Quiescent);
    let b = create_user(&mut db, 2, Prompt::Candidate { id: a });

    let update = Update {
        action: Some(Action::DeclineCandidate { id: a }),
        next_prompt: Prompt::Quiescent,
    };
    let tx = db.prepare(b, &update).unwrap();
    assert_eq!(tx.prompt(), Prompt::Quiescent);
}

#[test]
fn filter_out_candidates_that_have_declined_user() {
    let mut db = Db::new();
    let a = create_user(&mut db, 1, Prompt::Quiescent);
    let b = create_user(&mut db, 2, Prompt::Candidate { id: a });

    let update = Update {
        action: Some(Action::DeclineCandidate { id: a }),
        next_prompt: Prompt::Quiescent,
    };
    let tx = db.prepare(b, &update).unwrap();
    assert_eq!(tx.prompt(), Prompt::Quiescent);
    tx.commit(&mut db, MessageId(201)).unwrap();

    let update = Update {
        action: None,
        next_prompt: Prompt::Quiescent,
    };
    let tx = db.prepare(a, &update).unwrap();
    assert_eq!(tx.prompt(), Prompt::Quiescent);
}

#[test]
fn dont_filter_candidates_that_have_accepted_user() {
    let mut db = Db::new();
    let a = create_user(&mut db, 1, Prompt::Quiescent);
    let b = create_user(&mut db, 2, Prompt::Candidate { id: a });

    let update = Update {
        action: Some(Action::AcceptCandidate { id: a }),
        next_prompt: Prompt::Quiescent,
    };
    let tx = db.prepare(b, &update).unwrap();
    assert_eq!(tx.prompt(), Prompt::Quiescent);
    tx.commit(&mut db, MessageId(201)).unwrap();

    let update = Update {
        action: None,
        next_prompt: Prompt::Quiescent,
    };
    let tx = db.prepare(a, &update).unwrap();
    assert_eq!(tx.prompt(), Prompt::Candidate { id: b });
}

#[test]
fn allow_multiple_responses() {
    let mut db = Db::new();
    let a = create_user(&mut db, 1, Prompt::Quiescent);
    let b = create_user(&mut db, 2, Prompt::Candidate { id: a });

    let update = Update {
        action: Some(Action::AcceptCandidate { id: a }),
        next_prompt: Prompt::Quiescent,
    };
    let tx = db.prepare(b, &update).unwrap();
    assert_eq!(tx.prompt(), Prompt::Quiescent);
    tx.commit(&mut db, MessageId(201)).unwrap();

    assert!(db.response(b, a).unwrap().accepted);

    let update = Update {
        action: Some(Action::DeclineCandidate { id: a }),
        next_prompt: Prompt::Quiescent,
    };
    let tx = db.prepare(b, &update).unwrap();
    assert_eq!(tx.prompt(), Prompt::Quiescent);
    tx.commit(&mut db, MessageId(201)).unwrap();

    assert!(!db.response(b, a).unwrap().accepted);
}

#[test]
fn show_match_prompt_after_mutual_acceptance() {
    let mut db = Db::new();
    let a = create_user(&mut db, 1, Prompt::Quiescent);
    let b = create_user(&mut db, 2, Prompt::Candidate { id: a });

    let update = Update {
        action: Some(Action::AcceptCandidate { id: a }),
        next_prompt: Prompt::Quiescent,
    };
    let tx = db.prepare(b, &update).unwrap();
    assert_eq!(tx.prompt(), Prompt::Quiescent);
    tx.commit(&mut db, MessageId(201)).unwrap();

    let update = Update {
        action: Some(Action::AcceptCandidate { id: b }),
        next_prompt: Prompt::Quiescent,
    };
    let tx = db.prepare(a, &update).unwrap();
    assert_eq!(tx.prompt(), Prompt::Match { id: b });
    tx.commit(&mut db, MessageId(201)).unwrap();
}

#[test]
fn inserting_responses_from_non_existant_users_is_an_error() {
    let mut db = Db::new();
    create_user(&mut db, 1, Prompt::Quiescent);

    let update = Update {
        action: Some(Action::AcceptCandidate { id: UserId(1) }),
        next_prompt: Prompt::Quiescent,
    };
    let error = db.prepare(UserId(100), &update).unwrap_err();
    assert_eq!(error, Error::UserUnknown { id: UserId(100) });
}

#[test]
fn inserting_responses_to_non_existant_users_is_an_error() {
    let mut db = Db::new();
    create_user(&mut db, 1, Prompt::Quiescent);

    let update = Update {
        action: Some(Action::AcceptCandidate { id: UserId(100) }),
        next_prompt: Prompt::Quiescent,
    };
    let error = db.prepare(UserId(1), &update).unwrap_err();
    assert_eq!(error, Error::UserUnknown { id: UserId(100) });
}

#[test]
fn candidate_function_prioritizes_users_who_have_accepted() {
    let mut db = Db::new();
    let a = create_user(&mut db, 1, Prompt::Quiescent);
    let b = create_user(&mut db, 2, Prompt::Candidate { id: a });
    let c = create_user(&mut db, 3, Prompt::Candidate { id: a });
    db.set_prompt(b, PromptMessage { prompt: Prompt::Quiescent, message_id: MessageId(0) })
        .unwrap();
    db.set_prompt(c, PromptMessage { prompt: Prompt::Quiescent, message_id: MessageId(0) })
        .unwrap();

    assert_eq!(db.get_candidate(a), Some(b));

    let update = Update {
        action: Some(Action::AcceptCandidate { id: a }),
        next_prompt: Prompt::Quiescent,
    };
    db.prepare(c, &update)
        .unwrap()
        .commit(&mut db, MessageId(0))
        .unwrap();
    db.set_prompt(c, PromptMessage { prompt: Prompt::Quiescent, message_id: MessageId(0) })
        .unwrap();

    assert_eq!(db.get_candidate(a), Some(c));
}

#[test]
fn gating_prompt_is_idempotent() {
    let mut db = Db::new();
    let a = UserId(1);

    // First contact is owed Welcome; irrelevant input keeps re-returning it.
    for text in ["hi", "foo", "anything else"] {
        let tx = db
            .submit_response(a, &Response::message(text.into()))
            .unwrap();
        assert_eq!(tx.prompt(), Prompt::Welcome);
        tx.commit(&mut db, MessageId(1)).unwrap();
    }

    // Once welcomed, irrelevant input keeps re-returning Bio.
    let tx = db.submit_response(a, &Response::message("ok".into())).unwrap();
    assert_eq!(tx.prompt(), Prompt::Bio);
    tx.commit(&mut db, MessageId(2)).unwrap();
    // A reaction carries no action while Bio is shown.
    let tx = db
        .submit_response(a, &Response::unicode_reaction("🦀".into()))
        .unwrap();
    assert_eq!(tx.prompt(), Prompt::Bio);
    tx.commit(&mut db, MessageId(3)).unwrap();
    let tx = db
        .submit_response(a, &Response::unicode_reaction("👍".into()))
        .unwrap();
    assert_eq!(tx.prompt(), Prompt::Bio);
}

#[test]
fn ledger_upsert_leaves_one_row() {
    let mut db = Db::new();
    let a = create_user(&mut db, 1, Prompt::Quiescent);
    let b = create_user(&mut db, 2, Prompt::Candidate { id: a });

    for accepted in [true, false, true] {
        let action = if accepted {
            Action::AcceptCandidate { id: a }
        } else {
            Action::DeclineCandidate { id: a }
        };
        let update = Update {
            action: Some(action),
            next_prompt: Prompt::Quiescent,
        };
        db.prepare(b, &update)
            .unwrap()
            .commit(&mut db, MessageId(201))
            .unwrap();
    }

    assert_eq!(
        db.response(b, a),
        Some(ResponseRow {
            responder: b,
            subject: a,
            accepted: true,
            dismissed: false,
        })
    );
}

#[test]
fn mutual_match_symmetry_either_order() {
    for flip in [false, true] {
        let mut db = Db::new();
        let a = create_user(&mut db, 1, Prompt::Quiescent);
        let b = create_user(&mut db, 2, Prompt::Candidate { id: a });

        let (first, second) = if flip { (b, a) } else { (a, b) };
        for (who, whom) in [(first, second), (second, first)] {
            let update = Update {
                action: Some(Action::AcceptCandidate { id: whom }),
                next_prompt: Prompt::Quiescent,
            };
            db.prepare(who, &update)
                .unwrap()
                .commit(&mut db, MessageId(5))
                .unwrap();
        }

        assert_eq!(db.get_match(a), Some(b));
        assert_eq!(db.get_match(b), Some(a));
    }
}

#[test]
fn no_self_candidate_no_repeat_candidate() {
    let mut db = Db::new();
    let a = create_user(&mut db, 1, Prompt::Quiescent);
    // Alone in the store, a complete profile is never its own candidate.
    assert_eq!(db.get_candidate(a), None);

    let b = create_user(&mut db, 2, Prompt::Candidate { id: a });
    // After b responds to a, a is never offered to b again.
    let update = Update {
        action: Some(Action::DeclineCandidate { id: a }),
        next_prompt: Prompt::Quiescent,
    };
    db.prepare(b, &update)
        .unwrap()
        .commit(&mut db, MessageId(7))
        .unwrap();
    assert_eq!(db.get_candidate(b), None);
}

#[test]
fn priority_suppression_keeps_more_urgent_prompt() {
    let mut db = Db::new();
    let a = create_user(&mut db, 1, Prompt::Quiescent);
    let x = create_user(&mut db, 2, Prompt::Candidate { id: a });
    let m = create_user(&mut db, 3, Prompt::Candidate { id: a });

    // x currently displays a Match prompt.
    let shown = PromptMessage {
        prompt: Prompt::Match { id: m },
        message_id: MessageId(9),
    };
    db.set_prompt(x, shown).unwrap();

    // a accepts x; the interrupt for x would be a less urgent Candidate
    // prompt, so it is suppressed and x's stored prompt is unchanged.
    let update = Update {
        action: Some(Action::AcceptCandidate { id: x }),
        next_prompt: Prompt::Quiescent,
    };
    db.prepare(a, &update)
        .unwrap()
        .commit(&mut db, MessageId(10))
        .unwrap();

    assert!(db.prepare_interrupt_for_accept(a, x).is_none());
    assert_eq!(db.user(x).prompt_message, Some(shown));
}

#[test]
fn abandoned_transaction_changes_nothing() {
    let mut db = Db::new();
    let a = create_user(&mut db, 1, Prompt::Quiescent);
    let before = db.user(a);

    // Prepare a transition that would set a bio and a new prompt, but let
    // rendering fail: the transaction is dropped, never committed.
    let update = Update {
        action: Some(Action::SetBio { text: "changed".into() }),
        next_prompt: Prompt::Bio,
    };
    let tx = db.prepare(a, &update).unwrap();
    assert_eq!(tx.prompt(), Prompt::Bio);
    drop(tx);

    assert_eq!(db.user(a), before);
    assert_eq!(db.response(a, a), None);
}

#[test]
fn candidate__and_match_interrupts() {
    let mut db = Db::new();
    let a = UserId(1);
    let b = UserId(2);

    // a completes their profile.
    let tx = db.submit_response(a, &Response::message("hi".into())).unwrap();
    assert_eq!(tx.prompt(), Prompt::Welcome);
    tx.commit(&mut db, MessageId(1)).unwrap();
    let tx = db.submit_response(a, &Response::Reaction(quwue::emoji::Emoji::ThumbsUp)).unwrap();
    assert_eq!(tx.prompt(), Prompt::Bio);
    tx.commit(&mut db, MessageId(2)).unwrap();
    let tx = db.submit_response(a, &Response::message("a's bio!".into())).unwrap();
    assert_eq!(tx.prompt(), Prompt::Quiescent);
    tx.commit(&mut db, MessageId(3)).unwrap();

    // b completes their profile and is offered a.
    let tx = db.submit_response(b, &Response::message("hi".into())).unwrap();
    tx.commit(&mut db, MessageId(4)).unwrap();
    let tx = db.submit_response(b, &Response::message("ok".into())).unwrap();
    tx.commit(&mut db, MessageId(5)).unwrap();
    let tx = db.submit_response(b, &Response::message("b's bio!".into())).unwrap();
    assert_eq!(tx.prompt(), Prompt::Candidate { id: a });
    tx.commit(&mut db, MessageId(6)).unwrap();

    // b accepts a: b has nothing further owed, and a is proactively offered b.
    let tx = db.submit_response(b, &Response::message("yes".into())).unwrap();
    assert_eq!(tx.prompt(), Prompt::Quiescent);
    tx.commit(&mut db, MessageId(7)).unwrap();

    let interrupt = db.prepare_interrupt_for_accept(b, a).unwrap();
    assert_eq!(interrupt.prompt(), Prompt::Candidate { id: b });
    assert_eq!(interrupt.user_id(), a);
    interrupt.commit(&mut db, MessageId(8)).unwrap();

    // a accepts b: a resolves straight to the match, and the interrupt for b
    // is the reciprocal match.
    let tx = db.submit_response(a, &Response::message("y".into())).unwrap();
    assert_eq!(tx.prompt(), Prompt::Match { id: b });
    tx.commit(&mut db, MessageId(9)).unwrap();

    let interrupt = db.prepare_interrupt_for_accept(a, b).unwrap();
    assert_eq!(interrupt.prompt(), Prompt::Match { id: a });
    assert_eq!(interrupt.user_id(), b);
    interrupt.commit(&mut db, MessageId(10)).unwrap();

    assert_eq!(
        db.user(b).prompt_message,
        Some(PromptMessage {
            prompt: Prompt::Match { id: a },
            message_id: MessageId(10),
        })
    );
}

#[test]
fn declined_candidates_get_no_interrupt() {
    let mut db = Db::new();
    let a = create_user(&mut db, 1, Prompt::Quiescent);
    let b = create_user(&mut db, 2, Prompt::Candidate { id: a });

    // b declines a; later a accepts b anyway. b has declined, so no
    // interrupt is owed to b.
    let update = Update {
        action: Some(Action::DeclineCandidate { id: a }),
        next_prompt: Prompt::Quiescent,
    };
    db.prepare(b, &update)
        .unwrap()
        .commit(&mut db, MessageId(11))
        .unwrap();

    let update = Update {
        action: Some(Action::AcceptCandidate { id: b }),
        next_prompt: Prompt::Quiescent,
    };
    db.prepare(a, &update)
        .unwrap()
        .commit(&mut db, MessageId(12))
        .unwrap();

    assert!(db.prepare_interrupt_for_accept(a, b).is_none());
}

#[test]
fn match_prompt() {
    let mut db = Db::new();
    let a = create_user(&mut db, 1, Prompt::Quiescent);
    let b = create_user(&mut db, 2, Prompt::Candidate { id: a });

    for (who, whom) in [(b, a), (a, b)] {
        let update = Update {
            action: Some(Action::AcceptCandidate { id: whom }),
            next_prompt: Prompt::Quiescent,
        };
        db.prepare(who, &update)
            .unwrap()
            .commit(&mut db, MessageId(13))
            .unwrap();
    }

    let text = db.prompt_text_outside_update_transaction(Prompt::Match { id: b });
    assert!(text.contains("User 2's bio!"));
    let text = db.prompt_text_outside_update_transaction(Prompt::Match { id: a });
    assert!(text.contains("User 1's bio!"));

    // The mutual acceptance left a's stored prompt at the match; confirming
    // it dismisses the match and quiets the prompt for good.
    let tx = db.submit_response(a, &Response::message("ok".into())).unwrap();
    assert_eq!(tx.prompt(), Prompt::Quiescent);
    tx.commit(&mut db, MessageId(14)).unwrap();
    assert_eq!(db.get_match(a), None);
    // The reciprocal acceptance is untouched: b still sees the match.
    assert_eq!(db.get_match(b), Some(a));
}

#[test]
fn reject_candidate_with_no() {
    let mut db = Db::new();
    let a = create_user(&mut db, 1, Prompt::Quiescent);
    let b = create_user(&mut db, 2, Prompt::Candidate { id: a });

    let tx = db.submit_response(b, &Response::message("no".into())).unwrap();
    assert_eq!(tx.prompt(), Prompt::Quiescent);
    tx.commit(&mut db, MessageId(16)).unwrap();

    let row = db.response(b, a).unwrap();
    assert!(!row.accepted);
    assert!(!row.dismissed);
}

#[test]
fn candidate_hidden_after_rejection() {
    let mut db = Db::new();
    let a = create_user(&mut db, 1, Prompt::Quiescent);
    let b = create_user(&mut db, 2, Prompt::Candidate { id: a });

    // b accepts a; a is offered b and declines.
    let tx = db.submit_response(b, &Response::message("yes".into())).unwrap();
    tx.commit(&mut db, MessageId(17)).unwrap();
    db.prepare_interrupt_for_accept(b, a)
        .unwrap()
        .commit(&mut db, MessageId(18))
        .unwrap();

    let tx = db.submit_response(a, &Response::message("n".into())).unwrap();
    assert_eq!(tx.prompt(), Prompt::Quiescent);
    tx.commit(&mut db, MessageId(19)).unwrap();

    // Neither is ever offered the other again.
    assert_eq!(db.get_candidate(a), None);
    assert_eq!(db.get_candidate(b), None);
    assert_eq!(db.get_match(a), None);
    assert_eq!(db.get_match(b), None);
}

#[test]
fn dont_show_users_as_candidates_when_they_have_pending_candidate_prompts() {
    let mut db = Db::new();
    let a = create_user(&mut db, 1, Prompt::Quiescent);
    let b = create_user(&mut db, 2, Prompt::Candidate { id: a });
    let c = create_user(&mut db, 3, Prompt::Candidate { id: a });

    // c accepts a and rests quiescent; b still holds a pending Candidate
    // prompt, so a is offered c, never b.
    let update = Update {
        action: Some(Action::AcceptCandidate { id: a }),
        next_prompt: Prompt::Quiescent,
    };
    db.prepare(c, &update)
        .unwrap()
        .commit(&mut db, MessageId(15))
        .unwrap();

    assert_eq!(db.get_candidate(a), Some(c));
    let _ = b;
}

#[test]
fn prompt_text_surfaces_invariant_violations() {
    let mut db = Db::new();
    let a = UserId(1);
    db.user(a);

    assert_eq!(
        db.prompt_text(Prompt::Candidate { id: UserId(9) }),
        Err(Error::UserUnknown { id: UserId(9) })
    );
    assert_eq!(
        db.prompt_text(Prompt::Match { id: a }),
        Err(Error::UserMissingBio { id: a })
    );
    assert!(db
        .prompt_text(Prompt::Welcome)
        .unwrap()
        .contains(":thumbsup:"));
    assert!(db.prompt_text(Prompt::Bio).unwrap().starts_with("Please enter a bio"));
}

#[test]
fn transaction_text_reads_the_staged_state() {
    let mut db = Db::new();
    let a = create_user(&mut db, 1, Prompt::Quiescent);
    let b = create_user(&mut db, 2, Prompt::Candidate { id: a });
    let _ = b;

    let update = Update {
        action: None,
        next_prompt: Prompt::Quiescent,
    };
    let tx = db.prepare(b, &update).unwrap();
    assert_eq!(tx.prompt(), Prompt::Candidate { id: a });
    let text = tx.prompt_text().unwrap();
    assert!(text.starts_with("New potential match:\n"));
    assert!(text.contains("User 1's bio!"));
}
