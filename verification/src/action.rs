//! A store mutation derived from an interpreted response. Actions are the only
//! way the store mutates; they are derived by the interpreter, never invented
//! by the store layer.

use vstd::prelude::*;

use crate::ids::UserId;

verus! {

#[derive(Debug, Clone, PartialEq, Eq)]
pub enum Action {
    AcceptCandidate { id: UserId },
    DeclineCandidate { id: UserId },
    DismissMatch { id: UserId },
    SetBio { text: String },
    Welcome,
}

/// Mathematical image of an [`Action`]: text as a character sequence.
pub ghost enum ActionV {
    AcceptCandidate { id: UserId },
    DeclineCandidate { id: UserId },
    DismissMatch { id: UserId },
    SetBio { text: Seq<char> },
    Welcome,
}

impl View for Action {
    type V = ActionV;

    open spec fn view(&self) -> ActionV {
        match self {
            Action::AcceptCandidate { id } => ActionV::AcceptCandidate { id: *id },
            Action::DeclineCandidate { id } => ActionV::DeclineCandidate { id: *id },
            Action::DismissMatch { id } => ActionV::DismissMatch { id: *id },
            Action::SetBio { text } => ActionV::SetBio { text: text@ },
            Action::Welcome => ActionV::Welcome,
        }
    }
}

/// The view of an optional action.
pub open spec fn opt_action_view(a: Option<Action>) -> Option<ActionV> {
    match a {
        Some(a) => Some(a@),
        None => None,
    }
}

} // verus!
