//! The output of interpreting a response: an optional action plus the prompt
//! that would follow if no pending match or candidate pre-empts it.

use vstd::prelude::*;

use crate::action::{opt_action_view, Action, ActionV};
use crate::prompt::Prompt;

verus! {

#[derive(Debug)]
pub struct Update {
    pub action: Option<Action>,
    pub next_prompt: Prompt,
}

/// Mathematical image of an [`Update`].
pub ghost struct UpdateV {
    pub action: Option<ActionV>,
    pub next_prompt: Prompt,
}

impl View for Update {
    type V = UpdateV;

    open spec fn view(&self) -> UpdateV {
        UpdateV { action: opt_action_view(self.action), next_prompt: self.next_prompt }
    }
}

} // verus!
