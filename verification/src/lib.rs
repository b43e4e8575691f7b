//! Transactional state machine for a one-to-one conversational matchmaking
//! flow: it decides what a participant should be shown next, records their
//! actions, and resolves mutual-interest pairings.
//!
//! The engine is transport-agnostic. A transport hands in a participant
//! identity and a typed [`response::Response`]; the interpreter
//! ([`user::User::update`]) derives an optional [`action::Action`] and the
//! next intrinsic [`prompt::Prompt`] under profile-completion gating; the
//! resolution engine ([`store::Db::prepare`]) applies the action to a staged
//! copy of the store and overrides a quiescent prompt with a pending match or
//! a fresh candidate. The prepared transaction stays open across the
//! transport's render call and commits — prompt and rendered-message identity
//! together, atomically — only on success; a failed render is abandoned and
//! the store is left untouched. After a committed acceptance, the interrupt
//! protocol ([`store::Db::prepare_interrupt_for_accept`]) decides whether the
//! other participant is proactively notified, never replacing a prompt that
//! is already equally or more urgent.

pub mod action;
pub mod db_url;
pub mod emoji;
pub mod error;
pub mod ids;
pub mod ledger;
pub mod prompt;
pub mod prompt_message;
pub mod render;
pub mod response;
pub mod store;
pub mod testing;
pub mod text;
pub mod update;
pub mod user;
