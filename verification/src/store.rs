//! The entity store and resolution engine.
//!
//! The store owns all persisted state: the participant table and the pairwise
//! response ledger. Mutation happens only through prepared transactions: a
//! call to [`Db::prepare`] applies an action to a staged copy of the state and
//! resolves the participant's next prompt, but touches nothing; only
//! [`UpdateTx::commit`], called after the transport has rendered the prompt
//! and obtained a durable message identity, installs the staged state
//! together with the new prompt message, atomically. Dropping a prepared
//! transaction abandons it and the store is left exactly as it was.
//!
//! Transactions are serialized by exclusive access: `prepare` snapshots the
//! state it is given, and `commit` takes the store by `&mut`. Prompt history
//! per participant is therefore ordered by commit order.

use vstd::prelude::*;

use crate::action::{Action, ActionV};
use crate::error::Error;
use crate::ids::{MessageId, UserId};
use crate::ledger::{
    apply_dismiss, apply_upsert, dismiss_response, find_response, lemma_find_none,
    lemma_find_push, lemma_upsert_append, lookup_response, upsert_response, wf_ledger,
    ResponseRow,
};
use crate::prompt::Prompt;
use crate::prompt_message::PromptMessage;
use crate::render::{render_prompt_text, spec_prompt_text};
use crate::response::{Response, ResponseV};
use crate::update::Update;
use crate::user::{
    find_user, lemma_find_user_none, lemma_find_user_push, lemma_update_user_absent,
    lemma_update_user_at, set_bio_users, set_prompt_users, spec_update, update_user,
    welcome_users, wf_users, User, UserV,
};

verus! {

/// Mathematical image of the whole store.
pub ghost struct DbV {
    pub users: Seq<UserV>,
    pub responses: Seq<ResponseRow>,
}

impl DbV {
    /// Participant ids unique; at most one ledger entry per ordered pair.
    pub open spec fn wf(self) -> bool {
        wf_users(self.users) && wf_ledger(self.responses)
    }
}

/// The views of a participant table.
pub open spec fn views_of(users: Seq<User>) -> Seq<UserV> {
    users.map_values(|u: User| u@)
}

/// The entity store: durable table of participants and the response ledger.
pub struct Db {
    users: Vec<User>,
    responses: Vec<ResponseRow>,
}

impl View for Db {
    type V = DbV;

    closed spec fn view(&self) -> DbV {
        DbV { users: views_of(self.users@), responses: self.responses@ }
    }
}

/// A fresh participant record: nothing on file but the identity.
pub open spec fn new_user_v(id: UserId) -> UserV {
    UserV { id, welcomed: false, bio: None, prompt_message: None }
}

/// The participant table after a get-or-create of `id`.
pub open spec fn get_or_create_users(users: Seq<UserV>, id: UserId) -> Seq<UserV> {
    if find_user(users, id) is Some {
        users
    } else {
        users.push(new_user_v(id))
    }
}

/// Copy a participant record. The copy has the same view.
fn clone_user(u: &User) -> (r: User)
    ensures
        r@ == u@,
{
    User {
        id: u.id,
        welcomed: u.welcomed,
        bio: match &u.bio {
            Some(b) => Some(b.clone()),
            None => None,
        },
        prompt_message: u.prompt_message,
    }
}

/// Copy a participant table. The copy has the same views.
fn clone_users(users: &Vec<User>) -> (r: Vec<User>)
    ensures
        views_of(r@) == views_of(users@),
{
    let n = users.len();
    let mut r: Vec<User> = Vec::new();
    let mut i: usize = 0;
    while i < n
        invariant
            0 <= i <= n,
            n == users@.len(),
            r@.len() == i,
            forall|j: int| 0 <= j < i ==> r@[j]@ == users@[j]@,
        decreases n - i,
    {
        r.push(clone_user(&users[i]));
        i = i + 1;
    }
    proof {
        assert(views_of(r@) =~= views_of(users@));
    }
    r
}

/// Copy a ledger.
fn clone_rows(rs: &Vec<ResponseRow>) -> (r: Vec<ResponseRow>)
    ensures
        r@ == rs@,
{
    let n = rs.len();
    let mut r: Vec<ResponseRow> = Vec::new();
    let mut i: usize = 0;
    while i < n
        invariant
            0 <= i <= n,
            n == rs@.len(),
            r@.len() == i,
            forall|j: int| 0 <= j < i ==> r@[j] == rs@[j],
        decreases n - i,
    {
        r.push(rs[i]);
        i = i + 1;
    }
    proof {
        assert(r@ =~= rs@);
    }
    r
}

/// The index of the participant with the id, if present.
fn user_index(users: &Vec<User>, id: UserId) -> (r: Option<usize>)
    ensures
        r matches Some(i) ==> 0 <= i < users@.len() && users@[i as int]@.id == id && find_user(
            views_of(users@),
            id,
        ) == Some(users@[i as int]@) && (forall|j: int|
            0 <= j < i ==> users@[j]@.id != id),
        r is None ==> find_user(views_of(users@), id) is None,
{
    let ghost vs = views_of(users@);
    let n = users.len();
    proof {
        assert(vs.skip(0) =~= vs);
    }
    let mut i: usize = 0;
    while i < n
        invariant
            0 <= i <= n,
            n == users@.len(),
            vs == views_of(users@),
            vs.len() == n,
            find_user(vs, id) == find_user(vs.skip(i as int), id),
            forall|j: int| 0 <= j < i ==> users@[j]@.id != id,
        decreases n - i,
    {
        proof {
            assert(vs.skip(i as int)[0] == vs[i as int]);
        }
        if users[i].id == id {
            return Some(i);
        }
        proof {
            assert(vs.skip(i as int).drop_first() =~= vs.skip(i + 1));
        }
        i = i + 1;
    }
    proof {
        assert(vs.skip(n as int) =~= Seq::<UserV>::empty());
    }
    None
}

/// The participant's record, if present.
pub(crate) fn find_user_record(users: &Vec<User>, id: UserId) -> (r: Option<&User>)
    ensures
        r matches Some(u) ==> find_user(views_of(users@), id) == Some(u@),
        r is None ==> find_user(views_of(users@), id) is None,
{
    match user_index(users, id) {
        Some(i) => Some(&users[i]),
        None => None,
    }
}

/// Mark the participant welcomed in a staged table.
fn apply_welcome(users: &mut Vec<User>, id: UserId)
    ensures
        views_of(final(users)@) == welcome_users(views_of(old(users)@), id),
{
    let ghost f = |u: UserV| UserV { welcomed: true, ..u };
    match user_index(users, id) {
        Some(i) => {
            proof {
                lemma_update_user_at(views_of(users@), id, f, i as int);
            }
            users[i].welcomed = true;
            proof {
                assert(views_of(users@) =~= welcome_users(views_of(old(users)@), id));
            }
        },
        None => {
            proof {
                lemma_update_user_absent(views_of(users@), id, f);
                assert(views_of(users@) =~= welcome_users(views_of(old(users)@), id));
            }
        },
    }
}

/// Set the participant's bio in a staged table.
fn apply_set_bio(users: &mut Vec<User>, id: UserId, text: &String)
    ensures
        views_of(final(users)@) == set_bio_users(views_of(old(users)@), id, text@),
{
    let ghost f = |u: UserV| UserV { bio: Some(text@), ..u };
    match user_index(users, id) {
        Some(i) => {
            proof {
                lemma_update_user_at(views_of(users@), id, f, i as int);
            }
            users[i].bio = Some(text.clone());
            proof {
                assert(views_of(users@) =~= set_bio_users(views_of(old(users)@), id, text@));
            }
        },
        None => {
            proof {
                lemma_update_user_absent(views_of(users@), id, f);
                assert(views_of(users@) =~= set_bio_users(views_of(old(users)@), id, text@));
            }
        },
    }
}

/// Replace the participant's live prompt message in a staged table.
fn apply_set_prompt(users: &mut Vec<User>, id: UserId, pm: PromptMessage) -> (r: Result<
    (),
    Error,
>)
    ensures
        r is Ok ==> views_of(final(users)@) == set_prompt_users(views_of(old(users)@), id, pm)
            && find_user(views_of(old(users)@), id) is Some,
        r matches Err(e) ==> e == (Error::UserUnknown { id }) && find_user(
            views_of(old(users)@),
            id,
        ) is None && final(users)@ == old(users)@,
{
    let ghost f = |u: UserV| UserV { prompt_message: Some(pm), ..u };
    match user_index(users, id) {
        Some(i) => {
            proof {
                lemma_update_user_at(views_of(users@), id, f, i as int);
            }
            users[i].prompt_message = Some(pm);
            proof {
                assert(views_of(users@) =~= set_prompt_users(views_of(old(users)@), id, pm));
            }
            Ok(())
        },
        None => Err(Error::UserUnknown { id }),
    }
}

impl Db {
    /// Whether the store is well-formed.
    pub open spec fn wf(&self) -> bool {
        self@.wf()
    }

    /// A fresh, empty store.
    pub fn new() -> (db: Db)
        ensures
            db@.users == Seq::<UserV>::empty(),
            db@.responses == Seq::<ResponseRow>::empty(),
            db.wf(),
    {
        let db = Db { users: Vec::new(), responses: Vec::new() };
        proof {
            assert(db@.users =~= Seq::<UserV>::empty());
        }
        db
    }

    /// How many participants the store holds.
    pub fn user_count(&self) -> (n: usize)
        ensures
            n == self@.users.len(),
    {
        self.users.len()
    }

    /// Look a participant up by id, creating a fresh record on first contact.
    /// Idempotent: a second call returns the same record and changes nothing.
    pub fn user(&mut self, id: UserId) -> (r: User)
        requires
            old(self).wf(),
        ensures
            final(self)@.users == get_or_create_users(old(self)@.users, id),
            final(self)@.responses == old(self)@.responses,
            find_user(final(self)@.users, id) == Some(r@),
            r@.id == id,
            final(self).wf(),
    {
        match user_index(&self.users, id) {
            Some(i) => clone_user(&self.users[i]),
            None => {
                proof {
                    lemma_find_user_none(views_of(self.users@), id);
                    lemma_find_user_push(views_of(self.users@), new_user_v(id), id);
                }
                let fresh = User { id, welcomed: false, bio: None, prompt_message: None };
                let record = User { id, welcomed: false, bio: None, prompt_message: None };
                self.users.push(fresh);
                proof {
                    assert(views_of(self.users@) =~= views_of(old(self).users@).push(
                        new_user_v(id),
                    ));
                }
                record
            },
        }
    }

    /// The ledger entry from `responder` about `subject`, if any.
    pub fn response(&self, responder: UserId, subject: UserId) -> (r: Option<ResponseRow>)
        ensures
            r == find_response(self@.responses, responder, subject),
    {
        lookup_response(&self.responses, responder, subject)
    }

    /// Record a prompt message against the participant directly, outside any
    /// prepared transaction. This is the same write `commit` performs last;
    /// it fails if the participant does not exist.
    pub fn set_prompt(&mut self, recipient: UserId, pm: PromptMessage) -> (r: Result<(), Error>)
        requires
            old(self).wf(),
        ensures
            r is Ok ==> final(self)@.users == set_prompt_users(old(self)@.users, recipient, pm)
                && find_user(old(self)@.users, recipient) is Some,
            r matches Err(e) ==> e == (Error::UserUnknown { id: recipient }) && find_user(
                old(self)@.users,
                recipient,
            ) is None && final(self)@.users == old(self)@.users,
            final(self)@.responses == old(self)@.responses,
            final(self).wf(),
    {
        let r = apply_set_prompt(&mut self.users, recipient, pm);
        proof {
            lemma_wf_update_user(
                views_of(old(self).users@),
                recipient,
                |u: UserV| UserV { prompt_message: Some(pm), ..u },
            );
        }
        r
    }
}

/// Whether a ledger entry witnesses an outstanding mutual match for `uid`:
/// `uid` accepted the subject, has not dismissed the match, and the subject
/// has a reciprocal accepted entry.
pub open spec fn is_match_entry(rs: Seq<ResponseRow>, uid: UserId, row: ResponseRow) -> bool {
    &&& row.responder == uid
    &&& row.accepted
    &&& !row.dismissed
    &&& find_response(rs, row.subject, uid) matches Some(r) && r.accepted
}

/// The subject of the first match-witnessing entry at or after index `i`.
pub open spec fn spec_get_match_from(rs: Seq<ResponseRow>, uid: UserId, i: int) -> Option<UserId>
    decreases rs.len() - i,
{
    if i < 0 || i >= rs.len() {
        None
    } else if is_match_entry(rs, uid, rs[i]) {
        Some(rs[i].subject)
    } else {
        spec_get_match_from(rs, uid, i + 1)
    }
}

/// The outstanding mutual match for `uid`, if any: the subject of the first
/// ledger entry, in insertion order, that witnesses one.
pub open spec fn spec_get_match(rs: Seq<ResponseRow>, uid: UserId) -> Option<UserId> {
    spec_get_match_from(rs, uid, 0)
}

/// Whether `u` is eligible as a fresh candidate for `uid`: profile complete,
/// not `uid` itself, not yet responded to by `uid`, and currently resting on
/// a `Quiescent` prompt (a participant amid a pending prompt of their own is
/// not offered around).
pub open spec fn eligible_candidate(db: DbV, uid: UserId, u: UserV) -> bool {
    &&& u.welcomed
    &&& u.bio is Some
    &&& u.id != uid
    &&& find_response(db.responses, uid, u.id) is None
    &&& u.prompt_message matches Some(pm) && pm.prompt is Quiescent
}

/// Whether `candidate` has an accepted entry about `uid` on file.
pub open spec fn has_accepted(rs: Seq<ResponseRow>, candidate: UserId, uid: UserId) -> bool {
    find_response(rs, candidate, uid) matches Some(r) && r.accepted
}

/// Whether `candidate` has a declined entry about `uid` on file.
pub open spec fn has_declined(rs: Seq<ResponseRow>, candidate: UserId, uid: UserId) -> bool {
    find_response(rs, candidate, uid) matches Some(r) && !r.accepted
}

/// The id of the first eligible candidate at or after index `i`, in insertion
/// order. With `require_accepted` the candidate must additionally have
/// already accepted `uid`; without it, the candidate must merely not have
/// declined `uid`.
pub open spec fn spec_candidate_from(
    db: DbV,
    uid: UserId,
    require_accepted: bool,
    i: int,
) -> Option<UserId>
    decreases db.users.len() - i,
{
    if i < 0 || i >= db.users.len() {
        None
    } else {
        let u = db.users[i];
        let hit = eligible_candidate(db, uid, u) && (if require_accepted {
            has_accepted(db.responses, u.id, uid)
        } else {
            !has_declined(db.responses, u.id, uid)
        });
        if hit {
            Some(u.id)
        } else {
            spec_candidate_from(db, uid, require_accepted, i + 1)
        }
    }
}

/// The new candidate offered to `uid`, if any. Candidates who have already
/// accepted `uid` come first (breaking ties toward faster matches); among
/// equals the earliest-created participant wins — ties are broken by
/// insertion order, never left open.
pub open spec fn spec_get_candidate(db: DbV, uid: UserId) -> Option<UserId> {
    match spec_candidate_from(db, uid, true, 0) {
        Some(c) => Some(c),
        None => spec_candidate_from(db, uid, false, 0),
    }
}

/// The prompt the participant is actually owed: the intrinsic `next` prompt,
/// unless it is `Quiescent` and an outstanding match or a fresh candidate
/// overrides it.
pub open spec fn spec_resolve(db: DbV, uid: UserId, next: Prompt) -> Prompt {
    if next is Quiescent {
        match spec_get_match(db.responses, uid) {
            Some(m) => Prompt::Match { id: m },
            None => match spec_get_candidate(db, uid) {
                Some(c) => Prompt::Candidate { id: c },
                None => Prompt::Quiescent,
            },
        }
    } else {
        next
    }
}

/// The store state after applying an action for `uid`. Ledger writes are
/// upserts — last write wins, dismissed reset — and fail on a participant
/// that does not exist; profile writes on an absent participant are no-ops,
/// as is dismissing a match that has no ledger entry.
pub open spec fn spec_apply_action(db: DbV, uid: UserId, action: Option<ActionV>) -> Result<
    DbV,
    Error,
> {
    match action {
        None => Ok(db),
        Some(ActionV::Welcome) => Ok(DbV { users: welcome_users(db.users, uid), ..db }),
        Some(ActionV::SetBio { text }) => Ok(
            DbV { users: set_bio_users(db.users, uid, text), ..db },
        ),
        Some(ActionV::AcceptCandidate { id }) => spec_respond(db, uid, id, true),
        Some(ActionV::DeclineCandidate { id }) => spec_respond(db, uid, id, false),
        Some(ActionV::DismissMatch { id }) => Ok(
            DbV { responses: dismiss_response(db.responses, uid, id), ..db },
        ),
    }
}

/// A ledger write: an upsert of `(uid, subject, accepted)`, refused when
/// either participant is unknown.
pub open spec fn spec_respond(db: DbV, uid: UserId, subject: UserId, accepted: bool) -> Result<
    DbV,
    Error,
> {
    if find_user(db.users, uid) is None {
        Err(Error::UserUnknown { id: uid })
    } else if find_user(db.users, subject) is None {
        Err(Error::UserUnknown { id: subject })
    } else {
        Ok(DbV { responses: upsert_response(db.responses, uid, subject, accepted), ..db })
    }
}

/// The interrupt owed to `candidate_id` after `user_id` accepted them: a
/// `Match` if the candidate had already accepted `user_id`, nothing if the
/// candidate has declined them, a proactive `Candidate` otherwise — and
/// nothing at all if the candidate's currently displayed prompt is already
/// equally or more urgent.
pub open spec fn spec_interrupt(db: DbV, user_id: UserId, candidate_id: UserId) -> Option<
    Prompt,
> {
    let resp = find_response(db.responses, candidate_id, user_id);
    if resp matches Some(r) && !r.accepted {
        None
    } else {
        let prompt = if resp is Some {
            Prompt::Match { id: user_id }
        } else {
            Prompt::Candidate { id: user_id }
        };
        let suppressed = find_user(db.users, candidate_id) matches Some(u)
            && u.prompt_message matches Some(pm) && prompt.urgency() <= pm.prompt.urgency();
        if suppressed {
            None
        } else {
            Some(prompt)
        }
    }
}

/// Find the outstanding mutual match in a staged state.
fn match_search(responses: &Vec<ResponseRow>, uid: UserId) -> (r: Option<UserId>)
    ensures
        r == spec_get_match(responses@, uid),
{
    let ghost rs = responses@;
    let n = responses.len();
    let mut i: usize = 0;
    while i < n
        invariant
            0 <= i <= n,
            n == rs.len(),
            rs == responses@,
            spec_get_match_from(rs, uid, 0) == spec_get_match_from(rs, uid, i as int),
        decreases n - i,
    {
        let row = responses[i];
        if row.responder == uid && row.accepted && !row.dismissed {
            match lookup_response(responses, row.subject, uid) {
                Some(reciprocal) => {
                    if reciprocal.accepted {
                        proof {
                            assert(is_match_entry(rs, uid, rs[i as int]));
                        }
                        return Some(row.subject);
                    }
                },
                None => {},
            }
        }
        proof {
            assert(!is_match_entry(rs, uid, rs[i as int]));
        }
        i = i + 1;
    }
    None
}

/// Find the first eligible candidate of one pass in a staged state.
fn candidate_pass(
    users: &Vec<User>,
    responses: &Vec<ResponseRow>,
    uid: UserId,
    require_accepted: bool,
) -> (r: Option<UserId>)
    ensures
        r == spec_candidate_from(
            DbV { users: views_of(users@), responses: responses@ },
            uid,
            require_accepted,
            0,
        ),
{
    let ghost db = DbV { users: views_of(users@), responses: responses@ };
    let n = users.len();
    let mut i: usize = 0;
    while i < n
        invariant
            0 <= i <= n,
            n == users@.len(),
            db == (DbV { users: views_of(users@), responses: responses@ }),
            db.users.len() == n,
            spec_candidate_from(db, uid, require_accepted, 0) == spec_candidate_from(
                db,
                uid,
                require_accepted,
                i as int,
            ),
        decreases n - i,
    {
        proof {
            assert(db.users[i as int] == users@[i as int]@);
        }
        let u = &users[i];
        let resting = match u.prompt_message {
            Some(pm) => pm.prompt.quiescent(),
            None => false,
        };
        let eligible = u.welcomed && u.bio.is_some() && u.id != uid && resting
            && lookup_response(responses, uid, u.id).is_none();
        let hit = eligible && {
            let resp = lookup_response(responses, u.id, uid);
            if require_accepted {
                match resp {
                    Some(row) => row.accepted,
                    None => false,
                }
            } else {
                match resp {
                    Some(row) => row.accepted,
                    None => true,
                }
            }
        };
        if hit {
            return Some(u.id);
        }
        i = i + 1;
    }
    None
}

/// Find the new candidate for `uid` in a staged state: candidates who have
/// already accepted `uid` first, then anyone who has not declined them.
fn candidate_search(users: &Vec<User>, responses: &Vec<ResponseRow>, uid: UserId) -> (r: Option<
    UserId,
>)
    ensures
        r == spec_get_candidate(DbV { users: views_of(users@), responses: responses@ }, uid),
{
    match candidate_pass(users, responses, uid, true) {
        Some(c) => Some(c),
        None => candidate_pass(users, responses, uid, false),
    }
}

/// Mathematical image of a prepared transaction.
pub ghost struct UpdateTxV {
    pub users: Seq<UserV>,
    pub responses: Seq<ResponseRow>,
    pub user_id: UserId,
    pub prompt: Prompt,
}

/// A prepared state transition: the staged store state with the action
/// already applied, the participant it is for, and the resolved prompt. The
/// underlying store stays untouched until [`UpdateTx::commit`]; dropping the
/// transaction abandons it. The transport must render the prompt, obtain a
/// durable message identity, and only then commit.
#[derive(Debug)]
pub struct UpdateTx {
    users: Vec<User>,
    responses: Vec<ResponseRow>,
    user_id: UserId,
    prompt: Prompt,
}

impl View for UpdateTx {
    type V = UpdateTxV;

    closed spec fn view(&self) -> UpdateTxV {
        UpdateTxV {
            users: views_of(self.users@),
            responses: self.responses@,
            user_id: self.user_id,
            prompt: self.prompt,
        }
    }
}

impl UpdateTx {
    /// The staged state is well-formed.
    pub open spec fn wf(&self) -> bool {
        wf_users(self@.users) && wf_ledger(self@.responses)
    }

    /// The resolved prompt: a read-only peek, safe before commit.
    pub fn prompt(&self) -> (r: Prompt)
        ensures
            r == self@.prompt,
    {
        self.prompt
    }

    /// The participant the resolved prompt is for.
    pub fn user_id(&self) -> (r: UserId)
        ensures
            r == self@.user_id,
    {
        self.user_id
    }

    /// Render the text of the resolved prompt against the staged state, while
    /// the transaction is still open.
    pub fn prompt_text(&self) -> (r: Result<String, Error>)
        ensures
            r matches Ok(s) ==> spec_prompt_text(self@.users, self@.prompt) == Ok::<
                Seq<char>,
                Error,
            >(s@),
            r matches Err(e) ==> spec_prompt_text(self@.users, self@.prompt) == Err::<
                Seq<char>,
                Error,
            >(e),
    {
        render_prompt_text(&self.users, self.prompt)
    }

    /// Commit the transition: install the staged state and record the
    /// resolved prompt together with the rendered message's identity against
    /// the participant, atomically. Fails — leaving the store untouched —
    /// only if the participant does not exist in the staged state.
    pub fn commit(self, db: &mut Db, message_id: MessageId) -> (r: Result<(), Error>)
        requires
            self.wf(),
        ensures
            r is Ok ==> find_user(self@.users, self@.user_id) is Some && final(db)@.users
                == set_prompt_users(
                self@.users,
                self@.user_id,
                PromptMessage { prompt: self@.prompt, message_id },
            ) && final(db)@.responses == self@.responses && final(db).wf(),
            r matches Err(e) ==> e == (Error::UserUnknown { id: self@.user_id }) && find_user(
                self@.users,
                self@.user_id,
            ) is None && final(db)@ == old(db)@,
    {
        let ghost staged_users = self@.users;
        let UpdateTx { mut users, responses, user_id, prompt } = self;
        let pm = PromptMessage { prompt, message_id };
        match apply_set_prompt(&mut users, user_id, pm) {
            Ok(()) => {
                proof {
                    lemma_wf_update_user(
                        staged_users,
                        user_id,
                        |u: UserV| UserV { prompt_message: Some(pm), ..u },
                    );
                }
                db.users = users;
                db.responses = responses;
                Ok(())
            },
            Err(e) => Err(e),
        }
    }
}

impl Db {
    /// The outstanding mutual match for the participant, if any. A returned
    /// match is always witnessed by a non-dismissed acceptance of the subject
    /// and the subject's reciprocal acceptance.
    pub fn get_match(&self, uid: UserId) -> (r: Option<UserId>)
        ensures
            r == spec_get_match(self@.responses, uid),
            r matches Some(m) ==> exists|j: int|
                #![auto]
                0 <= j < self@.responses.len() && is_match_entry(
                    self@.responses,
                    uid,
                    self@.responses[j],
                ) && self@.responses[j].subject == m,
    {
        proof {
            lemma_match_resolution_sound(self@.responses, uid, 0);
        }
        match_search(&self.responses, uid)
    }

    /// The new candidate the participant would be offered, if any. Never the
    /// participant themself, and never a subject they have already responded
    /// to.
    pub fn get_candidate(&self, uid: UserId) -> (r: Option<UserId>)
        ensures
            r == spec_get_candidate(self@, uid),
            r matches Some(c) ==> c != uid && find_response(self@.responses, uid, c) is None,
    {
        proof {
            lemma_no_self_no_repeat_candidate(self@, uid);
        }
        candidate_search(&self.users, &self.responses, uid)
    }

    /// Prepare a state transition for the participant: apply the update's
    /// action, if any, to a staged copy of the store, then resolve the next
    /// prompt — the update's intrinsic prompt, unless that is `Quiescent` and
    /// an outstanding match or a fresh candidate overrides it. The store
    /// itself is not touched; the returned transaction commits or is
    /// abandoned. Fails exactly when the action is a ledger write naming an
    /// unknown participant.
    pub fn prepare(&self, user_id: UserId, update: &Update) -> (r: Result<UpdateTx, Error>)
        requires
            self.wf(),
        ensures
            r matches Ok(tx) ==> spec_apply_action(self@, user_id, update@.action) matches Ok(
                db2,
            ) && tx@.users == db2.users && tx@.responses == db2.responses && tx@.user_id
                == user_id && tx@.prompt == spec_resolve(db2, user_id, update@.next_prompt)
                && tx.wf(),
            r matches Err(e) ==> spec_apply_action(self@, user_id, update@.action) matches Err(
                e2,
            ) && e == e2,
    {
        let mut users = clone_users(&self.users);
        let mut responses = clone_rows(&self.responses);

        match &update.action {
            None => {},
            Some(Action::Welcome) => {
                apply_welcome(&mut users, user_id);
                proof {
                    lemma_wf_update_user(
                        self@.users,
                        user_id,
                        |u: UserV| UserV { welcomed: true, ..u },
                    );
                }
            },
            Some(Action::SetBio { text }) => {
                apply_set_bio(&mut users, user_id, text);
                proof {
                    lemma_wf_update_user(
                        self@.users,
                        user_id,
                        |u: UserV| UserV { bio: Some(text@), ..u },
                    );
                }
            },
            Some(Action::AcceptCandidate { id }) => {
                match self.respond_to_candidate(&mut responses, user_id, *id, true) {
                    Ok(()) => {},
                    Err(e) => {
                        return Err(e);
                    },
                }
            },
            Some(Action::DeclineCandidate { id }) => {
                match self.respond_to_candidate(&mut responses, user_id, *id, false) {
                    Ok(()) => {},
                    Err(e) => {
                        return Err(e);
                    },
                }
            },
            Some(Action::DismissMatch { id }) => {
                apply_dismiss(&mut responses, user_id, *id);
                proof {
                    crate::ledger::lemma_dismiss_wf(self@.responses, user_id, *id);
                }
            },
        }

        let ghost db2 = DbV { users: views_of(users@), responses: responses@ };
        proof {
            assert(spec_apply_action(self@, user_id, update@.action) == Ok::<DbV, Error>(db2));
        }

        let mut next_prompt = update.next_prompt;
        if next_prompt.quiescent() {
            match match_search(&responses, user_id) {
                Some(m) => {
                    next_prompt = Prompt::Match { id: m };
                },
                None => {
                    match candidate_search(&users, &responses, user_id) {
                        Some(c) => {
                            next_prompt = Prompt::Candidate { id: c };
                        },
                        None => {},
                    }
                },
            }
        }

        Ok(UpdateTx { users, responses, user_id, prompt: next_prompt })
    }

    /// Record a response in a staged ledger, checking that both participants
    /// exist, as the store's referential constraint demands.
    fn respond_to_candidate(
        &self,
        responses: &mut Vec<ResponseRow>,
        user_id: UserId,
        subject: UserId,
        accepted: bool,
    ) -> (r: Result<(), Error>)
        requires
            self.wf(),
            old(responses)@ == self@.responses,
        ensures
            r is Ok ==> spec_respond(self@, user_id, subject, accepted) == Ok::<DbV, Error>(
                DbV { users: self@.users, responses: final(responses)@ },
            ) && wf_ledger(final(responses)@),
            r matches Err(e) ==> spec_respond(self@, user_id, subject, accepted) matches Err(e2)
                && e == e2 && final(responses)@ == old(responses)@,
    {
        if user_index(&self.users, user_id).is_none() {
            return Err(Error::UserUnknown { id: user_id });
        }
        if user_index(&self.users, subject).is_none() {
            return Err(Error::UserUnknown { id: subject });
        }
        apply_upsert(responses, user_id, subject, accepted);
        proof {
            crate::ledger::lemma_upsert_wf(self@.responses, user_id, subject, accepted);
        }
        Ok(())
    }

    /// Render the text for a prompt against the committed store state.
    pub fn prompt_text(&self, prompt: Prompt) -> (r: Result<String, Error>)
        ensures
            r matches Ok(s) ==> spec_prompt_text(self@.users, prompt) == Ok::<
                Seq<char>,
                Error,
            >(s@),
            r matches Err(e) ==> spec_prompt_text(self@.users, prompt) == Err::<
                Seq<char>,
                Error,
            >(e),
    {
        render_prompt_text(&self.users, prompt)
    }

    /// Render the text for a prompt outside any prepared transaction. The
    /// prompt must not hit a referential invariant violation.
    pub fn prompt_text_outside_update_transaction(&self, prompt: Prompt) -> (r: String)
        requires
            spec_prompt_text(self@.users, prompt) is Ok,
        ensures
            spec_prompt_text(self@.users, prompt) == Ok::<Seq<char>, Error>(r@),
    {
        match self.prompt_text(prompt) {
            Ok(s) => s,
            Err(_) => unreached(),
        }
    }

    /// The whole inbound step: look the participant up (creating them on
    /// first contact), interpret the response against their current prompt,
    /// and prepare the resulting state transition. The participant record is
    /// durable immediately; everything else waits for the transaction's
    /// commit.
    pub fn submit_response(&mut self, participant: UserId, response: &Response) -> (r: Result<
        UpdateTx,
        Error,
    >)
        requires
            old(self).wf(),
        ensures
            final(self)@.users == get_or_create_users(old(self)@.users, participant),
            final(self)@.responses == old(self)@.responses,
            final(self).wf(),
            ({
                let db2 = DbV {
                    users: get_or_create_users(old(self)@.users, participant),
                    responses: old(self)@.responses,
                };
                find_user(db2.users, participant) matches Some(uv) && {
                    let up = spec_update(uv, response@);
                    match r {
                        Ok(tx) => spec_apply_action(db2, participant, up.action) matches Ok(
                            db3,
                        ) && tx@.users == db3.users && tx@.responses == db3.responses
                            && tx@.user_id == participant && tx@.prompt == spec_resolve(
                            db3,
                            participant,
                            up.next_prompt,
                        ) && tx.wf(),
                        Err(e) => spec_apply_action(db2, participant, up.action) matches Err(e2)
                            && e == e2,
                    }
                }
            }),
    {
        let user = self.user(participant);
        let update = user.update(response);
        self.prepare(participant, &update)
    }

    /// After `user_id`'s acceptance of `candidate_id` has been committed,
    /// prepare the out-of-band transition owed to the candidate: a `Match`
    /// prompt if the acceptance is mutual, nothing if the candidate has
    /// declined `user_id`, a proactive `Candidate` prompt otherwise — and
    /// nothing if the candidate's currently displayed prompt is already
    /// equally or more urgent, so that no prompt is ever downgraded.
    pub fn prepare_interrupt_for_accept(&self, user_id: UserId, candidate_id: UserId) -> (r:
        Option<UpdateTx>)
        requires
            self.wf(),
        ensures
            (r is Some) == (spec_interrupt(self@, user_id, candidate_id) is Some),
            r matches Some(tx) ==> tx@.users == self@.users && tx@.responses == self@.responses
                && tx@.user_id == candidate_id && Some(tx@.prompt) == spec_interrupt(
                self@,
                user_id,
                candidate_id,
            ) && tx.wf(),
    {
        let prompt = match lookup_response(&self.responses, candidate_id, user_id) {
            Some(row) => {
                if row.accepted {
                    Prompt::Match { id: user_id }
                } else {
                    return None;
                }
            },
            None => Prompt::Candidate { id: user_id },
        };

        match user_index(&self.users, candidate_id) {
            Some(i) => {
                match self.users[i].prompt_message {
                    Some(pm) => {
                        if prompt.cannot_interrupt(pm.prompt.discriminant()) {
                            return None;
                        }
                    },
                    None => {},
                }
            },
            None => {},
        }

        Some(
            UpdateTx {
                users: clone_users(&self.users),
                responses: clone_rows(&self.responses),
                user_id: candidate_id,
                prompt,
            },
        )
    }
}

/// Every candidate the resolution produces is witnessed by an eligible
/// participant row — one that has accepted the participant already, when the
/// pass demands it.
pub proof fn lemma_candidate_from_props(db: DbV, uid: UserId, require_accepted: bool, i: int)
    ensures
        spec_candidate_from(db, uid, require_accepted, i) matches Some(c) ==> (exists|j: int|
            i <= j < db.users.len() && #[trigger] db.users[j].id == c && eligible_candidate(
                db,
                uid,
                db.users[j],
            )) && (require_accepted ==> has_accepted(db.responses, c, uid)),
    decreases db.users.len() - i,
{
    if 0 <= i < db.users.len() {
        let u = db.users[i];
        let hit = eligible_candidate(db, uid, u) && (if require_accepted {
            has_accepted(db.responses, u.id, uid)
        } else {
            !has_declined(db.responses, u.id, uid)
        });
        if hit {
            assert(db.users[i].id == u.id && eligible_candidate(db, uid, db.users[i]));
        } else {
            lemma_candidate_from_props(db, uid, require_accepted, i + 1);
        }
    }
}

/// A pass that comes back empty has no hit anywhere in its range.
proof fn lemma_candidate_from_none(db: DbV, uid: UserId, require_accepted: bool, i: int)
    requires
        0 <= i,
        spec_candidate_from(db, uid, require_accepted, i) is None,
    ensures
        forall|j: int|
            i <= j < db.users.len() ==> !(eligible_candidate(db, uid, #[trigger] db.users[j]) && (
            if require_accepted {
                has_accepted(db.responses, db.users[j].id, uid)
            } else {
                !has_declined(db.responses, db.users[j].id, uid)
            })),
    decreases db.users.len() - i,
{
    if 0 <= i < db.users.len() {
        let u = db.users[i];
        let hit = eligible_candidate(db, uid, u) && (if require_accepted {
            has_accepted(db.responses, u.id, uid)
        } else {
            !has_declined(db.responses, u.id, uid)
        });
        assert(!hit);
        assert(spec_candidate_from(db, uid, require_accepted, i + 1) is None);
        lemma_candidate_from_none(db, uid, require_accepted, i + 1);
        assert forall|j: int|
            i <= j < db.users.len() implies !(eligible_candidate(
            db,
            uid,
            #[trigger] db.users[j],
        ) && (if require_accepted {
            has_accepted(db.responses, db.users[j].id, uid)
        } else {
            !has_declined(db.responses, db.users[j].id, uid)
        })) by {
            if j == i {
                assert(!hit);
            }
        }
    }
}

/// Candidates who have already accepted the participant are preferred: as
/// long as any eligible candidate has an acceptance on file, the resolution
/// returns such a candidate, never one who has yet to respond.
pub proof fn lemma_accepting_candidates_preferred(db: DbV, uid: UserId)
    requires
        exists|j: int|
            0 <= j < db.users.len() && eligible_candidate(db, uid, #[trigger] db.users[j])
                && has_accepted(db.responses, db.users[j].id, uid),
    ensures
        spec_get_candidate(db, uid) matches Some(c) && has_accepted(db.responses, c, uid),
{
    if spec_candidate_from(db, uid, true, 0) is None {
        lemma_candidate_from_none(db, uid, true, 0);
    } else {
        lemma_candidate_from_props(db, uid, true, 0);
    }
}

/// No self-candidate, no repeat-candidate: the resolution engine never offers
/// the acting participant to themself, and never a subject the participant
/// has already responded to.
pub proof fn lemma_no_self_no_repeat_candidate(db: DbV, uid: UserId)
    ensures
        spec_get_candidate(db, uid) matches Some(c) ==> c != uid && find_response(
            db.responses,
            uid,
            c,
        ) is None,
{
    lemma_candidate_from_props(db, uid, true, 0);
    lemma_candidate_from_props(db, uid, false, 0);
}

/// Profile gating is idempotent through the whole engine: while a
/// participant's profile is incomplete and the gating prompt owed is on
/// display, a response that carries no recognized action resolves — in any
/// store state — to that same gating prompt again; the match/candidate
/// override never applies, because a gating prompt is never `Quiescent`.
pub proof fn lemma_gating_never_overridden(db: DbV, u: UserV, response: ResponseV)
    requires
        u.profile_incomplete(),
        u.prompt_message matches Some(pm) && pm.prompt == u.gating_prompt(),
        spec_update(u, response).action is None,
    ensures
        spec_resolve(db, u.id, spec_update(u, response).next_prompt) == u.gating_prompt(),
{
    crate::user::lemma_profile_gating_idempotent(u, response);
}

/// Priority suppression: when the interrupt owed to a participant would be a
/// fresh `Candidate` prompt but that participant currently displays a
/// `Match` prompt — which is more urgent — the interrupt is suppressed.
pub proof fn lemma_priority_suppression(db: DbV, user_id: UserId, candidate_id: UserId)
    requires
        find_response(db.responses, candidate_id, user_id) is None,
        find_user(db.users, candidate_id) matches Some(u) && u.prompt_message matches Some(pm)
            && pm.prompt is Match,
    ensures
        spec_interrupt(db, user_id, candidate_id) is None,
{
}

/// Every match the resolution returns is witnessed by a ledger entry: the
/// participant accepted the subject, has not dismissed it, and the subject
/// reciprocated.
pub proof fn lemma_match_resolution_sound(rs: Seq<ResponseRow>, uid: UserId, i: int)
    ensures
        spec_get_match_from(rs, uid, i) matches Some(m) ==> exists|j: int|
            #![auto]
            i <= j < rs.len() && is_match_entry(rs, uid, rs[j]) && rs[j].subject == m,
    decreases rs.len() - i,
{
    if 0 <= i < rs.len() {
        if is_match_entry(rs, uid, rs[i]) {
            assert(is_match_entry(rs, uid, rs[i]) && rs[i].subject == rs[i].subject);
        } else {
            lemma_match_resolution_sound(rs, uid, i + 1);
        }
    }
}

/// The match resolution returns the subject of the first match-witnessing
/// entry.
pub proof fn lemma_get_match_first(rs: Seq<ResponseRow>, uid: UserId, i: int, k: int)
    requires
        0 <= i <= k < rs.len(),
        is_match_entry(rs, uid, rs[k]),
        forall|j: int| i <= j < k ==> !is_match_entry(rs, uid, rs[j]),
    ensures
        spec_get_match_from(rs, uid, i) == Some(rs[k].subject),
    decreases k - i,
{
    if i < k {
        lemma_get_match_first(rs, uid, i + 1, k);
    }
}

/// Mutual match symmetry: when two participants who have no responses on file
/// accept each other — in either order — both are resolved to a `Match`
/// prompt referencing the other.
pub proof fn lemma_mutual_match_symmetry(db: DbV, a: UserId, b: UserId)
    requires
        a != b,
        find_user(db.users, a) is Some,
        find_user(db.users, b) is Some,
        forall|s: UserId| find_response(db.responses, a, s) is None,
        forall|s: UserId| find_response(db.responses, b, s) is None,
    ensures
        spec_apply_action(db, a, Some(ActionV::AcceptCandidate { id: b })) matches Ok(db1) && {
            &&& spec_apply_action(db1, b, Some(ActionV::AcceptCandidate { id: a })) matches Ok(
                db2,
            ) && {
                &&& spec_resolve(db2, a, Prompt::Quiescent) == (Prompt::Match { id: b })
                &&& spec_resolve(db2, b, Prompt::Quiescent) == (Prompt::Match { id: a })
            }
        },
        spec_apply_action(db, b, Some(ActionV::AcceptCandidate { id: a })) matches Ok(db1) && {
            &&& spec_apply_action(db1, a, Some(ActionV::AcceptCandidate { id: b })) matches Ok(
                db2,
            ) && {
                &&& spec_resolve(db2, a, Prompt::Quiescent) == (Prompt::Match { id: b })
                &&& spec_resolve(db2, b, Prompt::Quiescent) == (Prompt::Match { id: a })
            }
        },
{
    lemma_mutual_match_one_order(db, a, b);
    lemma_mutual_match_one_order(db, b, a);
}

/// One order of the two acceptances; the symmetry lemma applies it twice.
proof fn lemma_mutual_match_one_order(db: DbV, a: UserId, b: UserId)
    requires
        a != b,
        find_user(db.users, a) is Some,
        find_user(db.users, b) is Some,
        forall|s: UserId| find_response(db.responses, a, s) is None,
        forall|s: UserId| find_response(db.responses, b, s) is None,
    ensures
        spec_apply_action(db, a, Some(ActionV::AcceptCandidate { id: b })) matches Ok(db1) && {
            &&& spec_apply_action(db1, b, Some(ActionV::AcceptCandidate { id: a })) matches Ok(
                db2,
            ) && {
                &&& spec_resolve(db2, a, Prompt::Quiescent) == (Prompt::Match { id: b })
                &&& spec_resolve(db2, b, Prompt::Quiescent) == (Prompt::Match { id: a })
            }
        },
{
    let rs = db.responses;
    let n = rs.len() as int;
    let row_ab = ResponseRow { responder: a, subject: b, accepted: true, dismissed: false };
    let row_ba = ResponseRow { responder: b, subject: a, accepted: true, dismissed: false };

    assert forall|i: int| 0 <= i < n implies rs[i].responder != a && rs[i].responder != b by {
        lemma_find_none(rs, a, rs[i].subject);
        lemma_find_none(rs, b, rs[i].subject);
    }

    lemma_upsert_append(rs, a, b, true);
    let l1 = rs.push(row_ab);
    assert(upsert_response(rs, a, b, true) =~= l1);
    lemma_find_push(rs, row_ab, b, a);
    assert(find_response(l1, b, a) is None);
    lemma_upsert_append(l1, b, a, true);
    let l2 = l1.push(row_ba);
    assert(upsert_response(l1, b, a, true) =~= l2);

    // Lookups in the final ledger.
    lemma_find_push(rs, row_ab, a, b);
    lemma_find_push(l1, row_ba, a, b);
    assert(find_response(l2, a, b) == Some(row_ab));
    lemma_find_push(l1, row_ba, b, a);
    assert(find_response(l2, b, a) == Some(row_ba));

    // The first match-witnessing entry for `a` is the acceptance of `b`.
    assert(l2[n] == row_ab && l2[n + 1] == row_ba);
    assert(is_match_entry(l2, a, l2[n]));
    assert forall|j: int| 0 <= j < n implies !is_match_entry(l2, a, l2[j]) by {
        assert(l2[j] == rs[j]);
    }
    lemma_get_match_first(l2, a, 0, n);
    assert(spec_get_match(l2, a) == Some(b));

    // The first match-witnessing entry for `b` is the acceptance of `a`.
    assert(is_match_entry(l2, b, l2[n + 1]));
    assert forall|j: int| 0 <= j < n + 1 implies !is_match_entry(l2, b, l2[j]) by {
        if j < n {
            assert(l2[j] == rs[j]);
        }
    }
    lemma_get_match_first(l2, b, 0, n + 1);
    assert(spec_get_match(l2, b) == Some(a));
}

/// Dismissing a match is one-sided and never takes the acceptance back: the
/// dismisser's own entry keeps its acceptance and only gains the dismissed
/// flag, every other entry — including the subject's reciprocal one, and with
/// it the subject's own match resolution — is untouched, and no profile
/// changes.
pub proof fn lemma_dismiss_match_one_sided(db: DbV, a: UserId, b: UserId)
    ensures
        spec_apply_action(db, a, Some(ActionV::DismissMatch { id: b })) matches Ok(db2) && {
            &&& db2.users == db.users
            &&& (find_response(db.responses, a, b) matches Some(row) ==> find_response(
                db2.responses,
                a,
                b,
            ) == Some(ResponseRow { dismissed: true, ..row }))
            &&& forall|r2: UserId, s2: UserId|
                !(r2 == a && s2 == b) ==> find_response(db2.responses, r2, s2) == find_response(
                    db.responses,
                    r2,
                    s2,
                )
        },
{
    let db2 = DbV { responses: dismiss_response(db.responses, a, b), ..db };
    crate::ledger::lemma_dismiss_find(db.responses, a, b, a, b);
    assert forall|r2: UserId, s2: UserId|
        !(r2 == a && s2 == b) implies find_response(db2.responses, r2, s2) == find_response(
        db.responses,
        r2,
        s2,
    ) by {
        crate::ledger::lemma_dismiss_find(db.responses, a, b, r2, s2);
    }
}

/// Updating one participant in place preserves id uniqueness, as long as the
/// update keeps the id.
pub proof fn lemma_wf_update_user(users: Seq<UserV>, id: UserId, f: spec_fn(UserV) -> UserV)
    requires
        wf_users(users),
        forall|u: UserV| (#[trigger] f(u)).id == u.id,
    ensures
        wf_users(update_user(users, id, f)),
{
    if find_user(users, id) is None {
        lemma_update_user_absent(users, id, f);
    } else {
        lemma_update_user_ids(users, id, f);
        let out = update_user(users, id, f);
        assert forall|i: int, j: int| 0 <= i < j < out.len() implies out[i].id != out[j].id by {
            assert(out[i].id == users[i].id);
            assert(out[j].id == users[j].id);
        }
    }
}

/// An in-place update never changes the table's length or its ids, as long as
/// the update keeps the id.
pub proof fn lemma_update_user_ids(users: Seq<UserV>, id: UserId, f: spec_fn(UserV) -> UserV)
    requires
        forall|u: UserV| (#[trigger] f(u)).id == u.id,
    ensures
        update_user(users, id, f).len() == users.len(),
        forall|i: int|
            0 <= i < users.len() ==> (#[trigger] update_user(users, id, f)[i]).id == users[i].id,
    decreases users.len(),
{
    let out = update_user(users, id, f);
    if users.len() == 0 {
    } else if users[0].id == id {
        assert(out =~= seq![f(users[0])] + users.drop_first());
    } else {
        lemma_update_user_ids(users.drop_first(), id, f);
        assert(out =~= seq![users[0]] + update_user(users.drop_first(), id, f));
        assert forall|i: int| 0 <= i < users.len() implies out[i].id == users[i].id by {
            if i > 0 {
                assert(out[i] == update_user(users.drop_first(), id, f)[i - 1]);
                assert(users.drop_first()[i - 1] == users[i]);
            }
        }
    }
}

} // verus!
