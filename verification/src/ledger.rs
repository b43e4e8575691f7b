//! The pairwise response ledger: at most one entry per ordered
//! (responder, subject) pair, holding whether the responder accepted the
//! subject and whether a resulting match was dismissed. Re-responding
//! overwrites in place — last write wins — and resets the dismissed flag.

use vstd::prelude::*;

use crate::ids::UserId;

verus! {

/// One ledger entry.
#[derive(Debug, Clone, Copy, PartialEq, Eq, Structural)]
pub struct ResponseRow {
    pub responder: UserId,
    pub subject: UserId,
    pub accepted: bool,
    pub dismissed: bool,
}

/// The first (and, in a well-formed ledger, only) entry for the ordered pair.
pub open spec fn find_response(rs: Seq<ResponseRow>, responder: UserId, subject: UserId) -> Option<
    ResponseRow,
>
    decreases rs.len(),
{
    if rs.len() == 0 {
        None
    } else if rs[0].responder == responder && rs[0].subject == subject {
        Some(rs[0])
    } else {
        find_response(rs.drop_first(), responder, subject)
    }
}

/// How many entries the ledger holds for the ordered pair.
pub open spec fn count_responses(rs: Seq<ResponseRow>, responder: UserId, subject: UserId) -> int
    decreases rs.len(),
{
    if rs.len() == 0 {
        0int
    } else {
        (if rs[0].responder == responder && rs[0].subject == subject {
            1int
        } else {
            0int
        }) + count_responses(rs.drop_first(), responder, subject)
    }
}

/// At most one entry per ordered pair.
pub open spec fn wf_ledger(rs: Seq<ResponseRow>) -> bool {
    forall|responder: UserId, subject: UserId|
        count_responses(rs, responder, subject) <= 1
}

/// The ledger after an upsert: the existing entry for the pair is overwritten
/// in place, or a fresh entry is appended; either way the entry ends up as
/// `(responder, subject, accepted)` with `dismissed` reset to false.
pub open spec fn upsert_response(
    rs: Seq<ResponseRow>,
    responder: UserId,
    subject: UserId,
    accepted: bool,
) -> Seq<ResponseRow>
    decreases rs.len(),
{
    let row = ResponseRow { responder, subject, accepted, dismissed: false };
    if rs.len() == 0 {
        seq![row]
    } else if rs[0].responder == responder && rs[0].subject == subject {
        seq![row] + rs.drop_first()
    } else {
        seq![rs[0]] + upsert_response(rs.drop_first(), responder, subject, accepted)
    }
}

/// The ledger after marking the entry for the pair dismissed, if there is one.
pub open spec fn dismiss_response(
    rs: Seq<ResponseRow>,
    responder: UserId,
    subject: UserId,
) -> Seq<ResponseRow>
    decreases rs.len(),
{
    if rs.len() == 0 {
        rs
    } else if rs[0].responder == responder && rs[0].subject == subject {
        seq![ResponseRow { dismissed: true, ..rs[0] }] + rs.drop_first()
    } else {
        seq![rs[0]] + dismiss_response(rs.drop_first(), responder, subject)
    }
}

/// A pair that is absent is absent from every entry.
pub proof fn lemma_find_none(rs: Seq<ResponseRow>, responder: UserId, subject: UserId)
    requires
        find_response(rs, responder, subject) is None,
    ensures
        forall|i: int|
            0 <= i < rs.len() ==> !(rs[i].responder == responder && rs[i].subject == subject),
    decreases rs.len(),
{
    if rs.len() > 0 {
        lemma_find_none(rs.drop_first(), responder, subject);
        assert forall|i: int|
            0 <= i < rs.len() implies !(rs[i].responder == responder && rs[i].subject
            == subject) by {
            if i > 0 {
                assert(rs.drop_first()[i - 1] == rs[i]);
            }
        }
    }
}

/// An absent pair has count zero; a present pair has positive count.
pub proof fn lemma_find_count(rs: Seq<ResponseRow>, responder: UserId, subject: UserId)
    ensures
        find_response(rs, responder, subject) is None <==> count_responses(
            rs,
            responder,
            subject,
        ) == 0,
        count_responses(rs, responder, subject) >= 0,
    decreases rs.len(),
{
    if rs.len() > 0 {
        lemma_find_count(rs.drop_first(), responder, subject);
    }
}

/// After an upsert, looking the pair up finds exactly the written entry.
pub proof fn lemma_upsert_find_same(
    rs: Seq<ResponseRow>,
    responder: UserId,
    subject: UserId,
    accepted: bool,
)
    ensures
        find_response(upsert_response(rs, responder, subject, accepted), responder, subject)
            == Some(ResponseRow { responder, subject, accepted, dismissed: false }),
    decreases rs.len(),
{
    let out = upsert_response(rs, responder, subject, accepted);
    if rs.len() == 0 {
    } else if rs[0].responder == responder && rs[0].subject == subject {
    } else {
        lemma_upsert_find_same(rs.drop_first(), responder, subject, accepted);
        assert(out.drop_first() =~= upsert_response(
            rs.drop_first(),
            responder,
            subject,
            accepted,
        ));
    }
}

/// An upsert leaves every other pair untouched.
pub proof fn lemma_upsert_find_other(
    rs: Seq<ResponseRow>,
    responder: UserId,
    subject: UserId,
    accepted: bool,
    r2: UserId,
    s2: UserId,
)
    requires
        !(r2 == responder && s2 == subject),
    ensures
        find_response(upsert_response(rs, responder, subject, accepted), r2, s2)
            == find_response(rs, r2, s2),
    decreases rs.len(),
{
    let out = upsert_response(rs, responder, subject, accepted);
    let row = ResponseRow { responder, subject, accepted, dismissed: false };
    if rs.len() == 0 {
    } else if rs[0].responder == responder && rs[0].subject == subject {
        assert(out[0] == row);
        assert(out.drop_first() =~= rs.drop_first());
    } else {
        assert(out[0] == rs[0]);
        lemma_upsert_find_other(rs.drop_first(), responder, subject, accepted, r2, s2);
        assert(out.drop_first() =~= upsert_response(
            rs.drop_first(),
            responder,
            subject,
            accepted,
        ));
        assert(find_response(out.drop_first(), r2, s2) == find_response(rs.drop_first(), r2, s2));
        assert(out.len() > 0);
        if out[0].responder == r2 && out[0].subject == s2 {
            assert(find_response(out, r2, s2) == Some(out[0]));
            assert(find_response(rs, r2, s2) == Some(rs[0]));
        } else {
            assert(find_response(out, r2, s2) == find_response(out.drop_first(), r2, s2));
            assert(find_response(rs, r2, s2) == find_response(rs.drop_first(), r2, s2));
        }
    }
}

/// An upsert brings the pair's entry count to exactly one (from at most one)
/// and leaves every other pair's count unchanged.
pub proof fn lemma_upsert_count(
    rs: Seq<ResponseRow>,
    responder: UserId,
    subject: UserId,
    accepted: bool,
    r2: UserId,
    s2: UserId,
)
    ensures
        count_responses(upsert_response(rs, responder, subject, accepted), r2, s2) == (if r2
            == responder && s2 == subject {
            if count_responses(rs, r2, s2) == 0 {
                1int
            } else {
                count_responses(rs, r2, s2)
            }
        } else {
            count_responses(rs, r2, s2)
        }),
    decreases rs.len(),
{
    let out = upsert_response(rs, responder, subject, accepted);
    let row = ResponseRow { responder, subject, accepted, dismissed: false };
    if rs.len() == 0 {
        assert(out =~= seq![row]);
        assert(out.drop_first() =~= Seq::<ResponseRow>::empty());
        assert(count_responses(out.drop_first(), r2, s2) == 0);
        assert(count_responses(out, r2, s2) == (if out[0].responder == r2 && out[0].subject
            == s2 {
            1int
        } else {
            0int
        }) + count_responses(out.drop_first(), r2, s2));
    } else if rs[0].responder == responder && rs[0].subject == subject {
        assert(out[0] == row);
        assert(out.drop_first() =~= rs.drop_first());
        lemma_find_count(rs.drop_first(), r2, s2);
        assert(count_responses(out, r2, s2) == (if out[0].responder == r2 && out[0].subject
            == s2 {
            1int
        } else {
            0int
        }) + count_responses(out.drop_first(), r2, s2));
        assert(count_responses(rs, r2, s2) == (if rs[0].responder == r2 && rs[0].subject == s2 {
            1int
        } else {
            0int
        }) + count_responses(rs.drop_first(), r2, s2));
    } else {
        assert(out[0] == rs[0]);
        lemma_upsert_count(rs.drop_first(), responder, subject, accepted, r2, s2);
        lemma_find_count(rs.drop_first(), r2, s2);
        assert(out.drop_first() =~= upsert_response(
            rs.drop_first(),
            responder,
            subject,
            accepted,
        ));
        assert(count_responses(out, r2, s2) == (if out[0].responder == r2 && out[0].subject
            == s2 {
            1int
        } else {
            0int
        }) + count_responses(out.drop_first(), r2, s2));
        assert(count_responses(rs, r2, s2) == (if rs[0].responder == r2 && rs[0].subject == s2 {
            1int
        } else {
            0int
        }) + count_responses(rs.drop_first(), r2, s2));
    }
}

/// An upsert keeps the ledger well-formed.
pub proof fn lemma_upsert_wf(
    rs: Seq<ResponseRow>,
    responder: UserId,
    subject: UserId,
    accepted: bool,
)
    requires
        wf_ledger(rs),
    ensures
        wf_ledger(upsert_response(rs, responder, subject, accepted)),
{
    assert forall|r2: UserId, s2: UserId|
        count_responses(upsert_response(rs, responder, subject, accepted), r2, s2) <= 1 by {
        lemma_upsert_count(rs, responder, subject, accepted, r2, s2);
    }
}

/// Dismissing flips the dismissed flag of the pair's entry, if any, keeps its
/// acceptance, and leaves every other pair untouched.
pub proof fn lemma_dismiss_find(
    rs: Seq<ResponseRow>,
    responder: UserId,
    subject: UserId,
    r2: UserId,
    s2: UserId,
)
    ensures
        find_response(dismiss_response(rs, responder, subject), r2, s2) == (if r2 == responder
            && s2 == subject {
            match find_response(rs, responder, subject) {
                Some(row) => Some(ResponseRow { dismissed: true, ..row }),
                None => None,
            }
        } else {
            find_response(rs, r2, s2)
        }),
    decreases rs.len(),
{
    let out = dismiss_response(rs, responder, subject);
    if rs.len() == 0 {
    } else if rs[0].responder == responder && rs[0].subject == subject {
        assert(out[0] == ResponseRow { dismissed: true, ..rs[0] });
        assert(out.drop_first() =~= rs.drop_first());
    } else {
        assert(out[0] == rs[0]);
        lemma_dismiss_find(rs.drop_first(), responder, subject, r2, s2);
        assert(out.drop_first() =~= dismiss_response(rs.drop_first(), responder, subject));
        assert(find_response(out.drop_first(), r2, s2) == find_response(
            dismiss_response(rs.drop_first(), responder, subject),
            r2,
            s2,
        ));
    }
}

/// Dismissing never changes which pairs have entries.
pub proof fn lemma_dismiss_count(
    rs: Seq<ResponseRow>,
    responder: UserId,
    subject: UserId,
    r2: UserId,
    s2: UserId,
)
    ensures
        count_responses(dismiss_response(rs, responder, subject), r2, s2) == count_responses(
            rs,
            r2,
            s2,
        ),
    decreases rs.len(),
{
    let out = dismiss_response(rs, responder, subject);
    if rs.len() == 0 {
    } else if rs[0].responder == responder && rs[0].subject == subject {
        assert(out.drop_first() =~= rs.drop_first());
    } else {
        lemma_dismiss_count(rs.drop_first(), responder, subject, r2, s2);
        assert(out.drop_first() =~= dismiss_response(rs.drop_first(), responder, subject));
    }
}

/// Dismissing keeps the ledger well-formed.
pub proof fn lemma_dismiss_wf(rs: Seq<ResponseRow>, responder: UserId, subject: UserId)
    requires
        wf_ledger(rs),
    ensures
        wf_ledger(dismiss_response(rs, responder, subject)),
{
    assert forall|r2: UserId, s2: UserId|
        count_responses(dismiss_response(rs, responder, subject), r2, s2) <= 1 by {
        lemma_dismiss_count(rs, responder, subject, r2, s2);
    }
}

/// Appending an entry only affects lookups of its pair, and only when that
/// pair was absent before.
pub proof fn lemma_find_push(rs: Seq<ResponseRow>, row: ResponseRow, r2: UserId, s2: UserId)
    ensures
        find_response(rs.push(row), r2, s2) == (if find_response(rs, r2, s2) is Some {
            find_response(rs, r2, s2)
        } else if row.responder == r2 && row.subject == s2 {
            Some(row)
        } else {
            None
        }),
    decreases rs.len(),
{
    let out = rs.push(row);
    if rs.len() == 0 {
        assert(out =~= seq![row]);
        assert(out.drop_first() =~= Seq::<ResponseRow>::empty());
        assert(find_response(out.drop_first(), r2, s2) is None);
    } else {
        assert(out[0] == rs[0]);
        assert(out.drop_first() =~= rs.drop_first().push(row));
        lemma_find_push(rs.drop_first(), row, r2, s2);
    }
}

/// Upserting an absent pair appends its entry.
pub proof fn lemma_upsert_append(
    rs: Seq<ResponseRow>,
    responder: UserId,
    subject: UserId,
    accepted: bool,
)
    requires
        find_response(rs, responder, subject) is None,
    ensures
        upsert_response(rs, responder, subject, accepted) =~= rs.push(
            ResponseRow { responder, subject, accepted, dismissed: false },
        ),
    decreases rs.len(),
{
    if rs.len() > 0 {
        lemma_upsert_append(rs.drop_first(), responder, subject, accepted);
        assert(upsert_response(rs, responder, subject, accepted) =~= seq![rs[0]]
            + upsert_response(rs.drop_first(), responder, subject, accepted));
    }
}

/// Upserting a pair present first at index `i` updates the ledger in place.
pub proof fn lemma_upsert_at(
    rs: Seq<ResponseRow>,
    responder: UserId,
    subject: UserId,
    accepted: bool,
    i: int,
)
    requires
        0 <= i < rs.len(),
        rs[i].responder == responder && rs[i].subject == subject,
        forall|j: int|
            0 <= j < i ==> !(rs[j].responder == responder && rs[j].subject == subject),
    ensures
        upsert_response(rs, responder, subject, accepted) =~= rs.update(
            i,
            ResponseRow { responder, subject, accepted, dismissed: false },
        ),
    decreases i,
{
    let out = upsert_response(rs, responder, subject, accepted);
    let row = ResponseRow { responder, subject, accepted, dismissed: false };
    if i == 0 {
        assert(out =~= seq![row] + rs.drop_first());
    } else {
        assert(rs.drop_first()[i - 1] == rs[i]);
        assert forall|j: int|
            0 <= j < i - 1 implies !(rs.drop_first()[j].responder == responder
            && rs.drop_first()[j].subject == subject) by {
            assert(rs.drop_first()[j] == rs[j + 1]);
        }
        lemma_upsert_at(rs.drop_first(), responder, subject, accepted, i - 1);
        assert(out =~= seq![rs[0]] + upsert_response(
            rs.drop_first(),
            responder,
            subject,
            accepted,
        ));
        assert(out =~= rs.update(i, row));
    }
}

/// Dismissing a pair present first at index `i` updates the ledger in place.
pub proof fn lemma_dismiss_at(rs: Seq<ResponseRow>, responder: UserId, subject: UserId, i: int)
    requires
        0 <= i < rs.len(),
        rs[i].responder == responder && rs[i].subject == subject,
        forall|j: int|
            0 <= j < i ==> !(rs[j].responder == responder && rs[j].subject == subject),
    ensures
        dismiss_response(rs, responder, subject) =~= rs.update(
            i,
            ResponseRow { dismissed: true, ..rs[i] },
        ),
    decreases i,
{
    let out = dismiss_response(rs, responder, subject);
    if i == 0 {
        assert(out =~= seq![ResponseRow { dismissed: true, ..rs[0] }] + rs.drop_first());
    } else {
        assert(rs.drop_first()[i - 1] == rs[i]);
        assert forall|j: int|
            0 <= j < i - 1 implies !(rs.drop_first()[j].responder == responder
            && rs.drop_first()[j].subject == subject) by {
            assert(rs.drop_first()[j] == rs[j + 1]);
        }
        lemma_dismiss_at(rs.drop_first(), responder, subject, i - 1);
        assert(out =~= seq![rs[0]] + dismiss_response(rs.drop_first(), responder, subject));
        assert(out =~= rs.update(i, ResponseRow { dismissed: true, ..rs[i] }));
    }
}

/// Dismissing an absent pair leaves the ledger unchanged.
pub proof fn lemma_dismiss_absent(rs: Seq<ResponseRow>, responder: UserId, subject: UserId)
    requires
        find_response(rs, responder, subject) is None,
    ensures
        dismiss_response(rs, responder, subject) =~= rs,
    decreases rs.len(),
{
    if rs.len() > 0 {
        lemma_dismiss_absent(rs.drop_first(), responder, subject);
        assert(dismiss_response(rs, responder, subject) =~= seq![rs[0]] + dismiss_response(
            rs.drop_first(),
            responder,
            subject,
        ));
    }
}

/// The index of the entry for the pair, if there is one.
pub fn response_index(rs: &Vec<ResponseRow>, responder: UserId, subject: UserId) -> (r: Option<
    usize,
>)
    ensures
        r matches Some(i) ==> 0 <= i < rs@.len() && rs@[i as int].responder == responder
            && rs@[i as int].subject == subject && find_response(rs@, responder, subject)
            == Some(rs@[i as int]) && (forall|j: int|
            0 <= j < i ==> !(rs@[j].responder == responder && rs@[j].subject == subject)),
        r is None ==> find_response(rs@, responder, subject) is None,
{
    let n = rs.len();
    proof {
        assert(rs@.skip(0) =~= rs@);
    }
    let mut i: usize = 0;
    while i < n
        invariant
            0 <= i <= n,
            n == rs@.len(),
            find_response(rs@, responder, subject) == find_response(
                rs@.skip(i as int),
                responder,
                subject,
            ),
            forall|j: int|
                0 <= j < i ==> !(rs@[j].responder == responder && rs@[j].subject == subject),
        decreases n - i,
    {
        let row = rs[i];
        proof {
            assert(rs@.skip(i as int)[0] == rs@[i as int]);
        }
        if row.responder == responder && row.subject == subject {
            return Some(i);
        }
        proof {
            assert(rs@.skip(i as int).drop_first() =~= rs@.skip(i + 1));
        }
        i = i + 1;
    }
    proof {
        assert(rs@.skip(n as int) =~= Seq::<ResponseRow>::empty());
    }
    None
}

/// Look the pair's entry up.
pub fn lookup_response(rs: &Vec<ResponseRow>, responder: UserId, subject: UserId) -> (r: Option<
    ResponseRow,
>)
    ensures
        r == find_response(rs@, responder, subject),
{
    match response_index(rs, responder, subject) {
        Some(i) => Some(rs[i]),
        None => None,
    }
}

/// Record a response: overwrite the pair's entry in place or append a fresh
/// one, resetting the dismissed flag either way.
pub fn apply_upsert(
    rs: &mut Vec<ResponseRow>,
    responder: UserId,
    subject: UserId,
    accepted: bool,
)
    ensures
        final(rs)@ == upsert_response(old(rs)@, responder, subject, accepted),
{
    let row = ResponseRow { responder, subject, accepted, dismissed: false };
    match response_index(rs, responder, subject) {
        Some(i) => {
            proof {
                lemma_upsert_at(rs@, responder, subject, accepted, i as int);
            }
            rs[i] = row;
        },
        None => {
            proof {
                lemma_upsert_append(rs@, responder, subject, accepted);
            }
            rs.push(row);
        },
    }
}

/// Mark the pair's entry dismissed, if there is one.
pub fn apply_dismiss(rs: &mut Vec<ResponseRow>, responder: UserId, subject: UserId)
    ensures
        final(rs)@ == dismiss_response(old(rs)@, responder, subject),
{
    match response_index(rs, responder, subject) {
        Some(i) => {
            proof {
                lemma_dismiss_at(rs@, responder, subject, i as int);
            }
            let dismissed_row = ResponseRow { dismissed: true, ..rs[i] };
            rs[i] = dismissed_row;
        },
        None => {
            proof {
                lemma_dismiss_absent(rs@, responder, subject);
            }
        },
    }
}

/// Ledger upsert is last-write-wins: accepting, then declining, then accepting
/// the same subject again leaves exactly one entry for the pair — accepted
/// and not dismissed — and every other pair's entry exactly as it was.
pub proof fn lemma_ledger_upsert_last_write_wins(
    rs: Seq<ResponseRow>,
    responder: UserId,
    subject: UserId,
)
    requires
        wf_ledger(rs),
    ensures
        ({
            let l3 = upsert_response(
                upsert_response(upsert_response(rs, responder, subject, true), responder, subject, false),
                responder,
                subject,
                true,
            );
            &&& count_responses(l3, responder, subject) == 1
            &&& find_response(l3, responder, subject) == Some(
                ResponseRow { responder, subject, accepted: true, dismissed: false },
            )
            &&& forall|r2: UserId, s2: UserId|
                !(r2 == responder && s2 == subject) ==> find_response(l3, r2, s2)
                    == find_response(rs, r2, s2)
            &&& wf_ledger(l3)
        }),
{
    let l1 = upsert_response(rs, responder, subject, true);
    let l2 = upsert_response(l1, responder, subject, false);
    let l3 = upsert_response(l2, responder, subject, true);
    lemma_upsert_wf(rs, responder, subject, true);
    lemma_upsert_wf(l1, responder, subject, false);
    lemma_upsert_wf(l2, responder, subject, true);
    lemma_upsert_find_same(l2, responder, subject, true);
    lemma_find_count(l3, responder, subject);
    assert forall|r2: UserId, s2: UserId|
        !(r2 == responder && s2 == subject) implies find_response(l3, r2, s2) == find_response(
        rs,
        r2,
        s2,
    ) by {
        lemma_upsert_find_other(rs, responder, subject, true, r2, s2);
        lemma_upsert_find_other(l1, responder, subject, false, r2, s2);
        lemma_upsert_find_other(l2, responder, subject, true, r2, s2);
    }
}

} // verus!
