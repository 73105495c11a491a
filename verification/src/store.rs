//! What the ledger's statements mean: the rows that the vault's database holds,
//! what the text of each writing statement says is done to them, and which of
//! them each reading statement asks for. That the database does what a statement
//! says is its own affair; what is proved here holds of every database that
//! does.

use vstd::prelude::*;

use crate::ledger;
use crate::ledger::{SqlView, StatementView};
use crate::proposal::ProposalView;

verus! {

/// A scan as it is stored.
pub struct ScanRecord {
    pub started_at: Seq<char>,
    pub finished_at: Option<Seq<char>>,
    pub usernames: Seq<char>,
    pub site_count: int,
    pub hits: int,
}

/// A profile as it is stored.
pub struct ProfileRecord {
    pub label: Seq<char>,
    pub created_at: Seq<char>,
    pub updated_at: Seq<char>,
    pub note: Option<Seq<char>>,
}

/// A proposal as it is stored, and what came of it.
pub struct PendingRecord {
    pub kind: Seq<char>,
    pub proposed_at: Seq<char>,
    pub profile_id: Option<Seq<char>>,
    pub candidate: Seq<char>,
    pub rationale: Seq<char>,
    pub score: SqlView,
    pub state: Seq<char>,
    pub resolved_at: Option<Seq<char>>,
    pub resolved_note: Option<Seq<char>>,
}

/// An entry of the audit log.
pub struct AuditRecord {
    pub at: Seq<char>,
    pub action: Seq<char>,
    pub detail: Option<Seq<char>>,
}

/// The rows that the database holds. Evidence and results are kept as they were
/// given.
#[verifier::ext_equal]
pub struct StoreView {
    pub scans: Map<Seq<char>, ScanRecord>,
    pub results: Seq<Seq<SqlView>>,
    pub profiles: Map<Seq<char>, ProfileRecord>,
    pub evidence: Seq<Seq<SqlView>>,
    pub pending: Map<int, PendingRecord>,
    /// The greatest number that a proposal was ever given.
    pub last_pending: int,
    pub audit: Seq<AuditRecord>,
}

/// The text that a parameter holds.
pub open spec fn text_at(s: StatementView, i: int) -> Seq<char> {
    match s.params[i] {
        SqlView::Text(t) => t,
        _ => Seq::empty(),
    }
}

/// The text that a parameter holds, unless it is null.
pub open spec fn optional_at(s: StatementView, i: int) -> Option<Seq<char>> {
    match s.params[i] {
        SqlView::Text(t) => Some(t),
        _ => None,
    }
}

/// The number that a parameter holds.
pub open spec fn integer_at(s: StatementView, i: int) -> int {
    match s.params[i] {
        SqlView::Integer(n) => n as int,
        _ => 0,
    }
}

/// What may stand only once among the evidence: profile, site, username, field
/// and value.
pub open spec fn evidence_key(row: Seq<SqlView>) -> (SqlView, SqlView, SqlView, SqlView, SqlView) {
    (row[0], row[3], row[2], row[5], row[6])
}

/// Whether there is evidence with the key of `row`.
pub open spec fn has_evidence(st: StoreView, row: Seq<SqlView>) -> bool {
    exists|i: int|
        0 <= i < st.evidence.len() && evidence_key(#[trigger] st.evidence[i]) == evidence_key(row)
}

/// Whether a proposal is there and waits for review.
pub open spec fn waits(st: StoreView, id: int) -> bool {
    st.pending.contains_key(id) && st.pending[id].state == "pending"@
}

/// How many proposals wait for review.
pub open spec fn waiting(st: StoreView) -> nat {
    st.pending.dom().filter(|id: int| waits(st, id)).len()
}

/// The rows with a proposal resolved.
pub open spec fn with_resolution(
    st: StoreView,
    id: int,
    state: Seq<char>,
    at: Seq<char>,
    note: Option<Seq<char>>,
) -> StoreView {
    StoreView {
        pending: st.pending.insert(
            id,
            PendingRecord {
                state,
                resolved_at: Some(at),
                resolved_note: note,
                ..st.pending[id]
            },
        ),
        ..st
    }
}

/// The rows with one more entry in the audit log.
pub open spec fn with_audit(
    st: StoreView,
    action: Seq<char>,
    detail: Option<Seq<char>>,
    at: Seq<char>,
) -> StoreView {
    StoreView { audit: st.audit.push(AuditRecord { at, action, detail }), ..st }
}

/// What a statement about proposals or the audit log leaves of the rows, and how
/// many rows it changes.
pub open spec fn review_executed(st: StoreView, s: StatementView) -> Option<(StoreView, nat)> {
    if s.sql == ledger::INSERT_AUDIT@ {
        Some((with_audit(st, text_at(s, 1), optional_at(s, 2), text_at(s, 0)), 1))
    } else if s.sql == ledger::REJECT_PENDING@ {
        let id = integer_at(s, 2);
        if waits(st, id) {
            Some((with_resolution(st, id, "rejected"@, text_at(s, 0), optional_at(s, 1)), 1))
        } else {
            Some((st, 0))
        }
    } else if s.sql == ledger::ACCEPT_PENDING@ {
        let id = integer_at(s, 2);
        if st.pending.contains_key(id) {
            Some((with_resolution(st, id, "accepted"@, text_at(s, 0), optional_at(s, 1)), 1))
        } else {
            Some((st, 0))
        }
    } else if s.sql == ledger::INSERT_PENDING@ {
        let id = st.last_pending + 1;
        let row = PendingRecord {
            kind: text_at(s, 0),
            proposed_at: text_at(s, 1),
            profile_id: optional_at(s, 2),
            candidate: text_at(s, 3),
            rationale: text_at(s, 4),
            score: s.params[5],
            state: "pending"@,
            resolved_at: None,
            resolved_note: None,
        };
        Some((StoreView { pending: st.pending.insert(id, row), last_pending: id, ..st }, 1))
    } else {
        None
    }
}

/// What a statement about profiles and their evidence leaves of the rows, and
/// how many rows it changes; nothing where a key is taken or a row that is
/// referred to is missing.
pub open spec fn profile_executed(st: StoreView, s: StatementView) -> Option<(StoreView, nat)> {
    if s.sql == ledger::INSERT_PROFILE@ {
        let id = text_at(s, 0);
        if st.profiles.contains_key(id) {
            None
        } else {
            let row = ProfileRecord {
                label: text_at(s, 1),
                created_at: text_at(s, 2),
                updated_at: text_at(s, 2),
                note: None,
            };
            Some((StoreView { profiles: st.profiles.insert(id, row), ..st }, 1))
        }
    } else if s.sql == ledger::INSERT_EVIDENCE@ {
        if !st.profiles.contains_key(text_at(s, 0)) || !st.scans.contains_key(text_at(s, 1)) {
            None
        } else if has_evidence(st, s.params) {
            Some((st, 0))
        } else {
            Some((StoreView { evidence: st.evidence.push(s.params), ..st }, 1))
        }
    } else if s.sql == ledger::TOUCH_PROFILE@ {
        let id = text_at(s, 1);
        if st.profiles.contains_key(id) {
            let row = ProfileRecord { updated_at: text_at(s, 0), ..st.profiles[id] };
            Some((StoreView { profiles: st.profiles.insert(id, row), ..st }, 1))
        } else {
            Some((st, 0))
        }
    } else {
        None
    }
}

/// What a statement about scans and their results leaves of the rows, and how
/// many rows it changes; nothing where a key is taken or a row that is referred
/// to is missing.
pub open spec fn scan_executed(st: StoreView, s: StatementView) -> Option<(StoreView, nat)> {
    if s.sql == ledger::INSERT_SCAN@ {
        let id = text_at(s, 0);
        if st.scans.contains_key(id) {
            None
        } else {
            let row = ScanRecord {
                started_at: text_at(s, 1),
                finished_at: None,
                usernames: text_at(s, 2),
                site_count: integer_at(s, 3),
                hits: 0,
            };
            Some((StoreView { scans: st.scans.insert(id, row), ..st }, 1))
        }
    } else if s.sql == ledger::FINISH_SCAN@ {
        let id = text_at(s, 2);
        if st.scans.contains_key(id) {
            let row = ScanRecord {
                finished_at: optional_at(s, 0),
                hits: integer_at(s, 1),
                ..st.scans[id]
            };
            Some((StoreView { scans: st.scans.insert(id, row), ..st }, 1))
        } else {
            Some((st, 0))
        }
    } else if s.sql == ledger::INSERT_RESULT@ {
        if st.scans.contains_key(text_at(s, 0)) {
            Some((StoreView { results: st.results.push(s.params), ..st }, 1))
        } else {
            None
        }
    } else {
        None
    }
}

/// Whether a statement is about proposals or the audit log.
pub open spec fn is_review(s: StatementView) -> bool {
    s.sql == ledger::INSERT_AUDIT@ || s.sql == ledger::REJECT_PENDING@ || s.sql
        == ledger::ACCEPT_PENDING@ || s.sql == ledger::INSERT_PENDING@
}

/// Whether a statement is about profiles and their evidence.
pub open spec fn is_profile(s: StatementView) -> bool {
    s.sql == ledger::INSERT_PROFILE@ || s.sql == ledger::INSERT_EVIDENCE@ || s.sql
        == ledger::TOUCH_PROFILE@
}

/// What a statement leaves of the rows, and how many rows it changes; nothing
/// where it is refused.
pub open spec fn executed(st: StoreView, s: StatementView) -> Option<(StoreView, nat)> {
    if is_review(s) {
        review_executed(st, s)
    } else if is_profile(s) {
        profile_executed(st, s)
    } else {
        scan_executed(st, s)
    }
}

/// What statements of one transaction leave of the rows; nothing where one of
/// them is refused.
pub open spec fn executed_all(st: StoreView, list: Seq<StatementView>) -> Option<StoreView>
    decreases list.len(),
{
    if list.len() == 0 {
        Some(st)
    } else {
        match executed_all(st, list.drop_last()) {
            Some(mid) => match executed(mid, list.last()) {
                Some((end, _)) => Some(end),
                None => None,
            },
            None => None,
        }
    }
}

/// Characters by which the texts of the statements can be told apart.
proof fn statements_differ()
    ensures
        ledger::INSERT_AUDIT@[0] == 'I' && ledger::INSERT_AUDIT@[7] == 'I'
            && ledger::INSERT_AUDIT@[12] == 'a',
        ledger::INSERT_PENDING@[0] == 'I' && ledger::INSERT_PENDING@[7] == 'I'
            && ledger::INSERT_PENDING@[12] == 'p' && ledger::INSERT_PENDING@[13] == 'e',
        ledger::INSERT_PROFILE@[0] == 'I' && ledger::INSERT_PROFILE@[7] == 'I'
            && ledger::INSERT_PROFILE@[12] == 'p' && ledger::INSERT_PROFILE@[13] == 'r',
        ledger::INSERT_SCAN@[0] == 'I' && ledger::INSERT_SCAN@[7] == 'I'
            && ledger::INSERT_SCAN@[12] == 's' && ledger::INSERT_SCAN@[16] == 's',
        ledger::INSERT_RESULT@[0] == 'I' && ledger::INSERT_RESULT@[7] == 'I'
            && ledger::INSERT_RESULT@[12] == 's' && ledger::INSERT_RESULT@[16] == '_',
        ledger::INSERT_EVIDENCE@[0] == 'I' && ledger::INSERT_EVIDENCE@[7] == 'O',
        ledger::REJECT_PENDING@[0] == 'U' && ledger::REJECT_PENDING@[8] == 'e'
            && ledger::REJECT_PENDING@[35] == 'r',
        ledger::ACCEPT_PENDING@[0] == 'U' && ledger::ACCEPT_PENDING@[8] == 'e'
            && ledger::ACCEPT_PENDING@[35] == 'a',
        ledger::TOUCH_PROFILE@[0] == 'U' && ledger::TOUCH_PROFILE@[8] == 'r',
        ledger::FINISH_SCAN@[0] == 'U' && ledger::FINISH_SCAN@[8] == 'c',
{
    reveal_strlit("INSERT INTO audit_log (at, action, detail) VALUES (?1, ?2, ?3)");
    reveal_strlit(
        "UPDATE pending_merges SET state = 'accepted', resolved_at = ?1, resolved_note = ?2 WHERE id = ?3",
    );
    reveal_strlit(
        "UPDATE pending_merges SET state = 'rejected', resolved_at = ?1, resolved_note = ?2 WHERE id = ?3 AND state = 'pending'",
    );
    reveal_strlit(
        "INSERT INTO pending_merges (kind, proposed_at, profile_id, candidate, rationale, score) VALUES (?1,?2,?3,?4,?5,?6)",
    );
    reveal_strlit(
        "INSERT INTO profiles (id, label, created_at, updated_at) VALUES (?1, ?2, ?3, ?3)",
    );
    reveal_strlit(
        "INSERT OR IGNORE INTO evidence (profile_id, scan_id, username, site_name, site_url, field, value, confidence, seen_at) VALUES (?1,?2,?3,?4,?5,?6,?7,?8,?9)",
    );
    reveal_strlit("UPDATE profiles SET updated_at = ?1 WHERE id = ?2");
    reveal_strlit(
        "INSERT INTO scans (id, started_at, usernames, site_count, hits) VALUES (?1, ?2, ?3, ?4, 0)",
    );
    reveal_strlit("UPDATE scans SET finished_at = ?1, hits = ?2 WHERE id = ?3");
    reveal_strlit(
        "INSERT INTO scan_results (scan_id, username, site_name, site_url, status, confidence, response_time_ms, body_sha256, seen_at) VALUES (?1,?2,?3,?4,?5,?6,?7,?8,?9)",
    );
}

proof fn states_differ()
    ensures
        "accepted"@ != "pending"@,
        "rejected"@ != "pending"@,
{
    ledger::resolved_is_not_pending("accepted"@);
    ledger::resolved_is_not_pending("rejected"@);
}

/// What rejecting a proposal comes to, and the rows it leaves: the proposal is
/// resolved where it waits, and only then is that put in the audit log.
pub open spec fn rejection(
    st: StoreView,
    id: i64,
    note: Option<Seq<char>>,
    at: Seq<char>,
    noted_at: Seq<char>,
) -> (bool, StoreView) {
    match executed(st, ledger::resolution_of(ledger::REJECT_PENDING@, id, note, at)) {
        None => (false, st),
        Some((mid, updated)) => if updated == 0 {
            (false, mid)
        } else {
            match executed(
                mid,
                ledger::audit_of(
                    "review_reject"@,
                    Some(ledger::review_detail("rejected"@, id, note)),
                    noted_at,
                ),
            ) {
                Some((end, _)) => (true, end),
                None => (true, mid),
            }
        },
    }
}

proof fn one_fewer_waits(st: StoreView, id: int, state: Seq<char>, at: Seq<char>, note: Option<Seq<char>>)
    requires
        st.pending.dom().finite(),
        waits(st, id),
        state != "pending"@,
    ensures
        waiting(with_resolution(st, id, state, at, note)) == waiting(st) - 1,
        !waits(with_resolution(st, id, state, at, note), id),
{
    let end = with_resolution(st, id, state, at, note);
    let before = st.pending.dom().filter(|i: int| waits(st, i));
    let after = end.pending.dom().filter(|i: int| waits(end, i));
    assert(after =~= before.remove(id));
    assert(before.contains(id));
}

/// A proposal can be rejected just where it is there and waits. Then it is
/// rejected with the note, one fewer waits, one entry stands in the audit log,
/// and everything else is as it was; else nothing is changed at all. A proposal
/// that was rejected can be neither rejected nor accepted again.
#[verifier::rlimit(40)]
pub proof fn proposals_are_rejected_once(
    st: StoreView,
    id: i64,
    note: Option<Seq<char>>,
    at: Seq<char>,
    noted_at: Seq<char>,
)
    requires
        st.pending.dom().finite(),
    ensures
        ({
            let (ok, end) = rejection(st, id, note, at, noted_at);
            &&& ok <==> waits(st, id as int)
            &&& !ok ==> end == st
            &&& ok ==> {
                &&& end == with_audit(
                    with_resolution(st, id as int, "rejected"@, at, note),
                    "review_reject"@,
                    Some(ledger::review_detail("rejected"@, id, note)),
                    noted_at,
                )
                &&& end.pending[id as int].state == "rejected"@
                &&& end.pending[id as int].resolved_note == note
                &&& waiting(end) == waiting(st) - 1
                &&& !waits(end, id as int)
                &&& end.audit.len() == st.audit.len() + 1
                &&& end.profiles == st.profiles
                &&& end.evidence == st.evidence
                &&& forall|n: Option<Seq<char>>, t: Seq<char>, u: Seq<char>|
                    !(#[trigger] rejection(end, id, n, t, u)).0
                &&& forall|
                    q: ProposalView,
                    n: Option<Seq<char>>,
                    i: Seq<char>,
                    a: Seq<char>,
                    t: Seq<char>,
                    u: Seq<char>,
                |
                    !(#[trigger] acceptance(end, id, q, n, i, a, t, u)).0
            }
        }),
{
    statements_differ();
    states_differ();
    if waits(st, id as int) {
        one_fewer_waits(st, id as int, "rejected"@, at, note);
        let mid = with_resolution(st, id as int, "rejected"@, at, note);
        let (ok, end) = rejection(st, id, note, at, noted_at);
        assert(end.pending == mid.pending);
        assert(end.pending.dom().filter(|i: int| waits(end, i))
            =~= mid.pending.dom().filter(|i: int| waits(mid, i)));
    }
}

/// Resolving a proposal changes nothing but that proposal, and gives no number
/// away.
pub proof fn resolutions_keep_the_numbers(
    st: StoreView,
    sql: Seq<char>,
    id: i64,
    note: Option<Seq<char>>,
    at: Seq<char>,
)
    requires
        sql == ledger::ACCEPT_PENDING@ || sql == ledger::REJECT_PENDING@,
    ensures
        match executed(st, ledger::resolution_of(sql, id, note, at)) {
            None => false,
            Some((end, _)) => {
                &&& end == (StoreView { pending: end.pending, ..st })
                &&& end.pending.dom() == st.pending.dom()
                &&& forall|other: int|
                    other != id ==> #[trigger] end.pending[other] == st.pending[other]
            },
        },
{
    statements_differ();
    if let Some((end, _)) = executed(st, ledger::resolution_of(sql, id, note, at)) {
        assert(end.pending.dom() =~= st.pending.dom());
    }
}

/// What accepting a proposal comes to, and the rows it leaves. `p` is what is
/// stored of the proposal; `new_id` is for a new profile. One that waits is
/// applied, in one transaction, then resolved, then put in the audit log.
pub open spec fn acceptance(
    st: StoreView,
    id: i64,
    p: ProposalView,
    note: Option<Seq<char>>,
    new_id: Seq<char>,
    applied_at: Seq<char>,
    at: Seq<char>,
    noted_at: Seq<char>,
) -> (bool, StoreView) {
    if !waits(st, id as int) {
        (false, st)
    } else {
        match executed_all(st, ledger::application_of(p, new_id, applied_at)) {
            None => (false, st),
            Some(applied) => match executed(
                applied,
                ledger::resolution_of(ledger::ACCEPT_PENDING@, id, note, at),
            ) {
                None => (false, applied),
                Some((mid, _)) => match executed(
                    mid,
                    ledger::audit_of(
                        "review_accept"@,
                        Some(ledger::review_detail("accepted"@, id, note)),
                        noted_at,
                    ),
                ) {
                    Some((end, _)) => (true, end),
                    None => (true, mid),
                },
            },
        }
    }
}

/// Whether the rows that a proposal refers to are there, and the number for a
/// new profile is free.
pub open spec fn can_apply(st: StoreView, p: ProposalView, new_id: Seq<char>) -> bool {
    &&& p.target_profile_id is None ==> !st.profiles.contains_key(new_id)
    &&& p.evidence.len() > 0 ==> st.scans.contains_key(p.scan_id) && (p.target_profile_id matches Some(
        t,
    ) ==> st.profiles.contains_key(t))
}

/// The rows of the first `n` pieces of evidence of a proposal.
spec fn evidence_rows(p: ProposalView, profile_id: Seq<char>, n: nat, now: Seq<char>) -> Seq<
    StatementView,
> {
    Seq::new(n, |i: int| ledger::evidence_row_of(p, profile_id, p.evidence[i], now))
}

/// Whether a row is that of one of the first `n` pieces of evidence of a
/// proposal.
pub open spec fn is_piece_of(
    row: Seq<SqlView>,
    p: ProposalView,
    profile_id: Seq<char>,
    n: nat,
    now: Seq<char>,
) -> bool {
    exists|i: int|
        0 <= i < n && row == (#[trigger] ledger::evidence_row_of(
            p,
            profile_id,
            p.evidence[i],
            now,
        )).params
}

#[verifier::rlimit(40)]
proof fn evidence_is_stored(
    st: StoreView,
    p: ProposalView,
    profile_id: Seq<char>,
    n: nat,
    now: Seq<char>,
)
    requires
        n <= p.evidence.len(),
    ensures
        ({
            let known = st.scans.contains_key(p.scan_id) && st.profiles.contains_key(profile_id);
            match executed_all(st, evidence_rows(p, profile_id, n, now)) {
                None => n > 0 && !known,
                Some(end) => {
                    &&& n == 0 || known
                    &&& end == (StoreView { evidence: end.evidence, ..st })
                    &&& st.evidence.len() <= end.evidence.len() <= st.evidence.len() + n
                    &&& forall|j: int|
                        0 <= j < st.evidence.len() ==> #[trigger] end.evidence[j] == st.evidence[j]
                    &&& forall|j: int|
                        st.evidence.len() <= j < end.evidence.len() ==> is_piece_of(
                            #[trigger] end.evidence[j],
                            p,
                            profile_id,
                            n,
                            now,
                        )
                    &&& forall|i: int|
                        0 <= i < n ==> has_evidence(
                            end,
                            #[trigger] ledger::evidence_row_of(
                                p,
                                profile_id,
                                p.evidence[i],
                                now,
                            ).params,
                        )
                },
            }
        }),
    decreases n,
{
    let list = evidence_rows(p, profile_id, n, now);
    if n > 0 {
        statements_differ();
        let before = (n - 1) as nat;
        evidence_is_stored(st, p, profile_id, before, now);
        assert(list.drop_last() =~= evidence_rows(p, profile_id, before, now));
        let row = ledger::evidence_row_of(p, profile_id, p.evidence[n - 1], now);
        assert(list.last() == row);
        if let Some(mid) = executed_all(st, list.drop_last()) {
            if let Some((end, _)) = executed(mid, row) {
                assert forall|j: int|
                    st.evidence.len() <= j < end.evidence.len() implies is_piece_of(
                    #[trigger] end.evidence[j],
                    p,
                    profile_id,
                    n,
                    now,
                ) by {
                    if j < mid.evidence.len() {
                        assert(end.evidence[j] == mid.evidence[j]);
                        assert(is_piece_of(mid.evidence[j], p, profile_id, before, now));
                    }
                }
                assert forall|i: int| 0 <= i < n implies has_evidence(
                    end,
                    #[trigger] ledger::evidence_row_of(p, profile_id, p.evidence[i], now).params,
                ) by {
                    let wanted = ledger::evidence_row_of(p, profile_id, p.evidence[i], now).params;
                    if i < before {
                        let j = choose|j: int|
                            0 <= j < mid.evidence.len() && evidence_key(#[trigger] mid.evidence[j])
                                == evidence_key(wanted);
                        assert(end.evidence[j] == mid.evidence[j]);
                    } else if !has_evidence(mid, row.params) {
                        assert(end.evidence[mid.evidence.len() as int] == row.params);
                    }
                }
            }
        }
    }
}

proof fn transactions_are_joined(st: StoreView, a: Seq<StatementView>, b: Seq<StatementView>)
    ensures
        executed_all(st, a + b) == match executed_all(st, a) {
            Some(mid) => executed_all(mid, b),
            None => None,
        },
    decreases b.len(),
{
    if b.len() == 0 {
        assert(a + b =~= a);
    } else {
        transactions_are_joined(st, a, b.drop_last());
        assert((a + b).drop_last() =~= a + b.drop_last());
        assert((a + b).last() == b.last());
    }
}

/// The rows once the profile that a proposal is for is there; nothing where the
/// number for a new profile is taken.
spec fn with_target(st: StoreView, p: ProposalView, new_id: Seq<char>, now: Seq<char>) -> Option<
    StoreView,
> {
    if p.target_profile_id is Some {
        Some(st)
    } else if st.profiles.contains_key(new_id) {
        None
    } else {
        Some(
            StoreView {
                profiles: st.profiles.insert(
                    new_id,
                    ProfileRecord {
                        label: match p.new_label {
                            Some(l) => l,
                            None => Seq::empty(),
                        },
                        created_at: now,
                        updated_at: now,
                        note: None,
                    },
                ),
                ..st
            },
        )
    }
}

/// The rows with the time of a profile's last change set.
spec fn with_touch(st: StoreView, id: Seq<char>, now: Seq<char>) -> StoreView {
    if st.profiles.contains_key(id) {
        StoreView {
            profiles: st.profiles.insert(
                id,
                ProfileRecord { updated_at: now, ..st.profiles[id] },
            ),
            ..st
        }
    } else {
        st
    }
}

#[verifier::rlimit(40)]
proof fn application_has_three_parts(
    st: StoreView,
    p: ProposalView,
    new_id: Seq<char>,
    now: Seq<char>,
)
    ensures
        executed_all(st, ledger::application_of(p, new_id, now)) == match with_target(
            st,
            p,
            new_id,
            now,
        ) {
            None => None,
            Some(mid) => match executed_all(
                mid,
                evidence_rows(p, ledger::target_of(p, new_id), p.evidence.len(), now),
            ) {
                None => None,
                Some(full) => Some(with_touch(full, ledger::target_of(p, new_id), now)),
            },
        },
{
    statements_differ();
    let target = ledger::target_of(p, new_id);
    let label = match p.new_label {
        Some(l) => l,
        None => Seq::empty(),
    };
    let opening = if p.target_profile_id is Some {
        Seq::empty()
    } else {
        seq![ledger::new_profile_of(new_id, label, now)]
    };
    let rows = evidence_rows(p, target, p.evidence.len(), now);
    let touch = StatementView {
        sql: ledger::TOUCH_PROFILE@,
        params: seq![SqlView::Text(now), SqlView::Text(target)],
    };
    let all = ledger::application_of(p, new_id, now);
    assert(all =~= opening + rows + seq![touch]);
    assert(all.drop_last() =~= opening + rows);
    assert(all.last() == touch);
    transactions_are_joined(st, opening, rows);
    if p.target_profile_id is None {
        assert(opening.drop_last() =~= Seq::<StatementView>::empty());
        assert(executed_all(st, opening.drop_last()) == Some(st));
    }
    assert(executed_all(st, opening) == with_target(st, p, new_id, now));
    if let Some(mid) = with_target(st, p, new_id, now) {
        if let Some(full) = executed_all(mid, rows) {
            assert(executed(full, touch) matches Some((end, _)) && end == with_touch(
                full,
                target,
                now,
            ));
        }
    }
}

/// A proposal that is applied is stored as a whole: where it is for a new
/// profile, that profile is there under its label; each piece of its evidence
/// stands under its profile; evidence that was there stays, and none is added
/// that is not the proposal's; no other profile comes or changes, and neither do
/// scans, results, proposals and the audit log. It can be applied just where the
/// rows that it refers to are there.
#[verifier::rlimit(40)]
pub proof fn applied_proposals_are_stored(
    st: StoreView,
    p: ProposalView,
    new_id: Seq<char>,
    now: Seq<char>,
)
    ensures
        match executed_all(st, ledger::application_of(p, new_id, now)) {
            None => !can_apply(st, p, new_id),
            Some(end) => {
                let target = ledger::target_of(p, new_id);
                &&& can_apply(st, p, new_id)
                &&& end == (StoreView { profiles: end.profiles, evidence: end.evidence, ..st })
                &&& p.target_profile_id is None ==> end.profiles[new_id] == (ProfileRecord {
                    label: match p.new_label {
                        Some(l) => l,
                        None => Seq::empty(),
                    },
                    created_at: now,
                    updated_at: now,
                    note: None,
                })
                &&& p.target_profile_id is Some && st.profiles.contains_key(target)
                    ==> end.profiles[target] == (ProfileRecord {
                    updated_at: now,
                    ..st.profiles[target]
                })
                &&& p.target_profile_id is None ==> end.profiles.dom() == st.profiles.dom().insert(
                    new_id,
                )
                &&& p.target_profile_id is Some ==> end.profiles.dom() == st.profiles.dom()
                &&& forall|k: Seq<char>|
                    k != target && #[trigger] st.profiles.contains_key(k)
                        ==> end.profiles.contains_key(k) && end.profiles[k] == st.profiles[k]
                &&& st.evidence.len() <= end.evidence.len() <= st.evidence.len() + p.evidence.len()
                &&& forall|j: int|
                    0 <= j < st.evidence.len() ==> #[trigger] end.evidence[j] == st.evidence[j]
                &&& forall|j: int|
                    st.evidence.len() <= j < end.evidence.len() ==> is_piece_of(
                        #[trigger] end.evidence[j],
                        p,
                        target,
                        p.evidence.len(),
                        now,
                    )
                &&& forall|i: int|
                    0 <= i < p.evidence.len() ==> has_evidence(
                        end,
                        #[trigger] ledger::evidence_row_of(p, target, p.evidence[i], now).params,
                    )
            },
        },
{
    application_has_three_parts(st, p, new_id, now);
    let target = ledger::target_of(p, new_id);
    let rows = evidence_rows(p, target, p.evidence.len(), now);
    if let Some(mid) = with_target(st, p, new_id, now) {
        evidence_is_stored(mid, p, target, p.evidence.len(), now);
        if let Some(full) = executed_all(mid, rows) {
            let end = with_touch(full, target, now);
            assert(end.evidence == full.evidence);
            assert forall|i: int| 0 <= i < p.evidence.len() implies has_evidence(
                end,
                #[trigger] ledger::evidence_row_of(p, target, p.evidence[i], now).params,
            ) by {
                let wanted = ledger::evidence_row_of(p, target, p.evidence[i], now).params;
                assert(has_evidence(full, wanted));
                let j = choose|j: int|
                    0 <= j < full.evidence.len() && evidence_key(#[trigger] full.evidence[j])
                        == evidence_key(wanted);
                assert(evidence_key(end.evidence[j]) == evidence_key(wanted));
            }
            if p.target_profile_id is Some {
                assert(end.profiles.dom() =~= st.profiles.dom());
            } else {
                assert(end.profiles.dom() =~= st.profiles.dom().insert(new_id));
            }
        }
    }
}

/// Whether no two pieces of evidence of a proposal are the same.
pub open spec fn pieces_differ(p: ProposalView) -> bool {
    forall|i: int, j: int|
        0 <= i < j < p.evidence.len() ==> (#[trigger] p.evidence[i]).field != (
        #[trigger] p.evidence[j]).field || p.evidence[i].value != p.evidence[j].value
}

/// Whether none of the evidence of a proposal is there yet for the profile.
pub open spec fn is_all_new(
    st: StoreView,
    p: ProposalView,
    profile_id: Seq<char>,
    now: Seq<char>,
) -> bool {
    forall|i: int|
        0 <= i < p.evidence.len() ==> !has_evidence(
            st,
            (#[trigger] ledger::evidence_row_of(p, profile_id, p.evidence[i], now)).params,
        )
}

/// The parameters of the rows of the first `n` pieces of evidence.
spec fn piece_rows(p: ProposalView, profile_id: Seq<char>, n: nat, now: Seq<char>) -> Seq<
    Seq<SqlView>,
> {
    Seq::new(n, |i: int| ledger::evidence_row_of(p, profile_id, p.evidence[i], now).params)
}

#[verifier::rlimit(40)]
proof fn new_pieces_are_added(
    st: StoreView,
    p: ProposalView,
    profile_id: Seq<char>,
    n: nat,
    now: Seq<char>,
)
    requires
        n <= p.evidence.len(),
        st.scans.contains_key(p.scan_id),
        st.profiles.contains_key(profile_id),
        pieces_differ(p),
        is_all_new(st, p, profile_id, now),
    ensures
        executed_all(st, evidence_rows(p, profile_id, n, now)) == Some(
            StoreView { evidence: st.evidence + piece_rows(p, profile_id, n, now), ..st },
        ),
    decreases n,
{
    let list = evidence_rows(p, profile_id, n, now);
    if n == 0 {
        assert(st.evidence + piece_rows(p, profile_id, n, now) =~= st.evidence);
    } else {
        statements_differ();
        let before = (n - 1) as nat;
        new_pieces_are_added(st, p, profile_id, before, now);
        assert(list.drop_last() =~= evidence_rows(p, profile_id, before, now));
        let old_rows = piece_rows(p, profile_id, before, now);
        let mid = StoreView { evidence: st.evidence + old_rows, ..st };
        let row = ledger::evidence_row_of(p, profile_id, p.evidence[n - 1], now);
        assert(list.last() == row);
        assert(!has_evidence(mid, row.params)) by {
            if has_evidence(mid, row.params) {
                let j = choose|j: int|
                    0 <= j < mid.evidence.len() && evidence_key(#[trigger] mid.evidence[j])
                        == evidence_key(row.params);
                if j < st.evidence.len() {
                    assert(mid.evidence[j] == st.evidence[j]);
                    assert(has_evidence(st, row.params));
                } else {
                    let i = j - st.evidence.len();
                    assert(mid.evidence[j] == old_rows[i]);
                    let other = ledger::evidence_row_of(p, profile_id, p.evidence[i], now).params;
                    assert(other[5] == row.params[5] && other[6] == row.params[6]);
                    assert(p.evidence[i].field == p.evidence[n - 1].field);
                    assert(p.evidence[i].value == p.evidence[n - 1].value);
                }
            }
        }
        assert(mid.evidence.push(row.params) =~= st.evidence + piece_rows(p, profile_id, n, now));
    }
}

/// Evidence that is not there yet is all added, one row for each piece.
#[verifier::rlimit(40)]
pub proof fn new_evidence_is_all_added(
    st: StoreView,
    p: ProposalView,
    new_id: Seq<char>,
    now: Seq<char>,
)
    requires
        can_apply(st, p, new_id),
        pieces_differ(p),
        is_all_new(st, p, ledger::target_of(p, new_id), now),
    ensures
        match executed_all(st, ledger::application_of(p, new_id, now)) {
            None => false,
            Some(end) => end.evidence == st.evidence + Seq::new(
                p.evidence.len(),
                |i: int|
                    ledger::evidence_row_of(
                        p,
                        ledger::target_of(p, new_id),
                        p.evidence[i],
                        now,
                    ).params,
            ),
        },
{
    application_has_three_parts(st, p, new_id, now);
    let target = ledger::target_of(p, new_id);
    let mid = with_target(st, p, new_id, now)->0;
    assert(mid.evidence == st.evidence);
    if p.evidence.len() > 0 {
        assert(is_all_new(mid, p, target, now)) by {
            assert forall|i: int| 0 <= i < p.evidence.len() implies !has_evidence(
                mid,
                (#[trigger] ledger::evidence_row_of(p, target, p.evidence[i], now)).params,
            ) by {
                let wanted = ledger::evidence_row_of(p, target, p.evidence[i], now).params;
                assert(!has_evidence(st, wanted));
                assert forall|j: int| 0 <= j < mid.evidence.len() implies evidence_key(
                    #[trigger] mid.evidence[j],
                ) != evidence_key(wanted) by {
                    assert(st.evidence[j] == mid.evidence[j]);
                }
            }
        }
        new_pieces_are_added(mid, p, target, p.evidence.len(), now);
    } else {
        assert(executed_all(mid, evidence_rows(p, target, 0, now)) == Some(mid));
    }
    assert(st.evidence + piece_rows(p, target, p.evidence.len(), now) =~= st.evidence + Seq::new(
        p.evidence.len(),
        |i: int| ledger::evidence_row_of(p, target, p.evidence[i], now).params,
    ));
    assert(p.evidence.len() == 0 ==> st.evidence + piece_rows(p, target, 0, now) =~= st.evidence);
}

/// A proposal can be accepted just where it waits and can be applied. Then it is
/// applied as a whole, accepted with the note, one fewer waits, and one entry
/// stands in the audit log; else nothing is changed at all. A proposal that was
/// accepted can be neither accepted nor rejected again.
#[verifier::rlimit(40)]
pub proof fn proposals_are_accepted_once(
    st: StoreView,
    id: i64,
    p: ProposalView,
    note: Option<Seq<char>>,
    new_id: Seq<char>,
    applied_at: Seq<char>,
    at: Seq<char>,
    noted_at: Seq<char>,
)
    requires
        st.pending.dom().finite(),
    ensures
        ({
            let (ok, end) = acceptance(st, id, p, note, new_id, applied_at, at, noted_at);
            &&& ok <==> waits(st, id as int) && can_apply(st, p, new_id)
            &&& !ok ==> end == st
            &&& ok ==> {
                let applied = executed_all(
                    st,
                    ledger::application_of(p, new_id, applied_at),
                );
                &&& applied is Some
                &&& end == with_audit(
                    with_resolution(applied->0, id as int, "accepted"@, at, note),
                    "review_accept"@,
                    Some(ledger::review_detail("accepted"@, id, note)),
                    noted_at,
                )
                &&& end.pending[id as int].state == "accepted"@
                &&& end.pending[id as int].resolved_note == note
                &&& waiting(end) == waiting(st) - 1
                &&& !waits(end, id as int)
                &&& end.audit.len() == st.audit.len() + 1
                &&& forall|n: Option<Seq<char>>, t: Seq<char>, u: Seq<char>|
                    !(#[trigger] rejection(end, id, n, t, u)).0
                &&& forall|
                    q: ProposalView,
                    n: Option<Seq<char>>,
                    i: Seq<char>,
                    a: Seq<char>,
                    t: Seq<char>,
                    u: Seq<char>,
                |
                    !(#[trigger] acceptance(end, id, q, n, i, a, t, u)).0
            }
        }),
{
    statements_differ();
    states_differ();
    applied_proposals_are_stored(st, p, new_id, applied_at);
    if waits(st, id as int) && can_apply(st, p, new_id) {
        let applied = executed_all(st, ledger::application_of(p, new_id, applied_at))->0;
        assert(applied.pending == st.pending);
        assert(applied.pending.dom().filter(|i: int| waits(applied, i))
            =~= st.pending.dom().filter(|i: int| waits(st, i)));
        one_fewer_waits(applied, id as int, "accepted"@, at, note);
        let mid = with_resolution(applied, id as int, "accepted"@, at, note);
        let (ok, end) = acceptance(st, id, p, note, new_id, applied_at, at, noted_at);
        assert(end.pending == mid.pending);
        assert(end.pending.dom().filter(|i: int| waits(end, i))
            =~= mid.pending.dom().filter(|i: int| waits(mid, i)));
    }
}

/// A proposal that is put away waits under a number of its own: one more waits,
/// and nothing else changes. So it can be rejected, or accepted, once.
pub proof fn queued_proposals_wait(
    st: StoreView,
    p: ProposalView,
    candidate_json: Seq<char>,
    now: Seq<char>,
)
    requires
        st.pending.dom().finite(),
        forall|id: int| #[trigger] st.pending.contains_key(id) ==> id <= st.last_pending,
    ensures
        match executed(st, ledger::pending_of(p, candidate_json, now)) {
            None => false,
            Some((end, changed)) => {
                let id = st.last_pending + 1;
                &&& changed == 1
                &&& !st.pending.contains_key(id)
                &&& waits(end, id)
                &&& end.pending[id] == (PendingRecord {
                    kind: p.kind,
                    proposed_at: now,
                    profile_id: p.target_profile_id,
                    candidate: candidate_json,
                    rationale: p.rationale,
                    score: SqlView::Fraction(p.score),
                    state: "pending"@,
                    resolved_at: None,
                    resolved_note: None,
                })
                &&& waiting(end) == waiting(st) + 1
                &&& end == (StoreView { pending: end.pending, last_pending: id, ..st })
                &&& forall|other: int| #[trigger]
                    st.pending.contains_key(other) ==> end.pending.contains_key(other)
                        && end.pending[other] == st.pending[other]
                &&& end.pending.dom().finite()
                &&& forall|other: int| #[trigger]
                    end.pending.contains_key(other) ==> other <= end.last_pending
            },
        },
{
    statements_differ();
    let id = st.last_pending + 1;
    if let Some((end, _)) = executed(st, ledger::pending_of(p, candidate_json, now)) {
        let before = st.pending.dom().filter(|i: int| waits(st, i));
        let after = end.pending.dom().filter(|i: int| waits(end, i));
        assert(after =~= before.insert(id));
    }
}

/// A scan that was begun takes evidence and results from then on, also once it
/// is finished; and what is noted of scans changes no profile, no evidence, no
/// proposal and nothing in the audit log.
pub proof fn scans_are_kept_apart(
    st: StoreView,
    id: Seq<char>,
    now: Seq<char>,
    usernames_json: Seq<char>,
    site_count: usize,
    hits: usize,
)
    ensures
        match executed(st, ledger::scan_start_of(id, now, usernames_json, site_count)) {
            None => st.scans.contains_key(id),
            Some((end, _)) => !st.scans.contains_key(id) && end == (StoreView {
                scans: st.scans.insert(id, end.scans[id]),
                ..st
            }) && end.scans.contains_key(id),
        },
        match executed(st, ledger::scan_finish_of(id, now, hits)) {
            None => false,
            Some((end, changed)) => {
                &&& end == (StoreView { scans: end.scans, ..st })
                &&& end.scans.dom() == st.scans.dom()
                &&& changed == 1 <==> st.scans.contains_key(id)
                &&& changed == 1 ==> end.scans[id].hits == (hits as i64) as int
                    && end.scans[id].finished_at == Some(now)
            },
        },
{
    statements_differ();
    if let Some((end, _)) = executed(st, ledger::scan_finish_of(id, now, hits)) {
        assert(end.scans.dom() =~= st.scans.dom());
    }
}

} // verus!
