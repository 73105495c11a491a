//! What the ledger's questions are answered, given the rows that the database
//! holds: which rows each reading statement asks for, with which columns, and in
//! what order.

use vstd::prelude::*;

use crate::ledger;
use crate::ledger::{SqlView, StatementView};
use crate::proposal::{EvidenceView, ProposalView};
use crate::store;
use crate::store::{PendingRecord, ProfileRecord, StoreView};

verus! {

/// How much evidence a profile has.
pub open spec fn evidence_count(rows: Seq<Seq<SqlView>>, id: Seq<char>) -> nat
    decreases rows.len(),
{
    if rows.len() == 0 {
        0
    } else {
        evidence_count(rows.drop_last(), id) + if rows.last()[0] == SqlView::Text(id) {
            1nat
        } else {
            0
        }
    }
}

/// A profile as it is listed: number, label, when it was made and last changed,
/// and how much evidence it has.
pub open spec fn profile_row(st: StoreView, id: Seq<char>) -> Seq<SqlView> {
    seq![
        SqlView::Text(id),
        SqlView::Text(st.profiles[id].label),
        SqlView::Text(st.profiles[id].created_at),
        SqlView::Text(st.profiles[id].updated_at),
        SqlView::Integer(evidence_count(st.evidence, id) as i64),
    ]
}

/// A profile as it is shown alone: number, label, when it was made and last
/// changed, and the note.
pub open spec fn profile_head(st: StoreView, id: Seq<char>) -> Seq<SqlView> {
    seq![
        SqlView::Text(id),
        SqlView::Text(st.profiles[id].label),
        SqlView::Text(st.profiles[id].created_at),
        SqlView::Text(st.profiles[id].updated_at),
        ledger::optional_text(st.profiles[id].note),
    ]
}

/// A piece of evidence as it is shown: site, URL, username, field, value,
/// confidence, and when it was seen.
pub open spec fn evidence_shown(row: Seq<SqlView>) -> Seq<SqlView> {
    seq![row[3], row[4], row[2], row[5], row[6], row[7], row[8]]
}

/// A proposal as it is listed.
pub open spec fn pending_row(st: StoreView, id: int) -> Seq<SqlView> {
    seq![
        SqlView::Integer(id as i64),
        SqlView::Text(st.pending[id].kind),
        SqlView::Text(st.pending[id].proposed_at),
        ledger::optional_text(st.pending[id].profile_id),
        SqlView::Text(st.pending[id].candidate),
        SqlView::Text(st.pending[id].rationale),
        st.pending[id].score,
    ]
}

/// An entry of the audit log as it is listed. Entries are numbered from one.
pub open spec fn audit_row(st: StoreView, i: int) -> Seq<SqlView> {
    seq![
        SqlView::Integer((i + 1) as i64),
        SqlView::Text(st.audit[i].at),
        SqlView::Text(st.audit[i].action),
        ledger::optional_text(st.audit[i].detail),
    ]
}

/// How many entries of the audit log are asked for: no more than `limit`, or
/// all of them where that is negative.
pub open spec fn audit_asked(st: StoreView, limit: int) -> nat {
    if 0 <= limit < st.audit.len() {
        limit as nat
    } else {
        st.audit.len()
    }
}

/// The last entries of the audit log, the newest first.
pub open spec fn audit_rows(st: StoreView, limit: int) -> Seq<Seq<SqlView>> {
    Seq::new(audit_asked(st, limit), |k: int| audit_row(st, st.audit.len() - 1 - k))
}

/// Whether some evidence with a username belongs to the profile that `row`
/// names.
pub open spec fn names_profile_of_user(st: StoreView, username: Seq<char>, row: Seq<SqlView>) -> bool {
    exists|i: int|
        0 <= i < st.evidence.len() && (#[trigger] st.evidence[i])[2] == SqlView::Text(username)
            && st.evidence[i][0] != SqlView::Null && row == seq![st.evidence[i][0]]
}

/// Whether some evidence of a value belongs to the profile that `row` names.
pub open spec fn names_profile_of_value(
    st: StoreView,
    field: Seq<char>,
    value: Seq<char>,
    row: Seq<SqlView>,
) -> bool {
    exists|i: int|
        0 <= i < st.evidence.len() && (#[trigger] st.evidence[i])[5] == SqlView::Text(field)
            && st.evidence[i][6] == SqlView::Text(value) && st.evidence[i][0] != SqlView::Null
            && row == seq![st.evidence[i][0]]
}

/// Whether `row` shows some evidence of a profile.
pub open spec fn shows_evidence_of(st: StoreView, id: Seq<char>, row: Seq<SqlView>) -> bool {
    exists|i: int|
        0 <= i < st.evidence.len() && (#[trigger] st.evidence[i])[0] == SqlView::Text(id) && row
            == evidence_shown(st.evidence[i])
}

/// The rows about profiles and their evidence that a statement asks for.
pub open spec fn profiles_selected(st: StoreView, s: StatementView) -> Set<Seq<SqlView>> {
    if s.sql == ledger::LIST_PROFILES@ {
        st.profiles.dom().map(|id: Seq<char>| profile_row(st, id))
    } else if s.sql == ledger::GET_PROFILE@ {
        let id = store::text_at(s, 0);
        if st.profiles.contains_key(id) {
            set![profile_head(st, id)]
        } else {
            Set::empty()
        }
    } else if s.sql == ledger::PROFILE_EVIDENCE@ {
        Set::new(|row: Seq<SqlView>| shows_evidence_of(st, store::text_at(s, 0), row))
    } else if s.sql == ledger::FIND_BY_USERNAME@ {
        Set::new(|row: Seq<SqlView>| names_profile_of_user(st, store::text_at(s, 0), row))
    } else {
        Set::new(
            |row: Seq<SqlView>|
                names_profile_of_value(st, store::text_at(s, 0), store::text_at(s, 1), row),
        )
    }
}

/// The rows about proposals and the audit log that a statement asks for.
pub open spec fn reviews_selected(st: StoreView, s: StatementView) -> Set<Seq<SqlView>> {
    if s.sql == ledger::LIST_PENDING@ {
        st.pending.dom().filter(|id: int| store::waits(st, id)).map(|id: int| pending_row(st, id))
    } else if s.sql == ledger::COUNT_PENDING@ {
        set![seq![SqlView::Integer(store::waiting(st) as i64)]]
    } else if s.sql == ledger::LOOK_UP_PENDING@ {
        let id = store::integer_at(s, 0);
        if st.pending.contains_key(id) {
            set![seq![SqlView::Text(st.pending[id].candidate), SqlView::Text(st.pending[id].state)]]
        } else {
            Set::empty()
        }
    } else {
        audit_rows(st, store::integer_at(s, 0)).to_set()
    }
}

/// Whether a reading statement is about profiles and their evidence.
pub open spec fn asks_for_profiles(s: StatementView) -> bool {
    s.sql == ledger::LIST_PROFILES@ || s.sql == ledger::GET_PROFILE@ || s.sql
        == ledger::PROFILE_EVIDENCE@ || s.sql == ledger::FIND_BY_USERNAME@ || s.sql
        == ledger::FIND_BY_VALUE@
}

/// The rows that a reading statement asks for.
pub open spec fn selected(st: StoreView, s: StatementView) -> Set<Seq<SqlView>> {
    if asks_for_profiles(s) {
        profiles_selected(st, s)
    } else {
        reviews_selected(st, s)
    }
}

/// Whether `a` comes before `b`, or is `b`, in the order of their characters.
pub open spec fn is_up_to(a: Seq<char>, b: Seq<char>) -> bool
    decreases a.len(),
{
    if a.len() == 0 {
        true
    } else if b.len() == 0 {
        false
    } else if a[0] != b[0] {
        (a[0] as int) < (b[0] as int)
    } else {
        is_up_to(a.skip(1), b.skip(1))
    }
}

/// The text in a column of a row.
pub open spec fn column_text(row: Seq<SqlView>, column: int) -> Seq<char> {
    match row[column] {
        SqlView::Text(t) => t,
        _ => Seq::empty(),
    }
}

/// Whether rows stand with the greatest text in a column first.
pub open spec fn is_falling(rows: Seq<Seq<SqlView>>, column: int) -> bool {
    forall|i: int, j: int|
        0 <= i < j < rows.len() ==> is_up_to(
            column_text(#[trigger] rows[j], column),
            column_text(#[trigger] rows[i], column),
        )
}

/// Whether rows stand in the order that a statement asks for.
pub open spec fn is_in_order(st: StoreView, s: StatementView, rows: Seq<Seq<SqlView>>) -> bool {
    if s.sql == ledger::LIST_PROFILES@ {
        is_falling(rows, 3)
    } else if s.sql == ledger::PROFILE_EVIDENCE@ {
        is_falling(rows, 6)
    } else if s.sql == ledger::LIST_PENDING@ {
        is_falling(rows, 2)
    } else if s.sql == ledger::LIST_AUDIT@ {
        rows == audit_rows(st, store::integer_at(s, 0))
    } else {
        true
    }
}

/// Whether `rows` is an answer to a reading statement: the rows that it asks
/// for, each once, in the order that it asks for; or one of them, where it asks
/// for one. Where rows tie, any order will do.
pub open spec fn answers(st: StoreView, s: StatementView, rows: Seq<Seq<SqlView>>) -> bool {
    &&& rows.no_duplicates()
    &&& is_in_order(st, s, rows)
    &&& if s.sql == ledger::FIND_BY_USERNAME@ {
        &&& rows.len() <= 1
        &&& rows.to_set().subset_of(selected(st, s))
        &&& rows.len() == 0 ==> selected(st, s) == Set::<Seq<SqlView>>::empty()
    } else {
        rows.to_set() == selected(st, s)
    }
}

/// Characters by which the texts of the questions can be told apart.
proof fn questions_differ()
    ensures
        ledger::LIST_PROFILES@[7] == 'p' && ledger::LIST_PROFILES@[8] == '.',
        ledger::FIND_BY_USERNAME@[7] == 'p' && ledger::FIND_BY_USERNAME@[8] == 'r',
        ledger::FIND_BY_VALUE@[7] == 'D',
        ledger::GET_PROFILE@[7] == 'i' && ledger::GET_PROFILE@[11] == 'l',
        ledger::PROFILE_EVIDENCE@[7] == 's',
        ledger::LIST_PENDING@[7] == 'i' && ledger::LIST_PENDING@[11] == 'k',
        ledger::COUNT_PENDING@[7] == 'C',
        ledger::LOOK_UP_PENDING@[7] == 'c',
        ledger::LIST_AUDIT@[7] == 'i' && ledger::LIST_AUDIT@[11] == 'a',
{
    reveal_strlit(
        "SELECT p.id, p.label, p.created_at, p.updated_at, (SELECT COUNT(*) FROM evidence e WHERE e.profile_id = p.id) as evidence_count FROM profiles p ORDER BY p.updated_at DESC",
    );
    reveal_strlit(
        "SELECT profile_id FROM evidence WHERE username = ?1 AND profile_id IS NOT NULL LIMIT 1",
    );
    reveal_strlit(
        "SELECT DISTINCT profile_id FROM evidence WHERE field = ?1 AND value = ?2 AND profile_id IS NOT NULL",
    );
    reveal_strlit("SELECT id, label, created_at, updated_at, note FROM profiles WHERE id = ?1");
    reveal_strlit(
        "SELECT site_name, site_url, username, field, value, confidence, seen_at FROM evidence WHERE profile_id = ?1 ORDER BY seen_at DESC",
    );
    reveal_strlit(
        "SELECT id, kind, proposed_at, profile_id, candidate, rationale, score FROM pending_merges WHERE state = 'pending' ORDER BY proposed_at DESC",
    );
    reveal_strlit("SELECT COUNT(*) FROM pending_merges WHERE state = 'pending'");
    reveal_strlit("SELECT candidate, state FROM pending_merges WHERE id = ?1");
    reveal_strlit("SELECT id, at, action, detail FROM audit_log ORDER BY id DESC LIMIT ?1");
}

/// What always holds of the rows: there are finitely many, proposals are
/// numbered from one up, and evidence is of profiles that there are.
pub open spec fn is_sound(st: StoreView) -> bool {
    &&& st.profiles.dom().finite()
    &&& st.pending.dom().finite()
    &&& st.last_pending >= 0
    &&& forall|id: int| #[trigger] st.pending.contains_key(id) ==> 1 <= id <= st.last_pending
    &&& forall|i: int|
        0 <= i < st.evidence.len() ==> ((#[trigger] st.evidence[i])[0] matches SqlView::Text(id)
            && st.profiles.contains_key(id))
}

/// No rows at all are sound.
pub proof fn empty_store_is_sound(st: StoreView)
    requires
        st.profiles == Map::<Seq<char>, ProfileRecord>::empty(),
        st.pending == Map::<int, PendingRecord>::empty(),
        st.last_pending == 0,
        st.evidence.len() == 0,
    ensures
        is_sound(st),
        store::waiting(st) == 0,
{
    assert(st.pending.dom().filter(|id: int| store::waits(st, id)) =~= Set::<int>::empty());
}

/// The ledger's operations leave sound rows sound: applying a proposal, putting
/// one away, resolving one, and noting something in the audit log.
#[verifier::rlimit(40)]
pub proof fn operations_keep_the_rows_sound(
    st: StoreView,
    p: ProposalView,
    new_id: Seq<char>,
    candidate_json: Seq<char>,
    sql: Seq<char>,
    id: i64,
    note: Option<Seq<char>>,
    action: Seq<char>,
    now: Seq<char>,
)
    requires
        is_sound(st),
        sql == ledger::ACCEPT_PENDING@ || sql == ledger::REJECT_PENDING@,
    ensures
        store::executed_all(st, ledger::application_of(p, new_id, now)) matches Some(end)
            ==> is_sound(end),
        store::executed(st, ledger::pending_of(p, candidate_json, now)) matches Some((end, _))
            ==> is_sound(end),
        store::executed(st, ledger::resolution_of(sql, id, note, now)) matches Some((end, _))
            ==> is_sound(end),
        is_sound(store::with_audit(st, action, note, now)),
{
    store::applied_proposals_are_stored(st, p, new_id, now);
    store::queued_proposals_wait(st, p, candidate_json, now);
    store::resolutions_keep_the_numbers(st, sql, id, note, now);
    if let Some(end) = store::executed_all(st, ledger::application_of(p, new_id, now)) {
        let target = ledger::target_of(p, new_id);
        assert forall|i: int| 0 <= i < end.evidence.len() implies ((
        #[trigger] end.evidence[i])[0] matches SqlView::Text(o) && end.profiles.contains_key(
            o,
        )) by {
            if i < st.evidence.len() {
                assert(end.evidence[i] == st.evidence[i]);
                let o = st.evidence[i][0]->Text_0;
                assert(st.profiles.contains_key(o));
                assert(st.profiles.dom().contains(o));
                assert(end.profiles.dom().contains(o));
            } else {
                assert(store::is_piece_of(
                    end.evidence[i],
                    p,
                    target,
                    p.evidence.len(),
                    now,
                ));
                assert(end.profiles.dom().contains(target));
            }
        }
    }
}

proof fn one_row_answers(rows: Seq<Seq<SqlView>>, row: Seq<SqlView>)
    requires
        rows.no_duplicates(),
        rows.to_set() == set![row],
    ensures
        rows == seq![row],
{
    rows.unique_seq_to_set();
    assert(rows.to_set().len() == 1);
    assert(rows.to_set().contains(rows[0]));
    assert(rows =~= seq![row]);
}

proof fn no_row_answers(rows: Seq<Seq<SqlView>>)
    requires
        rows.to_set() == Set::<Seq<SqlView>>::empty(),
    ensures
        rows.len() == 0,
{
    if rows.len() > 0 {
        assert(rows.to_set().contains(rows[0]));
    }
}

/// Whether `row` shows a proposal that waits.
pub open spec fn shows_one_that_waits(st: StoreView, row: Seq<SqlView>) -> bool {
    exists|id: int| #[trigger] store::waits(st, id) && row == pending_row(st, id)
}

/// The count of proposals is that of those that wait; the list of proposals
/// holds each of those, once, and no other.
pub proof fn those_that_wait_are_counted_and_listed(
    st: StoreView,
    count: Seq<Seq<SqlView>>,
    list: Seq<Seq<SqlView>>,
)
    requires
        is_sound(st),
        st.last_pending <= i64::MAX,
        answers(st, ledger::plain_statement(ledger::COUNT_PENDING@), count),
        answers(st, ledger::plain_statement(ledger::LIST_PENDING@), list),
    ensures
        store::waiting(st) <= i64::MAX,
        count == seq![seq![SqlView::Integer(store::waiting(st) as i64)]],
        list.len() == store::waiting(st),
        forall|id: int| #[trigger]
            store::waits(st, id) ==> list.contains(pending_row(st, id)),
        forall|i: int| 0 <= i < list.len() ==> shows_one_that_waits(st, #[trigger] list[i]),
        is_falling(list, 2),
{
    questions_differ();
    one_row_answers(count, seq![SqlView::Integer(store::waiting(st) as i64)]);
    let ids = st.pending.dom().filter(|id: int| store::waits(st, id));
    let numbers = vstd::set_lib::set_int_range(1, st.last_pending + 1);
    vstd::set_lib::lemma_int_range(1, st.last_pending + 1);
    assert(ids.subset_of(numbers)) by {
        assert forall|id: int| ids.contains(id) implies numbers.contains(id) by {
            assert(st.pending.contains_key(id));
        }
    }
    vstd::set_lib::lemma_len_subset(ids, numbers);
    let f = |id: int| pending_row(st, id);
    let rows = ids.map(f);
    assert(list.to_set() == rows);
    assert(vstd::relations::injective_on(f, ids)) by {
        assert forall|a: int, b: int|
            ids.contains(a) && ids.contains(b) && #[trigger] f(a) == #[trigger] f(b) implies a
            == b by {
            assert(st.pending.contains_key(a) && st.pending.contains_key(b));
            assert(f(a)[0] == SqlView::Integer(a as i64));
            assert(f(b)[0] == SqlView::Integer(b as i64));
        }
    }
    vstd::set_lib::lemma_map_size(ids, rows, f);
    list.unique_seq_to_set();
    assert forall|id: int| #[trigger] store::waits(st, id) implies list.contains(
        pending_row(st, id),
    ) by {
        assert(ids.contains(id));
        assert(rows.contains(f(id)));
        assert(list.to_set().contains(pending_row(st, id)));
    }
    assert forall|i: int| 0 <= i < list.len() implies shows_one_that_waits(
        st,
        #[trigger] list[i],
    ) by {
        assert(list.to_set().contains(list[i]));
        let id = choose|id: int| ids.contains(id) && list[i] == f(id);
        assert(store::waits(st, id));
    }
}

/// Looking up a proposal by its number gives what is stored of it and its
/// state, and nothing where there is none.
pub proof fn look_ups_give_the_state(st: StoreView, id: i64, rows: Seq<Seq<SqlView>>)
    requires
        answers(
            st,
            StatementView {
                sql: ledger::LOOK_UP_PENDING@,
                params: seq![SqlView::Integer(id)],
            },
            rows,
        ),
    ensures
        st.pending.contains_key(id as int) ==> rows == seq![
            seq![
                SqlView::Text(st.pending[id as int].candidate),
                SqlView::Text(st.pending[id as int].state),
            ],
        ],
        !st.pending.contains_key(id as int) ==> rows.len() == 0,
{
    questions_differ();
    if st.pending.contains_key(id as int) {
        one_row_answers(
            rows,
            seq![
                SqlView::Text(st.pending[id as int].candidate),
                SqlView::Text(st.pending[id as int].state),
            ],
        );
    } else {
        no_row_answers(rows);
    }
}

/// The audit log is listed with the newest entry first, and no further than was
/// asked for: what was noted last stands at the top.
pub proof fn audit_is_listed_newest_first(
    st: StoreView,
    action: Seq<char>,
    detail: Option<Seq<char>>,
    at: Seq<char>,
    limit: i64,
    rows: Seq<Seq<SqlView>>,
)
    requires
        answers(
            store::with_audit(st, action, detail, at),
            StatementView { sql: ledger::LIST_AUDIT@, params: seq![SqlView::Integer(limit)] },
            rows,
        ),
    ensures
        rows.len() == if 0 <= limit <= st.audit.len() {
            limit as nat
        } else {
            st.audit.len() + 1
        },
        rows.len() > 0 ==> rows[0] == seq![
            SqlView::Integer((st.audit.len() + 1) as i64),
            SqlView::Text(at),
            SqlView::Text(action),
            ledger::optional_text(detail),
        ],
        forall|k: int|
            0 < k < rows.len() ==> #[trigger] rows[k] == audit_row(st, st.audit.len() - k),
{
    questions_differ();
    let now = store::with_audit(st, action, detail, at);
    assert(rows == audit_rows(now, limit as int));
    assert forall|k: int| 0 < k < rows.len() implies #[trigger] rows[k] == audit_row(
        st,
        st.audit.len() - k,
    ) by {
        assert(rows[k] == audit_row(now, st.audit.len() - k));
    }
}

proof fn counts_are_joined(a: Seq<Seq<SqlView>>, b: Seq<Seq<SqlView>>, id: Seq<char>)
    ensures
        evidence_count(a + b, id) == evidence_count(a, id) + evidence_count(b, id),
    decreases b.len(),
{
    if b.len() == 0 {
        assert(a + b =~= a);
    } else {
        counts_are_joined(a, b.drop_last(), id);
        assert((a + b).drop_last() =~= a + b.drop_last());
        assert((a + b).last() == b.last());
    }
}

proof fn rows_of_one_profile_are_counted(
    rows: Seq<Seq<SqlView>>,
    owner: Seq<char>,
    id: Seq<char>,
)
    requires
        forall|i: int| 0 <= i < rows.len() ==> (#[trigger] rows[i])[0] == SqlView::Text(owner),
    ensures
        evidence_count(rows, id) == if id == owner {
            rows.len()
        } else {
            0
        },
    decreases rows.len(),
{
    if rows.len() > 0 {
        let rest = rows.drop_last();
        assert forall|i: int| 0 <= i < rest.len() implies (#[trigger] rest[i])[0] == SqlView::Text(
            owner,
        ) by {
            assert(rest[i] == rows[i]);
        }
        rows_of_one_profile_are_counted(rest, owner, id);
        assert(rows[rows.len() - 1] == rows.last());
    }
}

proof fn absent_profiles_have_no_evidence(rows: Seq<Seq<SqlView>>, id: Seq<char>)
    requires
        forall|i: int| 0 <= i < rows.len() ==> (#[trigger] rows[i])[0] != SqlView::Text(id),
    ensures
        evidence_count(rows, id) == 0,
    decreases rows.len(),
{
    if rows.len() > 0 {
        let rest = rows.drop_last();
        assert forall|i: int| 0 <= i < rest.len() implies (#[trigger] rest[i])[0] != SqlView::Text(
            id,
        ) by {
            assert(rest[i] == rows[i]);
        }
        absent_profiles_have_no_evidence(rest, id);
        assert(rows[rows.len() - 1] == rows.last());
    }
}

/// Applying a proposal adds to the evidence of its profile what was added at
/// all, and to that of no other profile. Where the profile is new and no piece
/// of evidence comes twice, that is one for each piece.
#[verifier::rlimit(40)]
pub proof fn applied_evidence_is_counted(
    st: StoreView,
    p: ProposalView,
    new_id: Seq<char>,
    now: Seq<char>,
    id: Seq<char>,
)
    requires
        is_sound(st),
        store::can_apply(st, p, new_id),
    ensures
        ({
            let end = store::executed_all(st, ledger::application_of(p, new_id, now))->0;
            let target = ledger::target_of(p, new_id);
            &&& evidence_count(end.evidence, id) == evidence_count(st.evidence, id) + if id
                == target {
                (end.evidence.len() - st.evidence.len()) as nat
            } else {
                0
            }
            &&& p.target_profile_id is None ==> evidence_count(st.evidence, new_id) == 0
            &&& p.target_profile_id is None && store::pieces_differ(p) ==> evidence_count(
                end.evidence,
                new_id,
            ) == p.evidence.len()
        }),
{
    store::applied_proposals_are_stored(st, p, new_id, now);
    let end = store::executed_all(st, ledger::application_of(p, new_id, now))->0;
    let target = ledger::target_of(p, new_id);
    let added = end.evidence.skip(st.evidence.len() as int);
    assert(end.evidence =~= st.evidence + added);
    assert forall|i: int| 0 <= i < added.len() implies (#[trigger] added[i])[0] == SqlView::Text(
        target,
    ) by {
        let row = end.evidence[st.evidence.len() + i];
        assert(added[i] == row);
        assert(store::is_piece_of(row, p, target, p.evidence.len(), now));
    }
    counts_are_joined(st.evidence, added, id);
    rows_of_one_profile_are_counted(added, target, id);
    if p.target_profile_id is None {
        assert forall|i: int| 0 <= i < st.evidence.len() implies (#[trigger] st.evidence[i])[0]
            != SqlView::Text(new_id) by {
            assert(!st.profiles.contains_key(new_id));
        }
        absent_profiles_have_no_evidence(st.evidence, new_id);
        if store::pieces_differ(p) {
            assert(store::is_all_new(st, p, target, now)) by {
                assert forall|i: int| 0 <= i < p.evidence.len() implies !store::has_evidence(
                    st,
                    (#[trigger] ledger::evidence_row_of(p, target, p.evidence[i], now)).params,
                ) by {
                    let wanted = ledger::evidence_row_of(p, target, p.evidence[i], now).params;
                    assert forall|j: int| 0 <= j < st.evidence.len() implies store::evidence_key(
                        #[trigger] st.evidence[j],
                    ) != store::evidence_key(wanted) by {
                        assert(wanted[0] == SqlView::Text(new_id));
                        assert(st.evidence[j][0] != SqlView::Text(new_id));
                    }
                }
            }
            store::new_evidence_is_all_added(st, p, new_id, now);
            counts_are_joined(st.evidence, added, new_id);
            rows_of_one_profile_are_counted(added, target, new_id);
        }
    }
}

/// A profile that a proposal has made is among the profiles that are listed,
/// under its label and with its count of evidence; so are all that were there,
/// as they were; and no other is.
#[verifier::rlimit(40)]
pub proof fn new_profiles_are_listed(
    st: StoreView,
    p: ProposalView,
    new_id: Seq<char>,
    now: Seq<char>,
    rows: Seq<Seq<SqlView>>,
)
    requires
        is_sound(st),
        store::can_apply(st, p, new_id),
        p.target_profile_id is None,
        answers(
            store::executed_all(st, ledger::application_of(p, new_id, now))->0,
            ledger::plain_statement(ledger::LIST_PROFILES@),
            rows,
        ),
    ensures
        ({
            let end = store::executed_all(st, ledger::application_of(p, new_id, now))->0;
            &&& rows.len() == st.profiles.dom().len() + 1
            &&& rows.contains(profile_row(end, new_id))
            &&& profile_row(end, new_id)[1] == SqlView::Text(
                match p.new_label {
                    Some(l) => l,
                    None => Seq::empty(),
                },
            )
            &&& store::pieces_differ(p) ==> profile_row(end, new_id)[4] == SqlView::Integer(
                p.evidence.len() as i64,
            )
            &&& forall|id: Seq<char>| #[trigger]
                st.profiles.contains_key(id) ==> rows.contains(profile_row(st, id))
            &&& is_falling(rows, 3)
        }),
{
    questions_differ();
    store::applied_proposals_are_stored(st, p, new_id, now);
    let end = store::executed_all(st, ledger::application_of(p, new_id, now))->0;
    applied_evidence_is_counted(st, p, new_id, now, new_id);
    profiles_are_listed_once(end, rows);
    assert(end.profiles.contains_key(new_id));
    assert forall|id: Seq<char>| #[trigger] st.profiles.contains_key(id) implies rows.contains(
        profile_row(st, id),
    ) by {
        assert(id != new_id);
        assert(end.profiles.contains_key(id));
        applied_evidence_is_counted(st, p, new_id, now, id);
        assert(profile_row(end, id) =~= profile_row(st, id));
    }
}

/// The list of profiles holds each profile once, the one that changed last
/// first.
pub proof fn profiles_are_listed_once(st: StoreView, rows: Seq<Seq<SqlView>>)
    requires
        st.profiles.dom().finite(),
        answers(st, ledger::plain_statement(ledger::LIST_PROFILES@), rows),
    ensures
        rows.len() == st.profiles.dom().len(),
        forall|id: Seq<char>| #[trigger]
            st.profiles.contains_key(id) ==> rows.contains(profile_row(st, id)),
        forall|i: int|
            0 <= i < rows.len() ==> st.profiles.contains_key(column_text(#[trigger] rows[i], 0))
                && rows[i] == profile_row(st, column_text(rows[i], 0)),
        is_falling(rows, 3),
{
    questions_differ();
    let ids = st.profiles.dom();
    let f = |id: Seq<char>| profile_row(st, id);
    let all = ids.map(f);
    assert(rows.to_set() == all);
    assert(vstd::relations::injective_on(f, ids)) by {
        assert forall|a: Seq<char>, b: Seq<char>|
            ids.contains(a) && ids.contains(b) && #[trigger] f(a) == #[trigger] f(b) implies a
            == b by {
            assert(f(a)[0] == SqlView::Text(a));
            assert(f(b)[0] == SqlView::Text(b));
        }
    }
    vstd::set_lib::lemma_map_size(ids, all, f);
    rows.unique_seq_to_set();
    assert forall|id: Seq<char>| #[trigger] st.profiles.contains_key(id) implies rows.contains(
        profile_row(st, id),
    ) by {
        assert(ids.contains(id));
        assert(all.contains(f(id)));
        assert(rows.to_set().contains(profile_row(st, id)));
    }
    assert forall|i: int| 0 <= i < rows.len() implies (st.profiles.contains_key(
        column_text(#[trigger] rows[i], 0),
    ) && rows[i] == profile_row(st, column_text(rows[i], 0))) by {
        assert(rows.to_set().contains(rows[i]));
        let id = choose|id: Seq<char>| ids.contains(id) && rows[i] == f(id);
        assert(rows[i][0] == SqlView::Text(id));
    }
}

/// Whether some row shows a piece of evidence from where a proposal had it.
pub open spec fn shows_piece(rows: Seq<Seq<SqlView>>, p: ProposalView, e: EvidenceView) -> bool {
    exists|k: int|
        0 <= k < rows.len() && (#[trigger] rows[k])[0] == SqlView::Text(p.site_name) && rows[k][2]
            == SqlView::Text(p.username) && rows[k][3] == SqlView::Text(e.field) && rows[k][4]
            == SqlView::Text(e.value)
}

/// A profile is shown with its label and note where there is one, and with all
/// evidence that a proposal has brought it.
#[verifier::rlimit(40)]
pub proof fn applied_evidence_is_shown(
    st: StoreView,
    p: ProposalView,
    new_id: Seq<char>,
    now: Seq<char>,
    head: Seq<Seq<SqlView>>,
    rows: Seq<Seq<SqlView>>,
)
    requires
        store::can_apply(st, p, new_id),
        p.evidence.len() > 0 || p.target_profile_id is None,
        answers(
            store::executed_all(st, ledger::application_of(p, new_id, now))->0,
            StatementView {
                sql: ledger::GET_PROFILE@,
                params: seq![SqlView::Text(ledger::target_of(p, new_id))],
            },
            head,
        ),
        answers(
            store::executed_all(st, ledger::application_of(p, new_id, now))->0,
            StatementView {
                sql: ledger::PROFILE_EVIDENCE@,
                params: seq![SqlView::Text(ledger::target_of(p, new_id))],
            },
            rows,
        ),
    ensures
        ({
            let end = store::executed_all(st, ledger::application_of(p, new_id, now))->0;
            let target = ledger::target_of(p, new_id);
            &&& head == seq![profile_head(end, target)]
            &&& forall|i: int|
                0 <= i < p.evidence.len() ==> shows_piece(rows, p, #[trigger] p.evidence[i])
            &&& is_falling(rows, 6)
        }),
{
    questions_differ();
    store::applied_proposals_are_stored(st, p, new_id, now);
    let end = store::executed_all(st, ledger::application_of(p, new_id, now))->0;
    let target = ledger::target_of(p, new_id);
    assert(end.profiles.contains_key(target));
    one_row_answers(head, profile_head(end, target));
    assert forall|i: int| 0 <= i < p.evidence.len() implies shows_piece(
        rows,
        p,
        #[trigger] p.evidence[i],
    ) by {
        let wanted = ledger::evidence_row_of(p, target, p.evidence[i], now).params;
        assert(store::has_evidence(end, wanted));
        let j = choose|j: int|
            0 <= j < end.evidence.len() && store::evidence_key(#[trigger] end.evidence[j])
                == store::evidence_key(wanted);
        let shown = evidence_shown(end.evidence[j]);
        assert(end.evidence[j][0] == SqlView::Text(target));
        assert(shows_evidence_of(end, target, shown));
        assert(rows.to_set().contains(shown));
        let k = choose|k: int| 0 <= k < rows.len() && rows[k] == shown;
        assert(rows[k][0] == wanted[3] && rows[k][2] == wanted[2] && rows[k][3] == wanted[5]
            && rows[k][4] == wanted[6]);
    }
}

/// What a proposal has brought is found again: its username leads to a profile
/// that has it, and each of its values leads, among others, to its profile. So
/// what comes later goes to a profile that there is.
#[verifier::rlimit(40)]
pub proof fn applied_evidence_is_found(
    st: StoreView,
    p: ProposalView,
    new_id: Seq<char>,
    now: Seq<char>,
    by_name: Seq<Seq<SqlView>>,
    i: int,
    by_value: Seq<Seq<SqlView>>,
)
    requires
        is_sound(st),
        store::can_apply(st, p, new_id),
        0 <= i < p.evidence.len(),
        answers(
            store::executed_all(st, ledger::application_of(p, new_id, now))->0,
            StatementView {
                sql: ledger::FIND_BY_USERNAME@,
                params: seq![SqlView::Text(p.username)],
            },
            by_name,
        ),
        answers(
            store::executed_all(st, ledger::application_of(p, new_id, now))->0,
            StatementView {
                sql: ledger::FIND_BY_VALUE@,
                params: seq![
                    SqlView::Text(p.evidence[i].field),
                    SqlView::Text(p.evidence[i].value),
                ],
            },
            by_value,
        ),
    ensures
        ({
            let end = store::executed_all(st, ledger::application_of(p, new_id, now))->0;
            &&& by_name.len() == 1
            &&& names_profile_of_user(end, p.username, by_name[0])
            &&& by_value.contains(seq![SqlView::Text(ledger::target_of(p, new_id))])
        }),
{
    questions_differ();
    store::applied_proposals_are_stored(st, p, new_id, now);
    let end = store::executed_all(st, ledger::application_of(p, new_id, now))->0;
    let target = ledger::target_of(p, new_id);
    let wanted = ledger::evidence_row_of(p, target, p.evidence[i], now).params;
    let row = seq![SqlView::Text(target)];
    assert(store::has_evidence(end, wanted));
    let j = choose|j: int|
        0 <= j < end.evidence.len() && store::evidence_key(#[trigger] end.evidence[j])
            == store::evidence_key(wanted);
    assert(end.evidence[j][0] == wanted[0] && end.evidence[j][2] == wanted[2]
        && end.evidence[j][5] == wanted[5] && end.evidence[j][6] == wanted[6]);
    assert(row == seq![end.evidence[j][0]]);
    assert(names_profile_of_user(end, p.username, row));
    assert(names_profile_of_value(end, p.evidence[i].field, p.evidence[i].value, row));
    assert(by_value.to_set().contains(row));
    let name_statement = StatementView {
        sql: ledger::FIND_BY_USERNAME@,
        params: seq![SqlView::Text(p.username)],
    };
    assert(selected(end, name_statement).contains(row));
    assert(by_name.len() == 1);
    assert(by_name.to_set().contains(by_name[0]));
}

/// What is read back once a proposal for a new profile was accepted: one profile
/// more is listed, under its label and with its count of evidence; one proposal
/// fewer waits; looked up, the proposal is accepted; and the audit log says so at
/// the top.
#[verifier::rlimit(40)]
pub proof fn accepted_proposals_are_read_back(
    st: StoreView,
    id: i64,
    p: ProposalView,
    note: Option<Seq<char>>,
    new_id: Seq<char>,
    applied_at: Seq<char>,
    at: Seq<char>,
    noted_at: Seq<char>,
    profiles: Seq<Seq<SqlView>>,
    count: Seq<Seq<SqlView>>,
    list: Seq<Seq<SqlView>>,
    found: Seq<Seq<SqlView>>,
    audit: Seq<Seq<SqlView>>,
    limit: i64,
)
    requires
        is_sound(st),
        st.last_pending <= i64::MAX,
        store::waits(st, id as int),
        store::can_apply(st, p, new_id),
        p.target_profile_id is None,
        limit > 0,
        ({
            let end = store::acceptance(st, id, p, note, new_id, applied_at, at, noted_at).1;
            &&& answers(end, ledger::plain_statement(ledger::LIST_PROFILES@), profiles)
            &&& answers(end, ledger::plain_statement(ledger::COUNT_PENDING@), count)
            &&& answers(end, ledger::plain_statement(ledger::LIST_PENDING@), list)
            &&& answers(
                end,
                StatementView {
                    sql: ledger::LOOK_UP_PENDING@,
                    params: seq![SqlView::Integer(id)],
                },
                found,
            )
            &&& answers(
                end,
                StatementView { sql: ledger::LIST_AUDIT@, params: seq![SqlView::Integer(limit)] },
                audit,
            )
        }),
    ensures
        ({
            let (ok, end) = store::acceptance(st, id, p, note, new_id, applied_at, at, noted_at);
            &&& ok
            &&& profiles.len() == st.profiles.dom().len() + 1
            &&& profiles.contains(profile_row(end, new_id))
            &&& profile_row(end, new_id)[1] == SqlView::Text(
                match p.new_label {
                    Some(l) => l,
                    None => Seq::empty(),
                },
            )
            &&& store::pieces_differ(p) ==> profile_row(end, new_id)[4] == SqlView::Integer(
                p.evidence.len() as i64,
            )
            &&& count == seq![seq![SqlView::Integer((store::waiting(st) - 1) as i64)]]
            &&& list.len() == store::waiting(st) - 1
            &&& found.len() == 1 && found[0][1] == SqlView::Text("accepted"@)
            &&& audit.len() > 0 && audit[0][2] == SqlView::Text("review_accept"@) && audit[0][3]
                == SqlView::Text(ledger::review_detail("accepted"@, id, note))
        }),
{
    store::proposals_are_accepted_once(st, id, p, note, new_id, applied_at, at, noted_at);
    store::applied_proposals_are_stored(st, p, new_id, applied_at);
    let applied = store::executed_all(st, ledger::application_of(p, new_id, applied_at))->0;
    let resolved = store::with_resolution(applied, id as int, "accepted"@, at, note);
    let detail = ledger::review_detail("accepted"@, id, note);
    let end = store::acceptance(st, id, p, note, new_id, applied_at, at, noted_at).1;
    assert(end == store::with_audit(resolved, "review_accept"@, Some(detail), noted_at));
    applied_evidence_is_counted(st, p, new_id, applied_at, new_id);
    assert(end.profiles == applied.profiles && end.evidence == applied.evidence);
    profiles_are_listed_once(end, profiles);
    assert(end.profiles.contains_key(new_id));
    operations_keep_the_rows_sound(
        st,
        p,
        new_id,
        Seq::empty(),
        ledger::ACCEPT_PENDING@,
        id,
        note,
        Seq::empty(),
        applied_at,
    );
    assert(end.pending.dom() =~= st.pending.dom());
    assert(is_sound(end));
    those_that_wait_are_counted_and_listed(end, count, list);
    look_ups_give_the_state(end, id, found);
    audit_is_listed_newest_first(
        resolved,
        "review_accept"@,
        Some(detail),
        noted_at,
        limit,
        audit,
    );
}

} // verus!
