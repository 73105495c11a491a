//! What the vault's database is asked and told: the statements for each
//! operation, with their parameters, and what is made of the answers. What the
//! statements mean is said in `store`.

use vstd::prelude::*;
use vstd::string::*;

use crate::outside;
use crate::outside::{fresh_id, show_optional, utc_now};
use crate::proposal::{auto_accept_detail, EvidenceRow, EvidenceView, Proposal, ProposalView, Score};
use crate::sites;
use crate::text;
use crate::text::{decimal_i64, str_eq};
use crate::vault::VaultError;

verus! {

/// A parameter of a statement.
#[derive(Debug)]
pub enum SqlValue {
    Null,
    Integer(i64),
    Text(String),
    /// A score, stored as a number between zero and one.
    Fraction(Score),
}

/// The view of a `SqlValue`.
pub enum SqlView {
    Null,
    Integer(i64),
    Text(Seq<char>),
    Fraction(Score),
}

impl View for SqlValue {
    type V = SqlView;

    open spec fn view(&self) -> SqlView {
        match self {
            SqlValue::Null => SqlView::Null,
            SqlValue::Integer(n) => SqlView::Integer(*n),
            SqlValue::Text(s) => SqlView::Text(s@),
            SqlValue::Fraction(s) => SqlView::Fraction(*s),
        }
    }
}

/// A statement with its parameters.
#[derive(Debug)]
pub struct Statement {
    pub sql: &'static str,
    pub params: Vec<SqlValue>,
}

/// The view of a `Statement`.
#[verifier::ext_equal]
pub struct StatementView {
    pub sql: Seq<char>,
    pub params: Seq<SqlView>,
}

impl View for Statement {
    type V = StatementView;

    open spec fn view(&self) -> StatementView {
        StatementView { sql: self.sql@, params: sites::views(self.params@) }
    }
}

/// A text that may be missing.
pub open spec fn optional_text(o: Option<Seq<char>>) -> SqlView {
    match o {
        Some(s) => SqlView::Text(s),
        None => SqlView::Null,
    }
}

fn text_value(s: &str) -> (r: SqlValue)
    ensures
        r@ == SqlView::Text(s@),
{
    SqlValue::Text(s.to_string())
}

fn optional_value(o: &Option<String>) -> (r: SqlValue)
    ensures
        r@ == optional_text(text::opt_text(*o)),
{
    match o {
        Some(s) => SqlValue::Text(s.clone()),
        None => SqlValue::Null,
    }
}

pub const INSERT_SCAN: &'static str =
    "INSERT INTO scans (id, started_at, usernames, site_count, hits) VALUES (?1, ?2, ?3, ?4, 0)";

pub const FINISH_SCAN: &'static str =
    "UPDATE scans SET finished_at = ?1, hits = ?2 WHERE id = ?3";

pub const INSERT_RESULT: &'static str =
    "INSERT INTO scan_results (scan_id, username, site_name, site_url, status, confidence, response_time_ms, body_sha256, seen_at) VALUES (?1,?2,?3,?4,?5,?6,?7,?8,?9)";

/// The row of a scan that has begun.
pub open spec fn scan_start_of(
    id: Seq<char>,
    now: Seq<char>,
    usernames_json: Seq<char>,
    site_count: usize,
) -> StatementView {
    StatementView {
        sql: INSERT_SCAN@,
        params: seq![
            SqlView::Text(id),
            SqlView::Text(now),
            SqlView::Text(usernames_json),
            SqlView::Integer(site_count as i64),
        ],
    }
}

/// The row of a scan that has begun at `now`.
pub fn scan_start(id: &str, now: &str, usernames_json: &str, site_count: usize) -> (r: Statement)
    ensures
        r@ == scan_start_of(id@, now@, usernames_json@, site_count),
{
    let mut params: Vec<SqlValue> = Vec::new();
    params.push(text_value(id));
    params.push(text_value(now));
    params.push(text_value(usernames_json));
    params.push(SqlValue::Integer(site_count as i64));
    let r = Statement { sql: INSERT_SCAN, params };
    assert(r@ =~= scan_start_of(id@, now@, usernames_json@, site_count));
    r
}

/// A new id for a scan that begins now, and its row.
pub fn record_scan_start(usernames_json: &str, site_count: usize) -> (r: (String, Statement))
    ensures
        outside::uuid_shaped(r.0@),
        exists|now: Seq<char>|
            r.1@ == #[trigger] scan_start_of(r.0@, now, usernames_json@, site_count),
{
    let id = fresh_id();
    let now = utc_now();
    let s = scan_start(id.as_str(), now.as_str(), usernames_json, site_count);
    (id, s)
}

/// The end of a scan.
pub open spec fn scan_finish_of(scan_id: Seq<char>, now: Seq<char>, hits: usize) -> StatementView {
    StatementView {
        sql: FINISH_SCAN@,
        params: seq![SqlView::Text(now), SqlView::Integer(hits as i64), SqlView::Text(scan_id)],
    }
}

/// The end of a scan at `now`.
pub fn scan_finish(scan_id: &str, now: &str, hits: usize) -> (r: Statement)
    ensures
        r@ == scan_finish_of(scan_id@, now@, hits),
{
    let mut params: Vec<SqlValue> = Vec::new();
    params.push(text_value(now));
    params.push(SqlValue::Integer(hits as i64));
    params.push(text_value(scan_id));
    let r = Statement { sql: FINISH_SCAN, params };
    assert(r@ =~= scan_finish_of(scan_id@, now@, hits));
    r
}

/// The end of a scan, now.
pub fn record_scan_finish(scan_id: &str, hits: usize) -> (r: Statement)
    ensures
        exists|now: Seq<char>| r@ == #[trigger] scan_finish_of(scan_id@, now, hits),
{
    let now = utc_now();
    scan_finish(scan_id, now.as_str(), hits)
}

/// What is kept of a result, whatever the verdict.
#[derive(Debug)]
pub struct ResultRow {
    pub scan_id: String,
    pub username: String,
    pub site_name: String,
    pub site_url: String,
    pub status: String,
    pub confidence: u8,
    pub response_time_ms: Option<u64>,
    pub body_sha256: Option<String>,
}

/// The row of a result.
pub open spec fn scan_result_of(row: ResultRow, now: Seq<char>) -> StatementView {
    StatementView {
        sql: INSERT_RESULT@,
        params: seq![
            SqlView::Text(row.scan_id@),
            SqlView::Text(row.username@),
            SqlView::Text(row.site_name@),
            SqlView::Text(row.site_url@),
            SqlView::Text(row.status@),
            SqlView::Integer(row.confidence as i64),
            match row.response_time_ms {
                Some(t) => SqlView::Integer(t as i64),
                None => SqlView::Null,
            },
            optional_text(text::opt_text(row.body_sha256)),
            SqlView::Text(now),
        ],
    }
}

/// The row of a result that was seen at `now`.
pub fn scan_result(row: &ResultRow, now: &str) -> (r: Statement)
    ensures
        r@ == scan_result_of(*row, now@),
{
    let mut params: Vec<SqlValue> = Vec::new();
    params.push(text_value(row.scan_id.as_str()));
    params.push(text_value(row.username.as_str()));
    params.push(text_value(row.site_name.as_str()));
    params.push(text_value(row.site_url.as_str()));
    params.push(text_value(row.status.as_str()));
    params.push(SqlValue::Integer(row.confidence as i64));
    params.push(
        match row.response_time_ms {
            Some(t) => SqlValue::Integer(t as i64),
            None => SqlValue::Null,
        },
    );
    params.push(optional_value(&row.body_sha256));
    params.push(text_value(now));
    let r = Statement { sql: INSERT_RESULT, params };
    assert(r@ =~= scan_result_of(*row, now@));
    r
}

/// The row of a result that is seen now.
pub fn record_scan_result(row: &ResultRow) -> (r: Statement)
    ensures
        exists|now: Seq<char>| r@ == #[trigger] scan_result_of(*row, now),
{
    let now = utc_now();
    scan_result(row, now.as_str())
}

pub const FIND_BY_USERNAME: &'static str =
    "SELECT profile_id FROM evidence WHERE username = ?1 AND profile_id IS NOT NULL LIMIT 1";

pub const FIND_BY_VALUE: &'static str =
    "SELECT DISTINCT profile_id FROM evidence WHERE field = ?1 AND value = ?2 AND profile_id IS NOT NULL";

/// The search for a profile that has a username.
pub fn find_profile_by_username(username: &str) -> (r: Statement)
    ensures
        r@ == (StatementView {
            sql: FIND_BY_USERNAME@,
            params: seq![SqlView::Text(username@)],
        }),
{
    let mut params: Vec<SqlValue> = Vec::new();
    params.push(text_value(username));
    let r = Statement { sql: FIND_BY_USERNAME, params };
    assert(r@.params =~= seq![SqlView::Text(username@)]);
    r
}

/// The search for profiles of which a field has a value.
pub fn find_profiles_by_field_value(field: &str, value: &str) -> (r: Statement)
    ensures
        r@ == (StatementView {
            sql: FIND_BY_VALUE@,
            params: seq![SqlView::Text(field@), SqlView::Text(value@)],
        }),
{
    let mut params: Vec<SqlValue> = Vec::new();
    params.push(text_value(field));
    params.push(text_value(value));
    let r = Statement { sql: FIND_BY_VALUE, params };
    assert(r@.params =~= seq![SqlView::Text(field@), SqlView::Text(value@)]);
    r
}

pub const INSERT_PROFILE: &'static str =
    "INSERT INTO profiles (id, label, created_at, updated_at) VALUES (?1, ?2, ?3, ?3)";

pub const INSERT_EVIDENCE: &'static str =
    "INSERT OR IGNORE INTO evidence (profile_id, scan_id, username, site_name, site_url, field, value, confidence, seen_at) VALUES (?1,?2,?3,?4,?5,?6,?7,?8,?9)";

pub const TOUCH_PROFILE: &'static str = "UPDATE profiles SET updated_at = ?1 WHERE id = ?2";

/// The row of a new profile.
pub open spec fn new_profile_of(id: Seq<char>, label: Seq<char>, now: Seq<char>) -> StatementView {
    StatementView {
        sql: INSERT_PROFILE@,
        params: seq![SqlView::Text(id), SqlView::Text(label), SqlView::Text(now)],
    }
}

/// The row of one piece of evidence of a profile.
pub open spec fn evidence_row_of(
    p: ProposalView,
    profile_id: Seq<char>,
    e: EvidenceView,
    now: Seq<char>,
) -> StatementView {
    StatementView {
        sql: INSERT_EVIDENCE@,
        params: seq![
            SqlView::Text(profile_id),
            SqlView::Text(p.scan_id),
            SqlView::Text(p.username),
            SqlView::Text(p.site_name),
            SqlView::Text(p.site_url),
            SqlView::Text(e.field),
            SqlView::Text(e.value),
            SqlView::Integer(e.confidence as i64),
            SqlView::Text(now),
        ],
    }
}

/// The profile that a proposal puts its evidence to, where `id` is new.
pub open spec fn target_of(p: ProposalView, id: Seq<char>) -> Seq<char> {
    match p.target_profile_id {
        Some(t) => t,
        None => id,
    }
}

/// The statements by which a proposal is applied: the new profile where there
/// is to be one, the evidence, and the time of the change.
pub open spec fn application_of(p: ProposalView, id: Seq<char>, now: Seq<char>) -> Seq<
    StatementView,
> {
    let profile_id = target_of(p, id);
    let opening = if p.target_profile_id is Some {
        Seq::empty()
    } else {
        seq![
            new_profile_of(
                id,
                match p.new_label {
                    Some(l) => l,
                    None => Seq::empty(),
                },
                now,
            ),
        ]
    };
    opening + Seq::new(
        p.evidence.len(),
        |i: int| evidence_row_of(p, profile_id, p.evidence[i], now),
    ) + seq![
        StatementView {
            sql: TOUCH_PROFILE@,
            params: seq![SqlView::Text(now), SqlView::Text(profile_id)],
        },
    ]
}

fn evidence_statement(p: &Proposal, profile_id: &str, e: &EvidenceRow, now: &str) -> (r: Statement)
    ensures
        r@ == evidence_row_of(p@, profile_id@, e@, now@),
{
    let mut params: Vec<SqlValue> = Vec::new();
    params.push(text_value(profile_id));
    params.push(text_value(p.scan_id.as_str()));
    params.push(text_value(p.username.as_str()));
    params.push(text_value(p.site_name.as_str()));
    params.push(text_value(p.site_url.as_str()));
    params.push(text_value(e.field.as_str()));
    params.push(text_value(e.value.as_str()));
    params.push(SqlValue::Integer(e.confidence as i64));
    params.push(text_value(now));
    let r = Statement { sql: INSERT_EVIDENCE, params };
    assert(r@ =~= evidence_row_of(p@, profile_id@, e@, now@));
    r
}

fn opening_statements(p: &Proposal, id: &str, now: &str) -> (r: Vec<Statement>)
    ensures
        sites::views(r@) == if p@.target_profile_id is Some {
            Seq::empty()
        } else {
            seq![
                new_profile_of(
                    id@,
                    match p@.new_label {
                        Some(l) => l,
                        None => Seq::empty(),
                    },
                    now@,
                ),
            ]
        },
{
    let mut r: Vec<Statement> = Vec::new();
    if p.target_profile_id.is_none() {
        let label = match &p.new_label {
            Some(l) => l.clone(),
            None => String::new(),
        };
        let mut params: Vec<SqlValue> = Vec::new();
        params.push(text_value(id));
        params.push(text_value(label.as_str()));
        params.push(text_value(now));
        let s = Statement { sql: INSERT_PROFILE, params };
        assert(label@ =~= match p@.new_label {
            Some(l) => l,
            None => Seq::empty(),
        });
        assert(s@ =~= new_profile_of(id@, label@, now@));
        r.push(s);
        assert(sites::views(r@) =~= seq![new_profile_of(id@, label@, now@)]);
    } else {
        assert(sites::views(r@) =~= Seq::<StatementView>::empty());
    }
    r
}

/// The statements, of one transaction, by which a proposal is applied at `now`,
/// with `id` for a new profile.
pub fn application(p: &Proposal, id: &str, now: &str) -> (r: Vec<Statement>)
    ensures
        sites::views(r@) == application_of(p@, id@, now@),
{
    let profile_id = match &p.target_profile_id {
        Some(t) => t.clone(),
        None => id.to_string(),
    };
    let ghost pid = profile_id@;
    let mut r = opening_statements(p, id, now);
    let ghost opening = sites::views(r@);
    let ghost rows = Seq::new(
        p@.evidence.len(),
        |i: int| evidence_row_of(p@, pid, p@.evidence[i], now@),
    );
    let mut i: usize = 0;
    assert(sites::views(r@) =~= opening + rows.take(0));
    while i < p.evidence.len()
        invariant
            i <= p.evidence@.len(),
            profile_id@ == pid,
            rows == Seq::new(
                p@.evidence.len(),
                |i: int| evidence_row_of(p@, pid, p@.evidence[i], now@),
            ),
            sites::views(r@) == opening + rows.take(i as int),
        decreases p.evidence@.len() - i,
    {
        let ghost before = sites::views(r@);
        let s = evidence_statement(p, profile_id.as_str(), &p.evidence[i], now);
        assert(p@.evidence[i as int] == p.evidence@[i as int]@);
        r.push(s);
        assert(sites::views(r@) =~= before.push(s@));
        assert(sites::views(r@) =~= opening + rows.take(i + 1));
        i = i + 1;
    }
    let mut params: Vec<SqlValue> = Vec::new();
    params.push(text_value(now));
    params.push(text_value(profile_id.as_str()));
    let last = Statement { sql: TOUCH_PROFILE, params };
    assert(last@.params =~= seq![SqlView::Text(now@), SqlView::Text(pid)]);
    let ghost before = sites::views(r@);
    r.push(last);
    assert(sites::views(r@) =~= before.push(last@));
    assert(rows.take(rows.len() as int) =~= rows);
    assert(pid == target_of(p@, id@));
    assert(sites::views(r@) =~= application_of(p@, id@, now@));
    r
}

/// The profile that a proposal puts its evidence to, and the statements, of one
/// transaction, by which it is applied now.
pub fn apply_proposal(p: &Proposal) -> (r: (String, Vec<Statement>))
    ensures
        exists|id: Seq<char>, now: Seq<char>|
            outside::uuid_shaped(id) && r.0@ == target_of(p@, id) && sites::views(r.1@)
                == #[trigger] application_of(p@, id, now),
{
    let id = fresh_id();
    let now = utc_now();
    let statements = application(p, id.as_str(), now.as_str());
    let profile_id = match &p.target_profile_id {
        Some(t) => t.clone(),
        None => id.clone(),
    };
    assert(outside::uuid_shaped(id@) && profile_id@ == target_of(p@, id@)
        && sites::views(statements@) == application_of(p@, id@, now@));
    (profile_id, statements)
}

/// All evidence of a proposal goes to one profile, one row for each piece, and
/// a profile is made only where the proposal names none.
pub proof fn application_fills_one_profile(p: ProposalView, id: Seq<char>, now: Seq<char>)
    ensures
        ({
            let all = application_of(p, id, now);
            let first = if p.target_profile_id is Some { 0int } else { 1 };
            &&& all.len() == first + p.evidence.len() + 1
            &&& first == 1 ==> all[0].sql == INSERT_PROFILE@ && all[0].params[0] == SqlView::Text(
                target_of(p, id),
            )
            &&& forall|i: int|
                0 <= i < p.evidence.len() ==> all[first + i] == evidence_row_of(
                    p,
                    target_of(p, id),
                    #[trigger] p.evidence[i],
                    now,
                )
            &&& all.last().sql == TOUCH_PROFILE@ && all.last().params[1] == SqlView::Text(
                target_of(p, id),
            )
        }),
{
}

pub const INSERT_PENDING: &'static str =
    "INSERT INTO pending_merges (kind, proposed_at, profile_id, candidate, rationale, score) VALUES (?1,?2,?3,?4,?5,?6)";

/// The row of a proposal that waits for review.
pub open spec fn pending_of(
    p: ProposalView,
    candidate_json: Seq<char>,
    now: Seq<char>,
) -> StatementView {
    StatementView {
        sql: INSERT_PENDING@,
        params: seq![
            SqlView::Text(p.kind),
            SqlView::Text(now),
            optional_text(p.target_profile_id),
            SqlView::Text(candidate_json),
            SqlView::Text(p.rationale),
            SqlView::Fraction(p.score),
        ],
    }
}

/// The row of a proposal that waits for review from `now` on. `candidate_json`
/// is the proposal as it is stored.
pub fn pending(p: &Proposal, candidate_json: &str, now: &str) -> (r: Statement)
    ensures
        r@ == pending_of(p@, candidate_json@, now@),
{
    let mut params: Vec<SqlValue> = Vec::new();
    params.push(text_value(p.kind.as_str()));
    params.push(text_value(now));
    params.push(optional_value(&p.target_profile_id));
    params.push(text_value(candidate_json));
    params.push(text_value(p.rationale.as_str()));
    params.push(SqlValue::Fraction(p.score));
    let r = Statement { sql: INSERT_PENDING, params };
    assert(r@ =~= pending_of(p@, candidate_json@, now@));
    r
}

/// The row of a proposal that waits for review from now on.
pub fn queue_pending(p: &Proposal, candidate_json: &str) -> (r: Statement)
    ensures
        exists|now: Seq<char>| r@ == #[trigger] pending_of(p@, candidate_json@, now),
{
    let now = utc_now();
    pending(p, candidate_json, now.as_str())
}

pub const LIST_PROFILES: &'static str =
    "SELECT p.id, p.label, p.created_at, p.updated_at, (SELECT COUNT(*) FROM evidence e WHERE e.profile_id = p.id) as evidence_count FROM profiles p ORDER BY p.updated_at DESC";

pub const GET_PROFILE: &'static str =
    "SELECT id, label, created_at, updated_at, note FROM profiles WHERE id = ?1";

pub const PROFILE_EVIDENCE: &'static str =
    "SELECT site_name, site_url, username, field, value, confidence, seen_at FROM evidence WHERE profile_id = ?1 ORDER BY seen_at DESC";

pub const LIST_PENDING: &'static str =
    "SELECT id, kind, proposed_at, profile_id, candidate, rationale, score FROM pending_merges WHERE state = 'pending' ORDER BY proposed_at DESC";

pub const COUNT_PENDING: &'static str =
    "SELECT COUNT(*) FROM pending_merges WHERE state = 'pending'";

pub const LOOK_UP_PENDING: &'static str =
    "SELECT candidate, state FROM pending_merges WHERE id = ?1";

pub const ACCEPT_PENDING: &'static str =
    "UPDATE pending_merges SET state = 'accepted', resolved_at = ?1, resolved_note = ?2 WHERE id = ?3";

pub const REJECT_PENDING: &'static str =
    "UPDATE pending_merges SET state = 'rejected', resolved_at = ?1, resolved_note = ?2 WHERE id = ?3 AND state = 'pending'";

pub const LIST_AUDIT: &'static str =
    "SELECT id, at, action, detail FROM audit_log ORDER BY id DESC LIMIT ?1";

pub const INSERT_AUDIT: &'static str =
    "INSERT INTO audit_log (at, action, detail) VALUES (?1, ?2, ?3)";

/// A statement without parameters.
pub open spec fn plain_statement(sql: Seq<char>) -> StatementView {
    StatementView { sql, params: Seq::empty() }
}

fn plain(sql: &'static str) -> (r: Statement)
    ensures
        r@ == plain_statement(sql@),
{
    let r = Statement { sql, params: Vec::new() };
    assert(r@.params =~= Seq::<SqlView>::empty());
    r
}

/// All profiles, the one that changed last first.
pub fn list_profiles() -> (r: Statement)
    ensures
        r@ == plain_statement(LIST_PROFILES@),
{
    plain(LIST_PROFILES)
}

/// All proposals that wait for review, the newest first.
pub fn list_pending() -> (r: Statement)
    ensures
        r@ == plain_statement(LIST_PENDING@),
{
    plain(LIST_PENDING)
}

/// How many proposals wait for review.
pub fn count_pending() -> (r: Statement)
    ensures
        r@ == plain_statement(COUNT_PENDING@),
{
    plain(COUNT_PENDING)
}

/// The last `limit` entries of the audit log, the newest first.
pub fn list_audit(limit: i64) -> (r: Statement)
    ensures
        r@ == (StatementView { sql: LIST_AUDIT@, params: seq![SqlView::Integer(limit)] }),
{
    let mut params: Vec<SqlValue> = Vec::new();
    params.push(SqlValue::Integer(limit));
    let r = Statement { sql: LIST_AUDIT, params };
    assert(r@.params =~= seq![SqlView::Integer(limit)]);
    r
}

/// The row of a profile, and its evidence, the newest first.
pub fn get_profile(id: &str) -> (r: (Statement, Statement))
    ensures
        r.0@ == (StatementView { sql: GET_PROFILE@, params: seq![SqlView::Text(id@)] }),
        r.1@ == (StatementView { sql: PROFILE_EVIDENCE@, params: seq![SqlView::Text(id@)] }),
{
    let mut first: Vec<SqlValue> = Vec::new();
    first.push(text_value(id));
    let mut second: Vec<SqlValue> = Vec::new();
    second.push(text_value(id));
    let r = (
        Statement { sql: GET_PROFILE, params: first },
        Statement { sql: PROFILE_EVIDENCE, params: second },
    );
    assert(r.0@.params =~= seq![SqlView::Text(id@)]);
    assert(r.1@.params =~= seq![SqlView::Text(id@)]);
    r
}

/// The rows that could be read.
pub open spec fn readable_of<T>(rows: Seq<Option<T>>) -> Seq<T>
    decreases rows.len(),
{
    if rows.len() == 0 {
        Seq::empty()
    } else {
        match rows.last() {
            Some(r) => readable_of(rows.drop_last()).push(r),
            None => readable_of(rows.drop_last()),
        }
    }
}

/// The rows that could be read, in order.
pub fn readable<T>(rows: Vec<Option<T>>) -> (r: Vec<T>)
    ensures
        r@ == readable_of(rows@),
{
    let mut r: Vec<T> = Vec::new();
    let ghost given = rows@;
    assert(r@ =~= readable_of(given.take(0)));
    for row in it: rows
        invariant
            it.seq() == given,
            r@ == readable_of(given.take(it.index() as int)),
    {
        assert(given.take(it.index() + 1).drop_last() =~= given.take(it.index() as int));
        match row {
            Some(v) => r.push(v),
            None => {},
        }
    }
    assert(given.take(given.len() as int) =~= given);
    r
}

/// The row of a profile.
#[derive(Debug)]
pub struct ProfileRow {
    pub id: String,
    pub label: String,
    pub created_at: String,
    pub updated_at: String,
    pub note: Option<String>,
}

/// One piece of evidence of a profile, as it is shown.
#[derive(Debug)]
pub struct EvidenceEntry {
    pub site_name: String,
    pub site_url: String,
    pub username: String,
    pub field: String,
    pub value: String,
    pub confidence: i64,
    pub seen_at: String,
}

/// A profile with its evidence.
#[derive(Debug)]
pub struct ProfileDetail {
    pub profile: ProfileRow,
    pub evidence: Vec<EvidenceEntry>,
}

/// A profile with its evidence, as far as that can be read; nothing where there
/// is no such profile.
pub fn profile_detail(row: Option<ProfileRow>, evidence: Vec<Option<EvidenceEntry>>) -> (r: Option<
    ProfileDetail,
>)
    ensures
        match r {
            Some(d) => row == Some(d.profile) && d.evidence@ == readable_of(evidence@),
            None => row is None,
        },
{
    match row {
        Some(profile) => Some(ProfileDetail { profile, evidence: readable(evidence) }),
        None => None,
    }
}

/// The search for a proposal by its number.
pub fn look_up_pending(id: i64) -> (r: Statement)
    ensures
        r@ == (StatementView { sql: LOOK_UP_PENDING@, params: seq![SqlView::Integer(id)] }),
{
    let mut params: Vec<SqlValue> = Vec::new();
    params.push(SqlValue::Integer(id));
    let r = Statement { sql: LOOK_UP_PENDING, params };
    assert(r@.params =~= seq![SqlView::Integer(id)]);
    r
}

/// Whether a proposal in this state can still be accepted.
pub open spec fn still_waits(state: Seq<char>) -> bool {
    state == "pending"@
}

/// The proposal to accept, given what is stored under its number: the proposal
/// and its state. Only one that still waits can be accepted.
pub fn accept_lookup(row: Option<(String, String)>) -> (r: Result<String, VaultError>)
    ensures
        match r {
            Ok(candidate) => row matches Some((c, state)) && state@ == "pending"@ && candidate == c,
            Err(VaultError::AlreadyResolved) => row matches Some((_, state)) && state@
                != "pending"@,
            Err(e) => row is None && e is NotFound,
        },
        r is Ok <==> (row matches Some((_, state)) && still_waits(state@)),
{
    match row {
        Some((candidate, state)) => if str_eq(state.as_str(), "pending") {
            Ok(candidate)
        } else {
            Err(VaultError::AlreadyResolved)
        },
        None => Err(VaultError::NotFound),
    }
}

/// The states that a proposal has once it no longer waits.
pub open spec fn is_resolved(state: Seq<char>) -> bool {
    state == "accepted"@ || state == "rejected"@
}

/// A proposal that was accepted or rejected no longer waits: accepting it again
/// is refused.
pub proof fn resolved_is_not_pending(state: Seq<char>)
    requires
        is_resolved(state),
    ensures
        state != "pending"@,
{
    reveal_strlit("accepted");
    reveal_strlit("rejected");
    reveal_strlit("pending");
    assert("accepted"@[0] == 'a');
    assert("rejected"@[0] == 'r');
    assert("pending"@[0] == 'p');
}

/// The end of the wait of a proposal.
pub open spec fn resolution_of(
    sql: Seq<char>,
    id: i64,
    note: Option<Seq<char>>,
    now: Seq<char>,
) -> StatementView {
    StatementView { sql, params: seq![SqlView::Text(now), optional_text(note), SqlView::Integer(id)]
    }
}

fn resolution(sql: &'static str, id: i64, note: &Option<String>, now: &str) -> (r: Statement)
    ensures
        r@ == resolution_of(sql@, id, text::opt_text(*note), now@),
{
    let mut params: Vec<SqlValue> = Vec::new();
    params.push(text_value(now));
    params.push(optional_value(note));
    params.push(SqlValue::Integer(id));
    let r = Statement { sql, params };
    assert(r@ =~= resolution_of(sql@, id, text::opt_text(*note), now@));
    r
}

/// What the audit log says of a proposal that was accepted or rejected.
pub open spec fn review_detail(verb: Seq<char>, id: i64, note: Option<Seq<char>>) -> Seq<char> {
    verb + " pending#"@ + text::signed_decimal(id as int) + " note="@ + outside::debug_text(note)
}

fn detail(verb: &str, id: i64, note: &Option<String>) -> (r: String)
    ensures
        r@ == review_detail(verb@, id, text::opt_text(*note)),
{
    let mut r: String = verb.to_string();
    r.append(" pending#");
    let n = decimal_i64(id);
    r.append(n.as_str());
    r.append(" note=");
    let shown = show_optional(note);
    r.append(shown.as_str());
    r
}

/// What it means that so many rows were changed by a rejection: that `entry` is
/// to be put in the audit log, or that there was nothing to reject.
pub fn reject_outcome(updated: usize, entry: Statement) -> (r: Result<Statement, VaultError>)
    ensures
        match r {
            Ok(s) => updated > 0 && s == entry,
            Err(e) => updated == 0 && e is NotPending,
        },
{
    if updated == 0 {
        Err(VaultError::NotPending)
    } else {
        Ok(entry)
    }
}

/// An entry of the audit log.
pub open spec fn audit_of(
    action: Seq<char>,
    detail: Option<Seq<char>>,
    now: Seq<char>,
) -> StatementView {
    StatementView {
        sql: INSERT_AUDIT@,
        params: seq![SqlView::Text(now), SqlView::Text(action), optional_text(detail)],
    }
}

/// An entry of the audit log, of `now`.
pub fn audit_entry(action: &str, detail: &Option<String>, now: &str) -> (r: Statement)
    ensures
        r@ == audit_of(action@, text::opt_text(*detail), now@),
{
    let mut params: Vec<SqlValue> = Vec::new();
    params.push(text_value(now));
    params.push(text_value(action));
    params.push(optional_value(detail));
    let r = Statement { sql: INSERT_AUDIT, params };
    assert(r@ =~= audit_of(action@, text::opt_text(*detail), now@));
    r
}

/// An entry of the audit log, of now.
pub fn audit(action: &str, detail: &Option<String>) -> (r: Statement)
    ensures
        exists|now: Seq<char>| r@ == #[trigger] audit_of(action@, text::opt_text(*detail), now),
{
    let now = utc_now();
    audit_entry(action, detail, now.as_str())
}

/// The entry of the audit log for a proposal that was accepted.
pub open spec fn acceptance_entry(id: i64, note: Option<Seq<char>>, now: Seq<char>) -> StatementView {
    audit_of("review_accept"@, Some(review_detail("accepted"@, id, note)), now)
}

/// The entry of the audit log for a proposal that was rejected.
pub open spec fn rejection_entry(id: i64, note: Option<Seq<char>>, now: Seq<char>) -> StatementView {
    audit_of("review_reject"@, Some(review_detail("rejected"@, id, note)), now)
}

/// The end of the wait of a proposal that was accepted.
pub open spec fn accepted_of(id: i64, note: Option<Seq<char>>, now: Seq<char>) -> StatementView {
    resolution_of(ACCEPT_PENDING@, id, note, now)
}

/// The end of the wait of a proposal that was rejected.
pub open spec fn rejected_of(id: i64, note: Option<Seq<char>>, now: Seq<char>) -> StatementView {
    resolution_of(REJECT_PENDING@, id, note, now)
}

/// The entry of the audit log for a proposal that was applied without review.
/// `shown` is its score as it is printed.
pub fn audit_auto_accept(shown: &str, kind: &str, site_name: &str) -> (r: Statement)
    ensures
        exists|now: Seq<char>|
            r@ == #[trigger] audit_of(
                "auto_accept"@,
                Some("auto_accept score="@ + shown@ + " kind="@ + kind@ + " site="@ + site_name@),
                now,
            ),
{
    audit("auto_accept", &Some(auto_accept_detail(shown, kind, site_name)))
}

/// Notes that a proposal was accepted, now; and the entry of the audit log for
/// it.
pub fn accept_pending(id: i64, note: &Option<String>) -> (r: (Statement, Statement))
    ensures
        exists|now: Seq<char>|
            r.0@ == #[trigger] resolution_of(ACCEPT_PENDING@, id, text::opt_text(*note), now),
        exists|now: Seq<char>|
            r.1@ == #[trigger] audit_of(
                "review_accept"@,
                Some(review_detail("accepted"@, id, text::opt_text(*note))),
                now,
            ),
        exists|now: Seq<char>| r.0@ == #[trigger] accepted_of(id, text::opt_text(*note), now),
        exists|now: Seq<char>| r.1@ == #[trigger] acceptance_entry(id, text::opt_text(*note), now),
{
    let now = utc_now();
    let first = resolution(ACCEPT_PENDING, id, note, now.as_str());
    let second = audit("review_accept", &Some(detail("accepted", id, note)));
    proof {
        assert(first@ == accepted_of(id, text::opt_text(*note), now@));
        let at = choose|at: Seq<char>|
            second@ == #[trigger] audit_of(
                "review_accept"@,
                Some(review_detail("accepted"@, id, text::opt_text(*note))),
                at,
            );
        assert(second@ == acceptance_entry(id, text::opt_text(*note), at));
    }
    (first, second)
}

/// Notes that a proposal was rejected, now, where it still waits; and the entry
/// of the audit log for it.
pub fn reject_pending(id: i64, note: &Option<String>) -> (r: (Statement, Statement))
    ensures
        exists|now: Seq<char>|
            r.0@ == #[trigger] resolution_of(REJECT_PENDING@, id, text::opt_text(*note), now),
        exists|now: Seq<char>|
            r.1@ == #[trigger] audit_of(
                "review_reject"@,
                Some(review_detail("rejected"@, id, text::opt_text(*note))),
                now,
            ),
        exists|now: Seq<char>| r.0@ == #[trigger] rejected_of(id, text::opt_text(*note), now),
        exists|now: Seq<char>| r.1@ == #[trigger] rejection_entry(id, text::opt_text(*note), now),
{
    let now = utc_now();
    let first = resolution(REJECT_PENDING, id, note, now.as_str());
    let second = audit("review_reject", &Some(detail("rejected", id, note)));
    proof {
        assert(first@ == rejected_of(id, text::opt_text(*note), now@));
        let at = choose|at: Seq<char>|
            second@ == #[trigger] audit_of(
                "review_reject"@,
                Some(review_detail("rejected"@, id, text::opt_text(*note))),
                at,
            );
        assert(second@ == rejection_entry(id, text::opt_text(*note), at));
    }
    (first, second)
}

/// The schema of a new vault.
pub const SCHEMA_V1: &'static str = "
CREATE TABLE IF NOT EXISTS schema_version (version INTEGER PRIMARY KEY);

CREATE TABLE IF NOT EXISTS profiles (
    id            TEXT PRIMARY KEY,
    label         TEXT NOT NULL,
    created_at    TEXT NOT NULL,
    updated_at    TEXT NOT NULL,
    note          TEXT
);
CREATE INDEX IF NOT EXISTS idx_profiles_label ON profiles(label);

CREATE TABLE IF NOT EXISTS scans (
    id            TEXT PRIMARY KEY,
    started_at    TEXT NOT NULL,
    finished_at   TEXT,
    usernames     TEXT NOT NULL,
    site_count    INTEGER NOT NULL,
    hits          INTEGER NOT NULL DEFAULT 0
);
CREATE INDEX IF NOT EXISTS idx_scans_started_at ON scans(started_at);

CREATE TABLE IF NOT EXISTS scan_results (
    id            INTEGER PRIMARY KEY AUTOINCREMENT,
    scan_id       TEXT NOT NULL REFERENCES scans(id) ON DELETE CASCADE,
    username      TEXT NOT NULL,
    site_name     TEXT NOT NULL,
    site_url      TEXT NOT NULL,
    status        TEXT NOT NULL,
    confidence    INTEGER NOT NULL,
    response_time_ms INTEGER,
    body_sha256   TEXT,
    seen_at       TEXT NOT NULL
);
CREATE INDEX IF NOT EXISTS idx_scan_results_scan ON scan_results(scan_id);
CREATE INDEX IF NOT EXISTS idx_scan_results_user ON scan_results(username);

CREATE TABLE IF NOT EXISTS evidence (
    id            INTEGER PRIMARY KEY AUTOINCREMENT,
    profile_id    TEXT REFERENCES profiles(id) ON DELETE CASCADE,
    scan_id       TEXT NOT NULL REFERENCES scans(id) ON DELETE CASCADE,
    username      TEXT NOT NULL,
    site_name     TEXT NOT NULL,
    site_url      TEXT NOT NULL,
    field         TEXT NOT NULL,
    value         TEXT NOT NULL,
    confidence    INTEGER NOT NULL,
    seen_at       TEXT NOT NULL,
    UNIQUE(profile_id, site_name, username, field, value)
);
CREATE INDEX IF NOT EXISTS idx_evidence_profile ON evidence(profile_id);
CREATE INDEX IF NOT EXISTS idx_evidence_field_value ON evidence(field, value);

CREATE TABLE IF NOT EXISTS pending_merges (
    id            INTEGER PRIMARY KEY AUTOINCREMENT,
    kind          TEXT NOT NULL,
    proposed_at   TEXT NOT NULL,
    profile_id    TEXT,
    candidate     TEXT NOT NULL,
    rationale     TEXT NOT NULL,
    score         REAL NOT NULL,
    state         TEXT NOT NULL DEFAULT 'pending',
    resolved_at   TEXT,
    resolved_note TEXT
);
CREATE INDEX IF NOT EXISTS idx_pending_state ON pending_merges(state, proposed_at);

CREATE TABLE IF NOT EXISTS audit_log (
    id            INTEGER PRIMARY KEY AUTOINCREMENT,
    at            TEXT NOT NULL,
    action        TEXT NOT NULL,
    detail        TEXT
);
";

/// A change of the schema, and the version it leads to.
#[derive(Debug)]
pub struct Migration {
    pub batch: &'static str,
    pub version: i64,
}

/// The changes that bring a schema of the given version up to date, in order.
pub fn migrations(current: i64) -> (r: Vec<Migration>)
    ensures
        current < 1 ==> r@.len() == 1 && r@[0].batch@ == SCHEMA_V1@ && r@[0].version == 1,
        current >= 1 ==> r@.len() == 0,
{
    let mut r: Vec<Migration> = Vec::new();
    if current < 1 {
        r.push(Migration { batch: SCHEMA_V1, version: 1 });
    }
    r
}

/// The texts of the statements that write.
pub proof fn writing_statements_read_so()
    ensures
        INSERT_SCAN@
            == "INSERT INTO scans (id, started_at, usernames, site_count, hits) VALUES (?1, ?2, ?3, ?4, 0)"@,
        FINISH_SCAN@
            == "UPDATE scans SET finished_at = ?1, hits = ?2 WHERE id = ?3"@,
        INSERT_RESULT@
            == "INSERT INTO scan_results (scan_id, username, site_name, site_url, status, confidence, response_time_ms, body_sha256, seen_at) VALUES (?1,?2,?3,?4,?5,?6,?7,?8,?9)"@,
        INSERT_PROFILE@
            == "INSERT INTO profiles (id, label, created_at, updated_at) VALUES (?1, ?2, ?3, ?3)"@,
        INSERT_EVIDENCE@
            == "INSERT OR IGNORE INTO evidence (profile_id, scan_id, username, site_name, site_url, field, value, confidence, seen_at) VALUES (?1,?2,?3,?4,?5,?6,?7,?8,?9)"@,
        TOUCH_PROFILE@
            == "UPDATE profiles SET updated_at = ?1 WHERE id = ?2"@,
        INSERT_PENDING@
            == "INSERT INTO pending_merges (kind, proposed_at, profile_id, candidate, rationale, score) VALUES (?1,?2,?3,?4,?5,?6)"@,
        ACCEPT_PENDING@
            == "UPDATE pending_merges SET state = 'accepted', resolved_at = ?1, resolved_note = ?2 WHERE id = ?3"@,
        REJECT_PENDING@
            == "UPDATE pending_merges SET state = 'rejected', resolved_at = ?1, resolved_note = ?2 WHERE id = ?3 AND state = 'pending'"@,
        INSERT_AUDIT@
            == "INSERT INTO audit_log (at, action, detail) VALUES (?1, ?2, ?3)"@,
{
}

/// The texts of the statements that read.
pub proof fn reading_statements_read_so()
    ensures
        FIND_BY_USERNAME@
            == "SELECT profile_id FROM evidence WHERE username = ?1 AND profile_id IS NOT NULL LIMIT 1"@,
        FIND_BY_VALUE@
            == "SELECT DISTINCT profile_id FROM evidence WHERE field = ?1 AND value = ?2 AND profile_id IS NOT NULL"@,
        LIST_PROFILES@
            == "SELECT p.id, p.label, p.created_at, p.updated_at, (SELECT COUNT(*) FROM evidence e WHERE e.profile_id = p.id) as evidence_count FROM profiles p ORDER BY p.updated_at DESC"@,
        GET_PROFILE@
            == "SELECT id, label, created_at, updated_at, note FROM profiles WHERE id = ?1"@,
        PROFILE_EVIDENCE@
            == "SELECT site_name, site_url, username, field, value, confidence, seen_at FROM evidence WHERE profile_id = ?1 ORDER BY seen_at DESC"@,
        LIST_PENDING@
            == "SELECT id, kind, proposed_at, profile_id, candidate, rationale, score FROM pending_merges WHERE state = 'pending' ORDER BY proposed_at DESC"@,
        COUNT_PENDING@
            == "SELECT COUNT(*) FROM pending_merges WHERE state = 'pending'"@,
        LOOK_UP_PENDING@
            == "SELECT candidate, state FROM pending_merges WHERE id = ?1"@,
        LIST_AUDIT@
            == "SELECT id, at, action, detail FROM audit_log ORDER BY id DESC LIMIT ?1"@,
{
}

/// What is stored of a scan and of its results, by the columns that the
/// statements name.
pub proof fn scans_carry_these_values(
    id: Seq<char>,
    now: Seq<char>,
    usernames_json: Seq<char>,
    site_count: usize,
    hits: usize,
    row: ResultRow,
    ms: u64,
)
    ensures
        ({
            let s = scan_start_of(id, now, usernames_json, site_count);
            &&& s.sql == INSERT_SCAN@
            &&& s.params.len() == 4
            &&& s.params[0] == SqlView::Text(id)
            &&& s.params[1] == SqlView::Text(now)
            &&& s.params[2] == SqlView::Text(usernames_json)
            &&& s.params[3] == SqlView::Integer(site_count as i64)
        }),
        ({
            let s = scan_finish_of(id, now, hits);
            &&& s.sql == FINISH_SCAN@
            &&& s.params.len() == 3
            &&& s.params[0] == SqlView::Text(now)
            &&& s.params[1] == SqlView::Integer(hits as i64)
            &&& s.params[2] == SqlView::Text(id)
        }),
        ({
            let s = scan_result_of(row, now);
            &&& s.sql == INSERT_RESULT@
            &&& s.params.len() == 9
            &&& s.params[0] == SqlView::Text(row.scan_id@)
            &&& s.params[1] == SqlView::Text(row.username@)
            &&& s.params[2] == SqlView::Text(row.site_name@)
            &&& s.params[3] == SqlView::Text(row.site_url@)
            &&& s.params[4] == SqlView::Text(row.status@)
            &&& s.params[5] == SqlView::Integer(row.confidence as i64)
            &&& row.response_time_ms == Some(ms) ==> s.params[6] == SqlView::Integer(ms as i64)
            &&& row.response_time_ms is None ==> s.params[6] == SqlView::Null
            &&& row.body_sha256 is Some ==> s.params[7] == SqlView::Text(row.body_sha256->0@)
            &&& row.body_sha256 is None ==> s.params[7] == SqlView::Null
            &&& s.params[8] == SqlView::Text(now)
        }),
{
}

/// What is stored of a profile, of a piece of its evidence and of a proposal
/// that waits, by the columns that the statements name.
pub proof fn proposals_carry_these_values(
    p: ProposalView,
    id: Seq<char>,
    e: EvidenceView,
    label: Seq<char>,
    candidate_json: Seq<char>,
    now: Seq<char>,
)
    ensures
        new_profile_of(id, label, now) == (StatementView {
            sql: INSERT_PROFILE@,
            params: seq![SqlView::Text(id), SqlView::Text(label), SqlView::Text(now)],
        }),
        ({
            let s = evidence_row_of(p, id, e, now);
            &&& s.sql == INSERT_EVIDENCE@
            &&& s.params.len() == 9
            &&& s.params[0] == SqlView::Text(id)
            &&& s.params[1] == SqlView::Text(p.scan_id)
            &&& s.params[2] == SqlView::Text(p.username)
            &&& s.params[3] == SqlView::Text(p.site_name)
            &&& s.params[4] == SqlView::Text(p.site_url)
            &&& s.params[5] == SqlView::Text(e.field)
            &&& s.params[6] == SqlView::Text(e.value)
            &&& s.params[7] == SqlView::Integer(e.confidence as i64)
            &&& s.params[8] == SqlView::Text(now)
        }),
        ({
            let s = pending_of(p, candidate_json, now);
            &&& s.sql == INSERT_PENDING@
            &&& s.params.len() == 6
            &&& s.params[0] == SqlView::Text(p.kind)
            &&& s.params[1] == SqlView::Text(now)
            &&& p.target_profile_id is Some ==> s.params[2] == SqlView::Text(
                p.target_profile_id->0,
            )
            &&& p.target_profile_id is None ==> s.params[2] == SqlView::Null
            &&& s.params[3] == SqlView::Text(candidate_json)
            &&& s.params[4] == SqlView::Text(p.rationale)
            &&& s.params[5] == SqlView::Fraction(p.score)
        }),
        p.target_profile_id is Some ==> target_of(p, id) == p.target_profile_id->0,
        p.target_profile_id is None ==> target_of(p, id) == id,
        p.target_profile_id is None && p.new_label == Some(label) ==> application_of(p, id, now)[0]
            == new_profile_of(id, label, now),
        p.target_profile_id is None && p.new_label is None ==> application_of(p, id, now)[0]
            == new_profile_of(id, Seq::empty(), now),
        application_of(p, id, now).last().params == seq![
            SqlView::Text(now),
            SqlView::Text(target_of(p, id)),
        ],
{
}

/// What is stored of a review and in the audit log, by the columns that the
/// statements name.
pub proof fn reviews_carry_these_values(
    sql: Seq<char>,
    id: i64,
    note: Option<Seq<char>>,
    action: Seq<char>,
    verb: Seq<char>,
    now: Seq<char>,
)
    ensures
        ({
            let s = resolution_of(sql, id, note, now);
            &&& s.sql == sql
            &&& s.params.len() == 3
            &&& s.params[0] == SqlView::Text(now)
            &&& note is Some ==> s.params[1] == SqlView::Text(note->0)
            &&& note is None ==> s.params[1] == SqlView::Null
            &&& s.params[2] == SqlView::Integer(id)
        }),
        ({
            let s = audit_of(action, note, now);
            &&& s.sql == INSERT_AUDIT@
            &&& s.params.len() == 3
            &&& s.params[0] == SqlView::Text(now)
            &&& s.params[1] == SqlView::Text(action)
            &&& note is Some ==> s.params[2] == SqlView::Text(note->0)
            &&& note is None ==> s.params[2] == SqlView::Null
        }),
        review_detail(verb, id, note) == verb + " pending#"@ + text::signed_decimal(id as int)
            + " note="@ + outside::debug_text(note),
        plain_statement(sql).sql == sql && plain_statement(sql).params.len() == 0,
{
}

/// A row that could be read is passed on, in its place; one that could not is
/// left out.
pub proof fn readable_rows_are_passed_on<T>(a: Seq<Option<T>>, row: T, b: Seq<Option<T>>)
    ensures
        readable_of(Seq::<Option<T>>::empty()).len() == 0,
        readable_of(a + seq![Some(row)] + b) == readable_of(a) + seq![row] + readable_of(b),
        readable_of(a + seq![None] + b) == readable_of(a) + readable_of(b),
    decreases b.len(),
{
    let with = a + seq![Some(row)] + b;
    let without = a + seq![None] + b;
    if b.len() == 0 {
        assert(with.drop_last() =~= a);
        assert(without.drop_last() =~= a);
        assert(with.last() == Some(row));
        assert(without.last() == None::<T>);
    } else {
        readable_rows_are_passed_on(a, row, b.drop_last());
        assert(with.drop_last() =~= a + seq![Some(row)] + b.drop_last());
        assert(without.drop_last() =~= a + seq![None] + b.drop_last());
        assert(with.last() == b.last());
        assert(without.last() == b.last());
    }
    assert(readable_of(with) =~= readable_of(a) + seq![row] + readable_of(b));
    assert(readable_of(without) =~= readable_of(a) + readable_of(b));
}

/// The tables and indexes of a new vault. A piece of evidence stands only once:
/// by profile, site, username, field and value; it goes with its profile and its
/// scan, and a proposal waits unless it is said otherwise.
pub proof fn a_new_vault_has_these_tables()
    ensures
        SCHEMA_V1@ == "
CREATE TABLE IF NOT EXISTS schema_version (version INTEGER PRIMARY KEY);

CREATE TABLE IF NOT EXISTS profiles (
    id            TEXT PRIMARY KEY,
    label         TEXT NOT NULL,
    created_at    TEXT NOT NULL,
    updated_at    TEXT NOT NULL,
    note          TEXT
);
CREATE INDEX IF NOT EXISTS idx_profiles_label ON profiles(label);

CREATE TABLE IF NOT EXISTS scans (
    id            TEXT PRIMARY KEY,
    started_at    TEXT NOT NULL,
    finished_at   TEXT,
    usernames     TEXT NOT NULL,
    site_count    INTEGER NOT NULL,
    hits          INTEGER NOT NULL DEFAULT 0
);
CREATE INDEX IF NOT EXISTS idx_scans_started_at ON scans(started_at);

CREATE TABLE IF NOT EXISTS scan_results (
    id            INTEGER PRIMARY KEY AUTOINCREMENT,
    scan_id       TEXT NOT NULL REFERENCES scans(id) ON DELETE CASCADE,
    username      TEXT NOT NULL,
    site_name     TEXT NOT NULL,
    site_url      TEXT NOT NULL,
    status        TEXT NOT NULL,
    confidence    INTEGER NOT NULL,
    response_time_ms INTEGER,
    body_sha256   TEXT,
    seen_at       TEXT NOT NULL
);
CREATE INDEX IF NOT EXISTS idx_scan_results_scan ON scan_results(scan_id);
CREATE INDEX IF NOT EXISTS idx_scan_results_user ON scan_results(username);

CREATE TABLE IF NOT EXISTS evidence (
    id            INTEGER PRIMARY KEY AUTOINCREMENT,
    profile_id    TEXT REFERENCES profiles(id) ON DELETE CASCADE,
    scan_id       TEXT NOT NULL REFERENCES scans(id) ON DELETE CASCADE,
    username      TEXT NOT NULL,
    site_name     TEXT NOT NULL,
    site_url      TEXT NOT NULL,
    field         TEXT NOT NULL,
    value         TEXT NOT NULL,
    confidence    INTEGER NOT NULL,
    seen_at       TEXT NOT NULL,
    UNIQUE(profile_id, site_name, username, field, value)
);
CREATE INDEX IF NOT EXISTS idx_evidence_profile ON evidence(profile_id);
CREATE INDEX IF NOT EXISTS idx_evidence_field_value ON evidence(field, value);

CREATE TABLE IF NOT EXISTS pending_merges (
    id            INTEGER PRIMARY KEY AUTOINCREMENT,
    kind          TEXT NOT NULL,
    proposed_at   TEXT NOT NULL,
    profile_id    TEXT,
    candidate     TEXT NOT NULL,
    rationale     TEXT NOT NULL,
    score         REAL NOT NULL,
    state         TEXT NOT NULL DEFAULT 'pending',
    resolved_at   TEXT,
    resolved_note TEXT
);
CREATE INDEX IF NOT EXISTS idx_pending_state ON pending_merges(state, proposed_at);

CREATE TABLE IF NOT EXISTS audit_log (
    id            INTEGER PRIMARY KEY AUTOINCREMENT,
    at            TEXT NOT NULL,
    action        TEXT NOT NULL,
    detail        TEXT
);
"@,
{
}

/// What is written of a review: the state that the proposal gets, and an entry of
/// the audit log that says what was done, to which proposal and with which note.
/// Only a proposal that waits can be accepted.
pub proof fn reviews_are_written_so(
    state: Seq<char>,
    id: i64,
    note: Option<Seq<char>>,
    now: Seq<char>,
)
    ensures
        still_waits(state) <==> state == "pending"@,
        accepted_of(id, note, now).sql
            == "UPDATE pending_merges SET state = 'accepted', resolved_at = ?1, resolved_note = ?2 WHERE id = ?3"@,
        rejected_of(id, note, now).sql
            == "UPDATE pending_merges SET state = 'rejected', resolved_at = ?1, resolved_note = ?2 WHERE id = ?3 AND state = 'pending'"@,
        accepted_of(id, note, now).params == seq![
            SqlView::Text(now),
            optional_text(note),
            SqlView::Integer(id),
        ],
        rejected_of(id, note, now).params == seq![
            SqlView::Text(now),
            optional_text(note),
            SqlView::Integer(id),
        ],
        acceptance_entry(id, note, now).params == seq![
            SqlView::Text(now),
            SqlView::Text("review_accept"@),
            SqlView::Text(
                "accepted"@ + " pending#"@ + text::signed_decimal(id as int) + " note="@
                    + outside::debug_text(note),
            ),
        ],
        rejection_entry(id, note, now).params == seq![
            SqlView::Text(now),
            SqlView::Text("review_reject"@),
            SqlView::Text(
                "rejected"@ + " pending#"@ + text::signed_decimal(id as int) + " note="@
                    + outside::debug_text(note),
            ),
        ],
{
}

} // verus!
