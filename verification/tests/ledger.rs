use rusqlite::types::Value;
use rusqlite::{params_from_iter, Connection};
use sherlock_rs::ledger::{
    accept_lookup, accept_pending, application, apply_proposal, audit, audit_auto_accept,
    audit_entry, count_pending, find_profile_by_username, find_profiles_by_field_value,
    get_profile, list_audit, list_pending, list_profiles, look_up_pending, migrations,
    pending, profile_detail, queue_pending, readable, record_scan_finish, record_scan_result,
    record_scan_start, reject_outcome, reject_pending, scan_finish, scan_result, scan_start,
    EvidenceEntry, ProfileRow, ResultRow, SqlValue, Statement,
};
use sherlock_rs::proposal::{
    evidence_rows_from_extracted, high_signal_pairs, propose_or_apply, EvidenceRow, Hit, Proposal,
    ProposalPlan, Score,
};
use sherlock_rs::result::ExtractedValue;
use sherlock_rs::table::Table;
use sherlock_rs::vault::{key_for_new, VaultError};

fn values(s: &Statement) -> Vec<Value> {
    s.params
        .iter()
        .map(|p| match p {
            SqlValue::Null => Value::Null,
            SqlValue::Integer(n) => Value::Integer(*n),
            SqlValue::Text(t) => Value::Text(t.clone()),
            SqlValue::Fraction(f) => Value::Real(f.num as f64 / f.den as f64),
        })
        .collect()
}

fn execute(c: &Connection, s: &Statement) -> usize {
    c.execute(s.sql, params_from_iter(values(s))).unwrap()
}

fn texts(c: &Connection, s: &Statement, column: usize) -> Vec<String> {
    let mut stmt = c.prepare(s.sql).unwrap();
    let rows = stmt
        .query_map(params_from_iter(values(s)), |r| r.get::<_, String>(column))
        .unwrap();
    rows.map(|r| r.unwrap()).collect()
}

fn number(c: &Connection, s: &Statement) -> i64 {
    c.query_row(s.sql, params_from_iter(values(s)), |r| r.get(0))
        .unwrap()
}

fn database() -> Connection {
    let c = Connection::open_in_memory().unwrap();
    let version: i64 = c
        .query_row("PRAGMA user_version", [], |r| r.get(0))
        .unwrap();
    for m in migrations(version) {
        c.execute_batch(m.batch).unwrap();
        c.pragma_update(None, "user_version", m.version).unwrap();
    }
    let version: i64 = c
        .query_row("PRAGMA user_version", [], |r| r.get(0))
        .unwrap();
    assert_eq!(version, 1);
    assert!(migrations(version).is_empty());
    c
}

fn result_row(scan_id: &str) -> ResultRow {
    ResultRow {
        scan_id: scan_id.into(),
        username: "alice".into(),
        site_name: "GitHub".into(),
        site_url: "https://github.com/alice".into(),
        status: "claimed".into(),
        confidence: 95,
        response_time_ms: Some(150),
        body_sha256: Some("abcdef".into()),
    }
}

fn hit(scan_id: &str, username: &str, url: &str) -> Hit {
    Hit {
        scan_id: scan_id.into(),
        username: username.into(),
        site_name: "GitHub".into(),
        site_url: url.into(),
    }
}

fn plan(
    c: &Connection,
    hit: Hit,
    extracted: &Table<ExtractedValue>,
    confidence: u8,
    auto_accept: bool,
) -> ProposalPlan {
    let evidence = evidence_rows_from_extracted(extracted, confidence);
    let known = texts(c, &find_profile_by_username(&hit.username), 0)
        .into_iter()
        .next();
    let lookups: Vec<Vec<String>> = high_signal_pairs(&evidence)
        .iter()
        .map(|(f, v)| texts(c, &find_profiles_by_field_value(f, v), 0))
        .collect();
    propose_or_apply(hit, evidence, known, &lookups, auto_accept, None)
}

fn apply(c: &mut Connection, p: &Proposal) -> String {
    let (profile_id, statements) = apply_proposal(p);
    let tx = c.transaction().unwrap();
    for s in &statements {
        tx.execute(s.sql, params_from_iter(values(s))).unwrap();
    }
    tx.commit().unwrap();
    profile_id
}

/// End-to-end: record a scan, take a hit with extracted fields, propose with
/// auto-accept on; the profile is there and the audit log says so.
#[test]
fn auto_accept_flow_creates_profile_and_audits() {
    let mut c = database();
    let (scan_id, s) = record_scan_start(r#"["alice"]"#, 1);
    execute(&c, &s);
    execute(&c, &record_scan_result(&result_row(&scan_id)));

    let mut extracted: Table<ExtractedValue> = Table::new();
    extracted.insert(
        "avatar_url".to_string(),
        ExtractedValue::One("https://cdn/alice.png".into()),
    );
    extracted.insert(
        "display_name".to_string(),
        ExtractedValue::One("Alice Example".into()),
    );

    let p = match plan(
        &c,
        hit(&scan_id, "alice", "https://github.com/alice"),
        &extracted,
        95,
        true,
    ) {
        ProposalPlan::Apply(p) => p,
        other => panic!("expected Applied, got {other:?}"),
    };
    let profile_id = apply(&mut c, &p);
    assert!(!profile_id.is_empty());
    execute(&c, &audit_auto_accept("1.00", &p.kind, "GitHub"));

    execute(&c, &record_scan_finish(&scan_id, 1));

    let labels = texts(&c, &list_profiles(), 1);
    assert_eq!(labels.len(), 1);
    assert_eq!(labels[0], "alice");
    let n: i64 = c
        .query_row(list_profiles().sql, [], |r| r.get(4))
        .unwrap();
    assert_eq!(n, 2);

    // Pending queue stays empty because auto-accept short-circuited.
    assert_eq!(number(&c, &count_pending()), 0);

    // Audit log records the auto_accept.
    let actions = texts(&c, &list_audit(50), 2);
    assert!(actions.contains(&"auto_accept".to_string()));
    let details = texts(&c, &list_audit(50), 3);
    assert_eq!(
        details[0],
        "auto_accept score=1.00 kind=new_profile site=GitHub"
    );
}

/// The same with auto-accept off: the proposal waits, and accepting it makes
/// the profile.
#[test]
fn queue_then_accept_creates_profile() {
    let mut c = database();
    let (scan_id, s) = record_scan_start(r#"["bob"]"#, 1);
    execute(&c, &s);
    let mut extracted: Table<ExtractedValue> = Table::new();
    extracted.insert("bio".into(), ExtractedValue::One("hello".into()));
    let first = match plan(
        &c,
        hit(&scan_id, "bob", "https://github.com/bob"),
        &extracted,
        80,
        false,
    ) {
        ProposalPlan::Queue(p) => p,
        other => panic!("expected Queued, got {other:?}"),
    };
    execute(&c, &queue_pending(&first, "{}"));
    let pending_id = c.last_insert_rowid();
    assert_eq!(number(&c, &count_pending()), 1);
    assert_eq!(texts(&c, &list_profiles(), 0).len(), 0);
    assert_eq!(texts(&c, &list_pending(), 1), vec!["new_profile"]);

    // Reject path: state flips, no profile created.
    let mut extracted2: Table<ExtractedValue> = Table::new();
    extracted2.insert("bio".into(), ExtractedValue::One("world".into()));
    let second = match plan(
        &c,
        hit(&scan_id, "bob2", "https://github.com/bob2"),
        &extracted2,
        80,
        false,
    ) {
        ProposalPlan::Queue(p) => p,
        other => panic!("expected Queued, got {other:?}"),
    };
    execute(&c, &queue_pending(&second, "{}"));
    let reject_id = c.last_insert_rowid();
    let (update, entry) = reject_pending(reject_id, &Some("nope".into()));
    let entry = reject_outcome(execute(&c, &update), entry).unwrap();
    execute(&c, &entry);
    // A second rejection finds nothing that waits.
    let (update, entry) = reject_pending(reject_id, &None);
    assert!(matches!(
        reject_outcome(execute(&c, &update), entry),
        Err(VaultError::NotPending)
    ));

    // Accept the first: profile materializes.
    let row = |c: &Connection, id: i64| -> Option<(String, String)> {
        let s = look_up_pending(id);
        c.query_row(s.sql, params_from_iter(values(&s)), |r| {
            Ok((r.get(0)?, r.get(1)?))
        })
        .ok()
    };
    assert_eq!(accept_lookup(row(&c, pending_id)).unwrap(), "{}");
    let profile_id = apply(&mut c, &first);
    assert!(!profile_id.is_empty());
    let (update, entry) = accept_pending(pending_id, &Some("looks good".into()));
    assert_eq!(execute(&c, &update), 1);
    execute(&c, &entry);
    assert!(matches!(
        accept_lookup(row(&c, pending_id)),
        Err(VaultError::AlreadyResolved)
    ));
    assert!(matches!(
        accept_lookup(row(&c, 999)),
        Err(VaultError::NotFound)
    ));

    assert_eq!(texts(&c, &list_profiles(), 0).len(), 1);

    // Pending queue is empty (one accepted, one rejected — neither
    // remains in 'pending' state).
    assert_eq!(number(&c, &count_pending()), 0);

    // Audit log records both review_accept and review_reject.
    let actions = texts(&c, &list_audit(50), 2);
    assert!(actions.contains(&"review_accept".to_string()));
    assert!(actions.contains(&"review_reject".to_string()));
    let details = texts(&c, &list_audit(50), 3);
    assert_eq!(
        details[0],
        format!("accepted pending#{} note=Some(\"looks good\")", pending_id)
    );
    assert_eq!(
        details[1],
        format!("rejected pending#{} note=Some(\"nope\")", reject_id)
    );
}

#[test]
fn known_username_and_shared_values_are_found() {
    let mut c = database();
    let (scan_id, s) = record_scan_start("[]", 0);
    execute(&c, &s);
    let mut extracted: Table<ExtractedValue> = Table::new();
    extracted.insert("full_name".into(), ExtractedValue::One("A B".into()));
    let p = match plan(&c, hit(&scan_id, "ab", "u"), &extracted, 95, true) {
        ProposalPlan::Apply(p) => p,
        other => panic!("expected Applied, got {other:?}"),
    };
    let profile_id = apply(&mut c, &p);
    let p = match plan(&c, hit(&scan_id, "ab", "u"), &extracted, 95, true) {
        ProposalPlan::Apply(p) => p,
        other => panic!("expected Applied, got {other:?}"),
    };
    assert_eq!(p.kind, "accumulate");
    assert_eq!(p.target_profile_id.as_deref(), Some(profile_id.as_str()));
    assert_eq!(apply(&mut c, &p), profile_id);
    let p = match plan(&c, hit(&scan_id, "other", "u"), &extracted, 95, true) {
        ProposalPlan::Apply(p) => p,
        other => panic!("expected Applied, got {other:?}"),
    };
    assert_eq!(p.kind, "cross_site_correlation");
    assert_eq!(p.target_profile_id.as_deref(), Some(profile_id.as_str()));
    let (one, evidence) = get_profile(&profile_id);
    assert_eq!(texts(&c, &one, 1), vec!["ab"]);
    assert_eq!(texts(&c, &evidence, 4), vec!["A B"]);
}

#[test]
fn database_does_what_the_statements_say() {
    let mut c = database();
    let mut extracted: Table<ExtractedValue> = Table::new();
    extracted.insert("full_name".into(), ExtractedValue::One("A B".into()));
    let (scan_id, s) = record_scan_start("[]", 0);
    let p = match plan(&c, hit(&scan_id, "ab", "u"), &extracted, 95, true) {
        ProposalPlan::Apply(p) => p,
        other => panic!("expected Applied, got {other:?}"),
    };
    // Evidence of a scan that was not begun is refused.
    let refused = |c: &Connection, s: &Statement| {
        c.execute(s.sql, params_from_iter(values(s))).is_err()
    };
    let statements = application(&p, "new", "now");
    assert_eq!(execute(&c, &statements[0]), 1);
    assert!(refused(&c, &statements[0]));
    assert!(refused(&c, &statements[1]));
    assert!(refused(&c, &record_scan_result(&result_row(&scan_id))));
    assert_eq!(execute(&c, &s), 1);
    assert!(refused(&c, &s));
    // The same evidence is kept once.
    assert_eq!(execute(&c, &statements[1]), 1);
    assert_eq!(execute(&c, &statements[1]), 0);
    assert_eq!(execute(&c, &statements[2]), 1);
    assert_eq!(execute(&c, &record_scan_finish(&scan_id, 1)), 1);
    assert_eq!(execute(&c, &record_scan_finish("other", 1)), 0);
    // Numbers of proposals are not used again.
    assert_eq!(execute(&c, &queue_pending(&p, "{}")), 1);
    let first = c.last_insert_rowid();
    assert_eq!(execute(&c, &queue_pending(&p, "{}")), 1);
    assert!(c.last_insert_rowid() > first);
    assert_eq!(number(&c, &count_pending()), 2);
    assert_eq!(execute(&c, &accept_pending(first, &None).0), 1);
    assert_eq!(number(&c, &count_pending()), 1);
    assert_eq!(execute(&c, &reject_pending(first, &None).0), 0);
    // A transaction that fails leaves nothing behind.
    let tx = c.transaction().unwrap();
    let again = application(&p, "next", "now");
    tx.execute(again[0].sql, params_from_iter(values(&again[0]))).unwrap();
    assert!(tx.execute(s.sql, params_from_iter(values(&s))).is_err());
    drop(tx);
    assert_eq!(texts(&c, &list_profiles(), 0), vec!["new".to_string()]);
}

#[test]
fn statements_carry_their_parameters() {
    let s = scan_start("id", "now", "[]", 3);
    assert_eq!(
        values(&s),
        vec![
            Value::Text("id".into()),
            Value::Text("now".into()),
            Value::Text("[]".into()),
            Value::Integer(3)
        ]
    );
    let s = scan_finish("id", "now", 2);
    assert_eq!(
        values(&s),
        vec![
            Value::Text("now".into()),
            Value::Integer(2),
            Value::Text("id".into())
        ]
    );
    let mut row = result_row("scan");
    row.response_time_ms = None;
    row.body_sha256 = None;
    let s = scan_result(&row, "now");
    assert_eq!(s.params.len(), 9);
    assert!(matches!(s.params[6], SqlValue::Null));
    assert!(matches!(s.params[7], SqlValue::Null));
    let s = audit_entry("vault_init", &None, "now");
    assert_eq!(
        values(&s),
        vec![
            Value::Text("now".into()),
            Value::Text("vault_init".into()),
            Value::Null
        ]
    );
    let (_, entry) = accept_pending(-5, &None);
    assert!(matches!(&entry.params[2], SqlValue::Text(t) if t == "accepted pending#-5 note=None"));
}

#[test]
fn times_and_ids_are_new() {
    let (a, _) = record_scan_start("[]", 0);
    let (b, _) = record_scan_start("[]", 0);
    assert_eq!(a.len(), 36);
    assert_ne!(a, b);
    for (i, ch) in a.chars().enumerate() {
        if i == 8 || i == 13 || i == 18 || i == 23 {
            assert_eq!(ch, '-');
        } else {
            assert!(ch.is_ascii_hexdigit() && !ch.is_ascii_uppercase());
        }
    }
    let s = audit("x", &None);
    assert!(matches!(&s.params[0], SqlValue::Text(t) if t.starts_with("20")));
}

#[test]
fn applications_fill_one_profile() {
    let p = Proposal {
        kind: "new_profile".into(),
        scan_id: "scan".into(),
        username: "u".into(),
        site_name: "S".into(),
        site_url: "https://s".into(),
        target_profile_id: None,
        new_label: Some("u".into()),
        evidence: vec![],
        rationale: "".into(),
        score: sherlock_rs::proposal::Score { num: 1, den: 1 },
    };
    let statements = application(&p, "new", "now");
    assert_eq!(statements.len(), 2);
    assert!(statements[0].sql.starts_with("INSERT INTO profiles"));
    assert_eq!(
        values(&statements[1]),
        vec![Value::Text("now".into()), Value::Text("new".into())]
    );
}

#[test]
fn unreadable_rows_are_left_out() {
    assert_eq!(readable(vec![Some(1), None, Some(3)]), vec![1, 3]);
    let evidence = || {
        vec![
            None,
            Some(EvidenceEntry {
                site_name: "S".into(),
                site_url: "u".into(),
                username: "n".into(),
                field: "bio".into(),
                value: "v".into(),
                confidence: 95,
                seen_at: "t".into(),
            }),
        ]
    };
    assert!(profile_detail(None, evidence()).is_none());
    let d = profile_detail(
        Some(ProfileRow {
            id: "p".into(),
            label: "l".into(),
            created_at: "c".into(),
            updated_at: "u".into(),
            note: None,
        }),
        evidence(),
    )
    .unwrap();
    assert_eq!(d.profile.id, "p");
    assert_eq!(d.evidence.len(), 1);
}

#[test]
fn database_takes_the_key() {
    let (material, _) = key_for_new("correct-passphrase").unwrap();
    let c = Connection::open_in_memory().unwrap();
    c.execute_batch(&material.pragma).unwrap();
    let n: i64 = c
        .query_row("SELECT count(*) FROM sqlite_master", [], |r| r.get(0))
        .unwrap();
    assert_eq!(n, 0);
}

#[test]
fn database_answers_as_it_is_asked() {
    let c = database();
    execute(&c, &scan_start("scan", "t0", "[]", 0));
    let proposal = |username: &str, fields: &[(&str, &str)]| Proposal {
        kind: "new_profile".into(),
        scan_id: "scan".into(),
        username: username.into(),
        site_name: "Site".into(),
        site_url: "u".into(),
        target_profile_id: None,
        new_label: Some(username.into()),
        evidence: fields
            .iter()
            .map(|(f, v)| EvidenceRow {
                field: f.to_string(),
                value: v.to_string(),
                confidence: 80,
            })
            .collect(),
        rationale: "why".into(),
        score: Score { num: 1, den: 1 },
    };
    let apply_at = |p: &Proposal, id: &str, now: &str| {
        for s in application(p, id, now) {
            execute(&c, &s);
        }
    };
    apply_at(&proposal("amy", &[("bio", "x"), ("full_name", "A")]), "p1", "t1");
    apply_at(&proposal("bob", &[("bio", "x"), ("bio", "x")]), "p2", "t3");
    let mut more = proposal("amy", &[("location", "here")]);
    more.target_profile_id = Some("p1".into());
    apply_at(&more, "unused", "t2");
    // The profile that changed last comes first, with its count of evidence.
    assert_eq!(texts(&c, &list_profiles(), 0), vec!["p2", "p1"]);
    assert_eq!(texts(&c, &list_profiles(), 3), vec!["t3", "t2"]);
    let counts: Vec<i64> = {
        let s = list_profiles();
        let mut stmt = c.prepare(s.sql).unwrap();
        let rows = stmt.query_map([], |r| r.get::<_, i64>(4)).unwrap();
        rows.map(|r| r.unwrap()).collect()
    };
    assert_eq!(counts, vec![1, 3]);
    let (head, evidence) = get_profile("p1");
    assert_eq!(texts(&c, &head, 1), vec!["amy"]);
    assert_eq!(texts(&c, &evidence, 6), vec!["t2", "t1", "t1"]);
    assert_eq!(texts(&c, &evidence, 3)[0], "location");
    assert!(texts(&c, &get_profile("none").0, 1).is_empty());
    // One profile by its username, each once by a value.
    assert_eq!(texts(&c, &find_profile_by_username("amy"), 0), vec!["p1"]);
    let mut shared = texts(&c, &find_profiles_by_field_value("bio", "x"), 0);
    shared.sort();
    assert_eq!(shared, vec!["p1", "p2"]);
    assert!(texts(&c, &find_profiles_by_field_value("bio", "y"), 0).is_empty());
    // Proposals that wait, the newest first.
    for now in ["t1", "t2", "t3"] {
        execute(&c, &pending(&proposal("cy", &[]), now, now));
    }
    execute(&c, &reject_pending(2, &None).0);
    assert_eq!(texts(&c, &list_pending(), 2), vec!["t3", "t1"]);
    assert_eq!(texts(&c, &list_pending(), 1), vec!["new_profile", "new_profile"]);
    assert_eq!(texts(&c, &list_pending(), 5), vec!["why", "why"]);
    assert_eq!(number(&c, &count_pending()), 2);
    assert_eq!(texts(&c, &look_up_pending(2), 1), vec!["rejected"]);
    assert_eq!(texts(&c, &look_up_pending(1), 0), vec!["t1"]);
    assert!(texts(&c, &look_up_pending(9), 0).is_empty());
    // The audit log, the newest entry first.
    for action in ["a", "b", "c"] {
        execute(&c, &audit_entry(action, &None, "now"));
    }
    assert_eq!(texts(&c, &list_audit(2), 2), vec!["c", "b"]);
    assert_eq!(texts(&c, &list_audit(9), 2), vec!["c", "b", "a"]);
    assert_eq!(texts(&c, &list_audit(-1), 2), vec!["c", "b", "a"]);
    assert!(texts(&c, &list_audit(0), 2).is_empty());
    assert_eq!(number(&c, &list_audit(1)), 3);
}
