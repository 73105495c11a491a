use sherlock_rs::proposal::{
    auto_accept_detail, decide_proposal, effective_threshold, evidence_rows_from_extracted,
    high_signal_pairs, is_high_signal, propose_or_apply, EvidenceRow, Hit, ProposalPlan, Score,
    AUTO_ACCEPT_THRESHOLD,
};
use sherlock_rs::result::ExtractedValue;
use sherlock_rs::table::Table;

fn hit() -> Hit {
    Hit {
        scan_id: "scan".into(),
        username: "alice".into(),
        site_name: "GitHub".into(),
        site_url: "https://github.com/alice".into(),
    }
}

fn row(field: &str, value: &str) -> EvidenceRow {
    EvidenceRow {
        field: field.into(),
        value: value.into(),
        confidence: 95,
    }
}

#[test]
fn evidence_is_what_is_not_empty() {
    let mut t: Table<ExtractedValue> = Table::new();
    t.insert("bio".into(), ExtractedValue::One("hello".into()));
    t.insert("location".into(), ExtractedValue::One("".into()));
    t.insert(
        "external_links".into(),
        ExtractedValue::Many(vec!["a".into(), "".into(), "b".into()]),
    );
    let rows = evidence_rows_from_extracted(&t, 95);
    let list: Vec<(String, String, u8)> = rows
        .into_iter()
        .map(|r| (r.field, r.value, r.confidence))
        .collect();
    assert_eq!(
        list,
        vec![
            ("bio".to_string(), "hello".to_string(), 95),
            ("external_links".to_string(), "a".to_string(), 95),
            ("external_links".to_string(), "b".to_string(), 95),
        ]
    );
    assert!(evidence_rows_from_extracted(&Table::new(), 95).is_empty());
}

#[test]
fn high_signal_fields_are_three() {
    assert!(is_high_signal("avatar_url"));
    assert!(is_high_signal("full_name"));
    assert!(is_high_signal("display_name"));
    assert!(!is_high_signal("bio"));
    let pairs = high_signal_pairs(&vec![
        row("bio", "x"),
        row("avatar_url", "u"),
        row("full_name", "n"),
    ]);
    assert_eq!(
        pairs,
        vec![
            ("avatar_url".to_string(), "u".to_string()),
            ("full_name".to_string(), "n".to_string()),
        ]
    );
}

#[test]
fn known_username_accumulates() {
    let p = decide_proposal(
        hit(),
        vec![row("avatar_url", "x")],
        Some("p1".into()),
        &vec![vec!["p2".into()]],
    );
    assert_eq!(p.kind, "accumulate");
    assert_eq!(p.target_profile_id.as_deref(), Some("p1"));
    assert_eq!(p.new_label, None);
    assert_eq!(p.score, Score { num: 90, den: 100 });
    assert_eq!(
        p.rationale,
        "Username 'alice' already attached to this profile; appending evidence from GitHub."
    );
    assert_eq!(p.evidence.len(), 1);
    assert_eq!(p.scan_id, "scan");
    assert_eq!(p.site_url, "https://github.com/alice");
}

#[test]
fn shared_values_correlate() {
    let p = decide_proposal(
        hit(),
        vec![row("avatar_url", "u"), row("full_name", "n"), row("display_name", "d")],
        None,
        &vec![vec![], vec!["p2".into(), "p3".into()], vec!["p4".into()]],
    );
    assert_eq!(p.kind, "cross_site_correlation");
    assert_eq!(p.target_profile_id.as_deref(), Some("p2"));
    assert_eq!(p.score, Score { num: 2, den: 3 });
    assert_eq!(
        p.rationale,
        "2/3 high-signal fields (avatar_url / full_name / display_name) match an existing profile."
    );
}

#[test]
fn unknown_person_gets_a_profile() {
    let p = decide_proposal(hit(), vec![row("avatar_url", "u")], None, &vec![vec![]]);
    assert_eq!(p.kind, "new_profile");
    assert_eq!(p.target_profile_id, None);
    assert_eq!(p.new_label.as_deref(), Some("alice"));
    assert_eq!(p.score, Score { num: 1, den: 1 });
    assert_eq!(
        p.rationale,
        "No prior profile for 'alice'; suggesting a new profile."
    );
}

#[test]
fn thresholds_are_clamped() {
    assert_eq!(effective_threshold(None), AUTO_ACCEPT_THRESHOLD);
    assert_eq!(AUTO_ACCEPT_THRESHOLD, 800_000);
    assert_eq!(effective_threshold(Some(0)), 500_000);
    assert_eq!(effective_threshold(Some(1_000_000)), 950_000);
    assert_eq!(effective_threshold(Some(700_000)), 700_000);
}

#[test]
fn scores_are_compared_exactly() {
    assert!(Score { num: 4, den: 5 }.reaches(800_000));
    assert!(!Score { num: 2, den: 3 }.reaches(800_000));
    assert!(Score { num: 2, den: 3 }.reaches(666_666));
    assert!(!Score { num: 2, den: 3 }.reaches(666_667));
    assert!(Score {
        num: u64::MAX,
        den: u64::MAX
    }
    .reaches(1_000_000));
}

#[test]
fn sure_proposals_are_applied_on_request() {
    let plan = |auto: bool, threshold: Option<u64>, known: Option<String>| {
        propose_or_apply(
            hit(),
            vec![row("avatar_url", "u"), row("full_name", "n"), row("display_name", "d")],
            known,
            &vec![vec!["p".into()], vec!["p".into()], vec![]],
            auto,
            threshold,
        )
    };
    assert!(matches!(plan(false, None, None), ProposalPlan::Queue(_)));
    assert!(matches!(plan(true, None, None), ProposalPlan::Queue(_)));
    assert!(matches!(
        plan(true, Some(600_000), None),
        ProposalPlan::Apply(_)
    ));
    assert!(matches!(
        plan(true, None, Some("p".into())),
        ProposalPlan::Apply(_)
    ));
    assert!(matches!(
        plan(true, Some(950_000), Some("p".into())),
        ProposalPlan::Queue(_)
    ));
    assert!(matches!(
        propose_or_apply(hit(), vec![], None, &vec![], true, None),
        ProposalPlan::NoEvidence
    ));
}

#[test]
fn applied_proposals_are_described() {
    assert_eq!(
        auto_accept_detail("0.90", "accumulate", "GitHub"),
        "auto_accept score=0.90 kind=accumulate site=GitHub"
    );
}
