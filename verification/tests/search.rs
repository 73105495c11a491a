use sherlock_rs::ledger::SqlValue;
use sherlock_rs::proposal::ProposalOutcome;
use sherlock_rs::result::{ExtractedValue, QueryResult, QueryStatus};
use sherlock_rs::search::{
    avatar_to_fetch, check_avatar_head, check_avatar_size, close_scan, fields_to_propose,
    first_step, json_list, next_step, open_scan, parse_usernames, plan_search,
    split_pieces, ScanRun, ScanSignal, ScanStep, SearchParams, Tally, VaultScan, MAX_AVATAR_BYTES,
};
use sherlock_rs::sites::{SiteData, SiteSource};
use sherlock_rs::table::Table;

fn params(usernames: &str) -> SearchParams {
    SearchParams {
        usernames: usernames.into(),
        timeout: None,
        nsfw: None,
        proxy: None,
        save_evidence: false,
        auto_accept: false,
        auto_accept_threshold: None,
        download_media: false,
    }
}

fn site(nsfw: Option<bool>) -> SiteData {
    SiteData {
        error_msg: None,
        error_type: "status_code".into(),
        error_code: None,
        error_url: None,
        url: "https://a.b/{}".into(),
        url_main: "https://a.b".into(),
        url_probe: None,
        username_claimed: None,
        username_unclaimed: None,
        regex_check: None,
        is_nsfw: nsfw,
        headers: None,
        request_method: None,
        request_payload: None,
        compiled_regex: None,
        detection: None,
        extractors: vec![],
        categories: vec![],
        source: SiteSource::Sherlock,
        compiled_extractors: vec![],
    }
}

fn result(status: QueryStatus, extracted: Option<Table<ExtractedValue>>) -> QueryResult {
    QueryResult {
        username: "bob".into(),
        site_name: "A".into(),
        url_main: "https://a.b".into(),
        site_url: "https://a.b/bob".into(),
        status,
        response_time_ms: Some(7),
        context: None,
        confidence: 75,
        extracted,
        body_sha256: Some("abc".into()),
    }
}

fn fields() -> Table<ExtractedValue> {
    let mut t: Table<ExtractedValue> = Table::new();
    t.insert("avatar_url".into(), ExtractedValue::One("https://pic".into()));
    t
}

#[test]
fn usernames_are_parsed() {
    assert_eq!(
        parse_usernames("johndoe\njanedoe, alice; bob ,,johndoe"),
        vec!["johndoe", "janedoe", "alice", "bob"]
    );
    assert!(parse_usernames(" , ;\n").is_empty());
    assert!(parse_usernames("").is_empty());
    let many = "a,b,c,d,e,f,g,h,i,j,k,l";
    let names = parse_usernames(many);
    assert_eq!(names.len(), 10);
    assert_eq!(names[9], "j");
    assert_eq!(split_pieces("a,,b;"), vec!["a", "", "b", ""]);
}

#[test]
fn names_are_listed_in_json() {
    assert_eq!(json_list(&vec![]), "[]");
    assert_eq!(
        json_list(&vec!["alice".into(), "b\"c\\d".into(), "é\t".into()]),
        "[\"alice\",\"b\\\"c\\\\d\",\"é\\t\"]"
    );
}

#[test]
fn search_is_planned() {
    let mut list: Table<SiteData> = Table::new();
    list.insert("A".into(), site(None));
    list.insert("B".into(), site(Some(true)));
    assert!(plan_search(params(" "), &list, false).is_none());
    let p = plan_search(params("bob"), &list, false).unwrap();
    assert_eq!(p.usernames, vec!["bob"]);
    assert_eq!(p.total, 1);
    assert_eq!(p.config.timeout_secs, 30);
    assert!(!p.config.include_nsfw);
    assert_eq!(p.vault, None);
    let mut q = params("bob");
    q.timeout = Some(1);
    q.nsfw = Some(true);
    q.proxy = Some("socks5://x".into());
    q.save_evidence = true;
    q.auto_accept = true;
    q.auto_accept_threshold = Some(700_000);
    let p = plan_search(q, &list, false).unwrap();
    assert_eq!(p.total, 2);
    assert_eq!(p.config.timeout_secs, 5);
    assert_eq!(p.config.proxy.as_deref(), Some("socks5://x"));
    assert_eq!(
        p.vault,
        Some(VaultScan {
            auto_accept: true,
            auto_accept_threshold: Some(700_000),
            download_media: false
        })
    );
    let mut q = params("bob");
    q.save_evidence = true;
    q.timeout = Some(60);
    let p = plan_search(q, &list, true).unwrap();
    assert_eq!(p.vault, None);
    assert_eq!(p.config.timeout_secs, 60);
}

#[test]
fn scan_is_opened_in_the_vault() {
    let list: Table<SiteData> = Table::new();
    let p = plan_search(params("bob"), &list, false).unwrap();
    assert!(open_scan(&p).is_none());
    let mut q = params("bob,amy");
    q.save_evidence = true;
    let p = plan_search(q, &list, false).unwrap();
    let (id, s) = open_scan(&p).unwrap();
    assert_eq!(id.len(), 36);
    assert_eq!(s.params.len(), 4);
    assert!(matches!(&s.params[0], SqlValue::Text(t) if *t == id));
    assert!(matches!(&s.params[2], SqlValue::Text(t) if t == "[\"bob\",\"amy\"]"));
    assert!(matches!(&s.params[3], SqlValue::Integer(0)));
}

#[test]
fn usernames_are_taken_one_after_another() {
    assert_eq!(first_step(0), ScanStep::Finish);
    let mut step = first_step(2);
    let signals = [
        ScanSignal::Sent,
        ScanSignal::Result,
        ScanSignal::Sent,
        ScanSignal::NoMoreResults,
        ScanSignal::Sent,
        ScanSignal::Sent,
        ScanSignal::NoMoreResults,
        ScanSignal::Sent,
    ];
    let mut seen = vec![step];
    for s in signals {
        step = next_step(step, s, 2);
        seen.push(step);
    }
    assert_eq!(
        seen,
        vec![
            ScanStep::SendStart(0),
            ScanStep::AwaitResult(0),
            ScanStep::SendResult(0),
            ScanStep::AwaitResult(0),
            ScanStep::SendDone(0),
            ScanStep::SendStart(1),
            ScanStep::AwaitResult(1),
            ScanStep::SendDone(1),
            ScanStep::Finish,
        ]
    );
    assert_eq!(
        next_step(ScanStep::SendResult(0), ScanSignal::Unheard, 2),
        ScanStep::Stop
    );
    assert_eq!(
        next_step(ScanStep::Stop, ScanSignal::Sent, 2),
        ScanStep::Stop
    );
}

#[test]
fn results_are_counted() {
    let mut t = Tally::new();
    t.count_result(QueryStatus::Claimed);
    t.count_result(QueryStatus::Available);
    t.count_outcome(&Some(ProposalOutcome::Queued { pending_id: 1 }));
    t.count_outcome(&Some(ProposalOutcome::Applied {
        profile_id: "p".into(),
    }));
    t.count_outcome(&Some(ProposalOutcome::NoEvidence));
    t.count_outcome(&None);
    assert_eq!((t.checked, t.found, t.total_hits), (2, 1, 1));
    assert_eq!((t.auto_accepted, t.queued), (1, 1));
    t.next_user();
    t.count_result(QueryStatus::Claimed);
    assert_eq!((t.checked, t.found, t.total_hits), (1, 1, 2));
}

#[test]
fn fields_are_proposed_of_claimed_results() {
    assert!(fields_to_propose(&result(QueryStatus::Claimed, Some(fields()))).is_some());
    assert!(fields_to_propose(&result(QueryStatus::Claimed, None)).is_none());
    assert!(fields_to_propose(&result(QueryStatus::Tentative, Some(fields()))).is_none());
}

#[test]
fn avatars_are_fetched_of_applied_proposals() {
    let applied = Some(ProposalOutcome::Applied {
        profile_id: "p".into(),
    });
    assert_eq!(
        avatar_to_fetch(&applied, true, &fields()),
        Some(("p".to_string(), "https://pic".to_string()))
    );
    assert_eq!(avatar_to_fetch(&applied, false, &fields()), None);
    assert_eq!(avatar_to_fetch(&applied, true, &Table::new()), None);
    let queued = Some(ProposalOutcome::Queued { pending_id: 1 });
    assert_eq!(avatar_to_fetch(&queued, true, &fields()), None);
    assert_eq!(avatar_to_fetch(&None, true, &fields()), None);
    let mut many: Table<ExtractedValue> = Table::new();
    many.insert(
        "avatar_url".into(),
        ExtractedValue::Many(vec!["https://pic".into()]),
    );
    assert_eq!(avatar_to_fetch(&applied, true, &many), None);
}

#[test]
fn avatars_must_be_small_images() {
    assert_eq!(
        check_avatar_head(200, "200 OK", Some("image/png".into())),
        Ok("image/png".to_string())
    );
    assert_eq!(
        check_avatar_head(404, "404 Not Found", Some("image/png".into())),
        Err("avatar fetch HTTP 404 Not Found".to_string())
    );
    assert_eq!(
        check_avatar_head(200, "200 OK", Some("text/html".into())),
        Err("non-image content-type text/html".to_string())
    );
    assert_eq!(
        check_avatar_head(200, "200 OK", None),
        Err("non-image content-type application/octet-stream".to_string())
    );
    assert_eq!(check_avatar_size(MAX_AVATAR_BYTES), Ok(()));
    assert_eq!(
        check_avatar_size(2 * 1024 * 1024 + 1),
        Err("avatar too large (2097153 bytes)".to_string())
    );
}

#[test]
fn results_are_told_with_their_place() {
    let list: Table<SiteData> = Table::new();
    let mut plan = plan_search(params("bob"), &list, false).unwrap();
    plan.total = 9;
    let mut run = ScanRun::begin(plan, None);
    run.advance(ScanSignal::Sent);
    for _ in 0..3 {
        run.advance(ScanSignal::Result);
        let r = result(QueryStatus::Claimed, Some(fields()));
        run.receive(&r);
        let e = run.result_event(r).unwrap();
        assert_eq!(e.checked, run.tally.checked);
        run.advance(ScanSignal::Sent);
    }
    let e = run
        .result_event(result(QueryStatus::Claimed, Some(fields())))
        .unwrap();
    assert_eq!(e.username, "bob");
    assert_eq!(e.status, "claimed");
    assert_eq!((e.checked, e.total), (3, 9));
    assert_eq!(e.confidence, 75);
    assert!(e.extracted.is_some());
    run.advance(ScanSignal::Unheard);
    assert!(run
        .result_event(result(QueryStatus::Claimed, None))
        .is_none());
}

#[test]
fn hits_are_those_of_the_run() {
    let list: Table<SiteData> = Table::new();
    let mut q = params("bob,amy");
    q.save_evidence = true;
    let plan = plan_search(q, &list, false).unwrap();
    let mut run = ScanRun::begin(plan, Some("scan".into()));
    let r = result(QueryStatus::Claimed, Some(fields()));
    let h = run.hit(&r).unwrap();
    assert_eq!(h.scan_id, "scan");
    assert_eq!(h.username, "bob");
    assert_eq!(h.site_name, r.site_name);
    assert_eq!(h.site_url, r.site_url);
    for signal in [ScanSignal::Sent, ScanSignal::NoMoreResults, ScanSignal::Sent] {
        run.advance(signal);
    }
    assert_eq!(run.hit(&r).unwrap().username, "amy");
    run.scan_id = None;
    assert!(run.hit(&r).is_none());
}

#[test]
fn run_keeps_what_it_is_asked_to_keep() {
    let list: Table<SiteData> = Table::new();
    let mut q = params("bob,amy");
    q.save_evidence = true;
    q.download_media = true;
    let plan = plan_search(q, &list, false).unwrap();
    let mut run = ScanRun::begin(plan, Some("scan".into()));
    let start = run.start_event().unwrap();
    assert_eq!(start.username, "bob");
    run.advance(ScanSignal::Sent);
    run.advance(ScanSignal::Result);
    let plan = run.receive(&result(QueryStatus::Claimed, Some(fields())));
    let row = plan.row.unwrap();
    assert_eq!(row.scan_id, "scan");
    assert_eq!(row.username, "bob");
    assert_eq!(row.status, "claimed");
    assert_eq!(row.body_sha256.as_deref(), Some("abc"));
    assert!(plan.propose);
    let outcome = Some(ProposalOutcome::Applied {
        profile_id: "p".into(),
    });
    assert!(run.settle(&outcome, &fields()).is_some());
    run.advance(ScanSignal::Sent);
    run.advance(ScanSignal::NoMoreResults);
    let done = run.done_event().unwrap();
    assert_eq!((done.found, done.checked), (1, 1));
    run.advance(ScanSignal::Sent);
    assert_eq!(run.start_event().unwrap().username, "amy");
    assert_eq!(run.tally.checked, 0);
    run.advance(ScanSignal::Sent);
    run.advance(ScanSignal::NoMoreResults);
    run.advance(ScanSignal::Sent);
    assert_eq!(run.step, ScanStep::Finish);
    assert!(run.start_event().is_none());
    let (s, v) = close_scan(run.scan_id, &run.tally).unwrap();
    assert_eq!(v.scan_id, "scan");
    assert_eq!((v.auto_accepted, v.queued), (1, 0));
    assert!(matches!(&s.params[1], SqlValue::Integer(1)));
    assert!(close_scan(None, &Tally::new()).is_none());
}

#[test]
fn run_without_vault_keeps_nothing() {
    let list: Table<SiteData> = Table::new();
    let plan = plan_search(params("bob"), &list, false).unwrap();
    let mut run = ScanRun::begin(plan, None);
    run.advance(ScanSignal::Sent);
    run.advance(ScanSignal::Result);
    let plan = run.receive(&result(QueryStatus::Claimed, Some(fields())));
    assert!(plan.row.is_none());
    assert!(!plan.propose);
    assert_eq!(run.tally.found, 1);
}

#[test]
fn whole_search_is_told_in_order() {
    let list: Table<SiteData> = Table::new();
    let mut plan = plan_search(params("bob,amy"), &list, false).unwrap();
    plan.total = 2;
    let mut run = ScanRun::begin(plan, None);
    let verdicts = [
        vec![QueryStatus::Claimed, QueryStatus::Available],
        vec![QueryStatus::Claimed],
    ];
    let mut told: Vec<String> = Vec::new();
    let mut user = 0;
    let mut next = 0;
    let mut current = None;
    loop {
        let signal = match run.step {
            ScanStep::SendStart(i) => {
                let e = run.start_event().unwrap();
                told.push(format!("start {} of {}", e.username, e.total));
                user = i;
                next = 0;
                ScanSignal::Sent
            }
            ScanStep::AwaitResult(_) => match verdicts[user].get(next) {
                Some(status) => {
                    let r = result(*status, None);
                    run.receive(&r);
                    current = Some(r);
                    next += 1;
                    ScanSignal::Result
                }
                None => ScanSignal::NoMoreResults,
            },
            ScanStep::SendResult(_) => {
                let e = run.result_event(current.take().unwrap()).unwrap();
                told.push(format!("{} {} {}/{}", e.username, e.status, e.checked, e.total));
                ScanSignal::Sent
            }
            ScanStep::SendDone(_) => {
                let e = run.done_event().unwrap();
                told.push(format!("done {} {} of {}", e.username, e.found, e.checked));
                ScanSignal::Sent
            }
            ScanStep::Finish => {
                told.push(format!("closing {}", run.tally.total_hits));
                break;
            }
            ScanStep::Stop => unreachable!(),
        };
        run.advance(signal);
    }
    assert_eq!(
        told,
        vec![
            "start bob of 2",
            "bob claimed 1/2",
            "bob available 2/2",
            "done bob 1 of 2",
            "start amy of 2",
            "amy claimed 1/2",
            "done amy 1 of 1",
            "closing 2",
        ]
    );
}
