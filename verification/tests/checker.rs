use sherlock_rs::checker::{
    after_attempt, body_fingerprint, check_username, count_covered, detect_waf, determine_status,
    determine_status_v2, dual_pattern_decision, has_waf_signature, judge, make_task, match_pattern,
    plan_check, plan_request, random_ua, result_of_error, result_of_response, user_agents,
    CheckConfig, Method, RetryStep, SiteTask, MAX_ATTEMPTS, MAX_CONCURRENT,
};
use sherlock_rs::result::{ExtractedValue, QueryStatus};
use sherlock_rs::sites::{
    CompiledExtractor, Detection, ErrorCode, ErrorMsg, SiteData, SiteSource,
};
use sherlock_rs::table::Table;

fn site(error_type: &str) -> SiteData {
    SiteData {
        error_msg: None,
        error_type: error_type.into(),
        error_code: None,
        error_url: None,
        url: "https://a.b/{}".into(),
        url_main: "https://a.b".into(),
        url_probe: None,
        username_claimed: None,
        username_unclaimed: None,
        regex_check: None,
        is_nsfw: None,
        headers: None,
        request_method: None,
        request_payload: None,
        compiled_regex: None,
        detection: None,
        extractors: vec![],
        categories: vec![],
        source: SiteSource::Sherlock,
        compiled_extractors: vec![],
    }
}

fn rule(
    e_code: Option<u16>,
    e_string: Option<&str>,
    m_code: Option<u16>,
    m_string: Option<&str>,
) -> Detection {
    Detection {
        e_code,
        e_string: e_string.map(str::to_string),
        m_code,
        m_string: m_string.map(str::to_string),
    }
}

#[test]
fn there_are_25_user_agents_and_one_is_picked() {
    let all = user_agents();
    assert_eq!(all.len(), 25);
    assert!(all.iter().all(|ua| ua.starts_with("Mozilla/5.0 (")));
    for _ in 0..50 {
        assert!(all.contains(&random_ua()));
    }
    assert_eq!(MAX_CONCURRENT, 20);
    assert_eq!(MAX_ATTEMPTS, 3);
}

#[test]
fn firewalls_are_detected_in_any_case() {
    assert!(detect_waf("<title>Attention Required! | Cloudflare</title>"));
    assert!(detect_waf("<TITLE>JUST A MOMENT...</TITLE>"));
    assert!(detect_waf("var _CF_CHL_OPT = 1"));
    assert!(detect_waf("Access denied | site"));
    assert!(detect_waf("Pardon our interruption"));
    assert!(detect_waf("checking your browser"));
    assert!(detect_waf("cf-browser-verification"));
    assert!(detect_waf("please wait... | cloudflare"));
    assert!(!detect_waf("hello"));
    assert!(!detect_waf(""));
    assert!(has_waf_signature("just a moment..."));
    assert!(!has_waf_signature("Just a moment..."));
}

#[test]
fn status_code_sites() {
    let mut s = site("status_code");
    assert_eq!(determine_status(&s, 404, ""), QueryStatus::Available);
    assert_eq!(determine_status(&s, 200, ""), QueryStatus::Claimed);
    assert_eq!(determine_status(&s, 299, ""), QueryStatus::Claimed);
    assert_eq!(determine_status(&s, 300, ""), QueryStatus::Unknown);
    assert_eq!(determine_status(&s, 403, ""), QueryStatus::Unknown);
    s.error_code = Some(ErrorCode::Multiple(vec![200, 410]));
    assert_eq!(determine_status(&s, 200, ""), QueryStatus::Available);
    assert_eq!(determine_status(&s, 404, ""), QueryStatus::Unknown);
    assert_eq!(determine_status(&s, 204, ""), QueryStatus::Claimed);
    assert_eq!(determine_status_v2(&s, 204, ""), (QueryStatus::Claimed, 75));
}

#[test]
fn message_sites() {
    let mut s = site("message");
    assert_eq!(determine_status(&s, 200, "x"), QueryStatus::Unknown);
    s.error_msg = Some(ErrorMsg::Multiple(vec![
        "no such user".into(),
        "gone".into(),
    ]));
    assert_eq!(
        determine_status_v2(&s, 200, "is gone now"),
        (QueryStatus::Available, 80)
    );
    assert_eq!(
        determine_status_v2(&s, 200, "hello"),
        (QueryStatus::Claimed, 80)
    );
    assert_eq!(determine_status_v2(&s, 500, "hello"), (QueryStatus::Unknown, 0));
    assert_eq!(determine_status(&s, 500, "gone"), QueryStatus::Available);
}

#[test]
fn response_url_sites() {
    let s = site("response_url");
    assert_eq!(determine_status_v2(&s, 200, ""), (QueryStatus::Claimed, 70));
    assert_eq!(determine_status_v2(&s, 302, ""), (QueryStatus::Available, 70));
    assert_eq!(determine_status(&site("other"), 200, ""), QueryStatus::Unknown);
}

#[test]
fn firewall_comes_before_everything() {
    let s = site("status_code");
    assert_eq!(
        determine_status_v2(&s, 404, "Just a moment..."),
        (QueryStatus::Waf, 10)
    );
    assert_eq!(judge(&s, 200, "", true), (QueryStatus::Waf, 10));
    assert_eq!(judge(&s, 200, "", false), (QueryStatus::Claimed, 75));
}

#[test]
fn both_patterns_must_agree() {
    let d = rule(Some(200), Some("profile"), Some(404), None);
    assert_eq!(
        dual_pattern_decision(&d, 200, "a profile"),
        (QueryStatus::Claimed, 95)
    );
    assert_eq!(
        dual_pattern_decision(&d, 404, "a profile"),
        (QueryStatus::Available, 95)
    );
    assert_eq!(dual_pattern_decision(&d, 200, "none"), (QueryStatus::Unknown, 0));
    let d = rule(Some(200), None, None, Some("missing"));
    assert_eq!(
        dual_pattern_decision(&d, 200, "missing"),
        (QueryStatus::Tentative, 40)
    );
}

#[test]
fn one_pattern_is_enough() {
    let d = rule(None, Some("profile"), None, None);
    assert_eq!(
        dual_pattern_decision(&d, 500, "profile"),
        (QueryStatus::Claimed, 75)
    );
    assert_eq!(dual_pattern_decision(&d, 200, ""), (QueryStatus::Available, 75));
    let d = rule(None, None, Some(404), None);
    assert_eq!(dual_pattern_decision(&d, 200, ""), (QueryStatus::Claimed, 75));
    assert_eq!(dual_pattern_decision(&d, 404, ""), (QueryStatus::Available, 75));
    let d = rule(None, None, None, None);
    assert_eq!(dual_pattern_decision(&d, 200, ""), (QueryStatus::Unknown, 0));
    assert_eq!(match_pattern(None, &None, 200, ""), None);
    assert_eq!(
        match_pattern(Some(200), &Some("x".into()), 200, "axb"),
        Some(true)
    );
    assert_eq!(match_pattern(Some(200), &Some("x".into()), 201, "axb"), Some(false));
}

#[test]
fn detection_supersedes_the_error_fields() {
    let mut s = site("status_code");
    s.detection = Some(rule(Some(404), None, Some(200), None));
    assert_eq!(determine_status(&s, 404, ""), QueryStatus::Claimed);
    assert_eq!(determine_status(&s, 200, ""), QueryStatus::Available);
}

#[test]
fn request_is_planned() {
    let mut s = site("response_url");
    s.url_probe = Some("https://api.b/{}".into());
    s.request_method = Some("POST".into());
    s.request_payload = Some("{\"name\":\"{}\"}".into());
    let mut headers: Table<String> = Table::new();
    headers.insert("X-Key".into(), "1".into());
    s.headers = Some(headers);
    let p = plan_request(&s, "bob", "UA");
    assert_eq!(p.method, Method::Post);
    assert_eq!(p.probe_url, "https://api.b/bob");
    assert!(!p.follow_redirects);
    assert_eq!(
        p.headers,
        vec![
            ("User-Agent".to_string(), "UA".to_string()),
            ("X-Key".to_string(), "1".to_string()),
            ("Content-Type".to_string(), "application/json".to_string()),
        ]
    );
    assert_eq!(p.body.as_deref(), Some("{\"name\":\"bob\"}"));
}

#[test]
fn plain_request_is_a_get() {
    let mut s = site("status_code");
    let p = plan_check(&s, "bob");
    assert_eq!(p.method, Method::Get);
    assert_eq!(p.probe_url, "https://a.b/bob");
    assert!(p.follow_redirects);
    assert!(user_agents().contains(&p.headers[0].1.as_str()));
    assert_eq!(p.body, None);
    s.request_method = Some("HEAD".into());
    assert_eq!(plan_check(&s, "bob").method, Method::Head);
    s.request_method = Some("PUT".into());
    assert_eq!(plan_check(&s, "bob").method, Method::Put);
    s.request_method = Some("DELETE".into());
    assert_eq!(plan_check(&s, "bob").method, Method::Get);
}

#[test]
fn bodies_are_digested() {
    assert_eq!(
        body_fingerprint("abc"),
        "ba7816bf8f01cfea414140de5dae2223b00361a396177a9cb410ff61f20015ad"
    );
    let long = "x".repeat(65536);
    let longer = "x".repeat(70000);
    assert_eq!(body_fingerprint(&long), body_fingerprint(&longer));
    assert_ne!(body_fingerprint(&long), body_fingerprint(&long[1..]));
}

#[test]
fn response_becomes_a_result() {
    let mut s = site("status_code");
    s.compiled_extractors = vec![CompiledExtractor {
        field: "bio".into(),
        selector: "p".into(),
        attribute: None,
        regex: None,
        multi: false,
    }];
    let r = result_of_response("A", &s, "bob", 12, 200, "<p>hi</p>");
    assert_eq!(r.username, "bob");
    assert_eq!(r.site_name, "A");
    assert_eq!(r.url_main, "https://a.b");
    assert_eq!(r.site_url, "https://a.b/bob");
    assert_eq!(r.status, QueryStatus::Claimed);
    assert_eq!(r.response_time_ms, Some(12));
    assert_eq!(r.context, None);
    assert_eq!(r.confidence, 75);
    assert_eq!(
        r.extracted.unwrap().get("bio"),
        Some(&ExtractedValue::One("hi".into()))
    );
    assert_eq!(r.body_sha256, Some(body_fingerprint("<p>hi</p>")));
    let r = result_of_response("A", &s, "bob", 12, 404, "<p>hi</p>");
    assert!(r.extracted.is_none());
    assert!(r.body_sha256.is_some());
    let r = result_of_response("A", &s, "bob", 12, 200, "none");
    assert!(r.extracted.is_none());
    let r = result_of_response("A", &s, "bob", 12, 200, "Just a moment...");
    assert_eq!(r.status, QueryStatus::Waf);
    assert_eq!(r.body_sha256, None);
}

#[test]
fn network_errors_are_retried() {
    let s = site("status_code");
    let net = || result_of_error("A", &s, "bob", 5, true, "timed out");
    assert_eq!(net().context.as_deref(), Some("NET: timed out"));
    assert_eq!(net().status, QueryStatus::Unknown);
    assert!(matches!(
        after_attempt(0, net()),
        RetryStep::RetryAfter { delay_ms: 500 }
    ));
    assert!(matches!(
        after_attempt(1, net()),
        RetryStep::RetryAfter { delay_ms: 1000 }
    ));
    match after_attempt(2, net()) {
        RetryStep::Finish(r) => {
            assert_eq!(r.context.as_deref(), Some("timed out (after 2 retries)"))
        }
        other => panic!("expected Finish, got {other:?}"),
    }
}

#[test]
fn other_outcomes_are_final() {
    let s = site("status_code");
    let e = result_of_error("A", &s, "bob", 5, false, "bad url");
    match after_attempt(0, e) {
        RetryStep::Finish(r) => assert_eq!(r.context.as_deref(), Some("Error: bad url")),
        other => panic!("expected Finish, got {other:?}"),
    }
    let r = result_of_response("A", &s, "bob", 5, 403, "");
    assert!(matches!(after_attempt(0, r), RetryStep::Finish(_)));
}

#[test]
fn every_covered_site_gets_a_task() {
    let mut list: Table<SiteData> = Table::new();
    list.insert("Plain".into(), site("status_code"));
    let mut adult = site("status_code");
    adult.is_nsfw = Some(true);
    list.insert("Adult".into(), adult);
    let mut strict = site("status_code");
    strict.regex_check = Some("^[a-z]+$".into());
    list.insert("Strict".into(), strict);
    let mut broken = site("status_code");
    broken.regex_check = Some("(".into());
    list.insert("Broken".into(), broken);
    let config = CheckConfig {
        timeout_secs: 30,
        include_nsfw: false,
        proxy: None,
    };
    let tasks = check_username("bob1", &list, &config);
    assert_eq!(tasks.len(), 3);
    assert_eq!(count_covered(&list, false), 3);
    assert!(matches!(tasks[0], SiteTask::Ask(0)));
    match &tasks[1] {
        SiteTask::Report(r) => {
            assert_eq!(r.site_name, "Strict");
            assert_eq!(r.status, QueryStatus::Illegal);
            assert_eq!(
                r.context.as_deref(),
                Some("Invalid username format for this site")
            );
            assert_eq!(r.response_time_ms, None);
            assert_eq!(r.body_sha256, None);
            assert_eq!(r.confidence, 100);
        }
        other => panic!("expected Report, got {other:?}"),
    }
    assert!(matches!(tasks[2], SiteTask::Ask(3)));
    let config = CheckConfig {
        timeout_secs: 30,
        include_nsfw: true,
        proxy: Some("".into()),
    };
    let tasks = check_username("bob", &list, &config);
    assert_eq!(tasks.len(), 4);
    assert!(tasks.iter().all(|t| matches!(t, SiteTask::Ask(_))));
    assert_eq!(count_covered(&list, true), 4);
    assert_eq!(config.effective_proxy(), None);
    assert!(matches!(
        make_task("A", &site("x"), "b", 4, true),
        SiteTask::Ask(4)
    ));
    assert!(matches!(
        make_task("A", &site("x"), "b", 4, false),
        SiteTask::Report(_)
    ));
}

#[test]
fn proxy_is_used_where_it_is_named() {
    let config = CheckConfig {
        timeout_secs: 30,
        include_nsfw: true,
        proxy: Some("socks5://127.0.0.1:9050".into()),
    };
    assert_eq!(
        config.effective_proxy(),
        Some(&"socks5://127.0.0.1:9050".to_string())
    );
}

#[test]
fn statuses_are_named() {
    assert_eq!(QueryStatus::Claimed.as_str(), "claimed");
    assert_eq!(QueryStatus::Available.as_str(), "available");
    assert_eq!(QueryStatus::Unknown.as_str(), "unknown");
    assert_eq!(QueryStatus::Illegal.as_str(), "illegal");
    assert_eq!(QueryStatus::Waf.as_str(), "waf");
    assert_eq!(QueryStatus::Tentative.as_str(), "tentative");
}
