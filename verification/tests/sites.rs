use sherlock_rs::sites::{
    fill, is_canonical_field, is_false, list_contains, merge_into, merge_site, normalize_domain,
    unite_categories, unite_extractors, Detection, ErrorCode, ErrorMsg, Extractor, SiteData,
    SiteSource,
};
use sherlock_rs::table::Table;

fn site(url_main: &str) -> SiteData {
    SiteData {
        error_msg: None,
        error_type: "status_code".into(),
        error_code: None,
        error_url: None,
        url: format!("{}/{{}}", url_main),
        url_main: url_main.into(),
        url_probe: None,
        username_claimed: None,
        username_unclaimed: None,
        regex_check: None,
        is_nsfw: None,
        headers: None,
        request_method: None,
        request_payload: None,
        compiled_regex: None,
        detection: None,
        extractors: vec![],
        categories: vec![],
        source: SiteSource::Sherlock,
        compiled_extractors: vec![],
    }
}

fn extractor(field: &str, selector: &str) -> Extractor {
    Extractor {
        field: field.to_string(),
        selector: Some(selector.to_string()),
        attribute: None,
        regex: None,
        multi: false,
    }
}

#[test]
fn normalize_domain_strips_scheme_www_and_trailing_slash() {
    assert_eq!(
        normalize_domain("https://www.GitHub.com/"),
        Some("github.com".into())
    );
    assert_eq!(
        normalize_domain("http://example.org"),
        Some("example.org".into())
    );
    assert_eq!(normalize_domain(""), None);
}

#[test]
fn normalize_domain_edges() {
    assert_eq!(normalize_domain("  HTTPS://A.B/c/d  "), Some("a.b".into()));
    assert_eq!(normalize_domain("www."), None);
    assert_eq!(normalize_domain("https://"), None);
    assert_eq!(normalize_domain("https:///x"), None);
    assert_eq!(
        normalize_domain("https://http://x.y"),
        Some("http:".into())
    );
    assert_eq!(
        normalize_domain("www.www.x.y/"),
        Some("www.x.y".into())
    );
    assert_eq!(normalize_domain("ÄB.de"), Some("Äb.de".into()));
}

#[test]
fn merge_site_wmn_wins_detection_and_sticky_nsfw() {
    let mut sherlock = SiteData {
        error_msg: None,
        error_type: "status_code".into(),
        error_code: None,
        error_url: None,
        url: "https://example.com/{}".into(),
        url_main: "https://example.com".into(),
        url_probe: None,
        username_claimed: None,
        username_unclaimed: None,
        regex_check: None,
        is_nsfw: Some(true),
        headers: None,
        request_method: None,
        request_payload: None,
        compiled_regex: None,
        detection: None,
        extractors: vec![],
        categories: vec!["legacy".into()],
        source: SiteSource::Sherlock,
        compiled_extractors: vec![],
    };
    sherlock.error_msg = Some(ErrorMsg::Single("not found".into()));

    let wmn = SiteData {
        error_msg: None,
        error_type: "dual_pattern".into(),
        error_code: None,
        error_url: None,
        url: "https://example.com/{}".into(),
        url_main: "https://example.com".into(),
        url_probe: None,
        username_claimed: None,
        username_unclaimed: None,
        regex_check: None,
        is_nsfw: None,
        headers: None,
        request_method: None,
        request_payload: None,
        compiled_regex: None,
        detection: Some(Detection {
            e_code: Some(200),
            e_string: Some("hello".into()),
            m_code: Some(404),
            m_string: None,
        }),
        extractors: vec![],
        categories: vec!["social".into()],
        source: SiteSource::Whatsmyname,
        compiled_extractors: vec![],
    };

    let merged = merge_site(sherlock, wmn);
    assert_eq!(merged.error_type, "dual_pattern");
    assert!(merged.detection.is_some());
    assert_eq!(merged.is_nsfw, Some(true));
    assert!(merged.categories.contains(&"legacy".into()));
    assert!(merged.categories.contains(&"social".into()));
    assert_eq!(merged.source, SiteSource::Merged);
}

#[test]
fn request_comes_from_the_side_with_detection() {
    let mut a = site("https://a.b");
    a.request_method = Some("HEAD".into());
    a.url_probe = Some("https://a.b/probe".into());
    let mut headers: Table<String> = Table::new();
    headers.insert("X".into(), "1".into());
    a.headers = Some(headers);
    let mut b = site("https://www.a.b/");
    b.request_method = Some("POST".into());
    b.request_payload = Some("\"{}\"".into());
    b.detection = Some(Detection {
        e_code: Some(200),
        e_string: None,
        m_code: None,
        m_string: None,
    });
    let m = merge_site(a.clone(), b.clone());
    assert_eq!(m.request_method.as_deref(), Some("POST"));
    assert_eq!(m.request_payload.as_deref(), Some("\"{}\""));
    assert_eq!(m.headers.unwrap().get("X"), Some(&"1".to_string()));
    assert_eq!(m.url_main, "https://www.a.b/");
    assert_eq!(m.url_probe.as_deref(), Some("https://a.b/probe"));
    let m = merge_site(b, a);
    assert_eq!(m.request_method.as_deref(), Some("POST"));
    assert_eq!(m.url_main, "https://www.a.b/");
    assert_eq!(m.error_type, "dual_pattern");
}

#[test]
fn error_type_without_detection_is_the_first_that_is_there() {
    let mut a = site("https://a.b");
    a.error_type = "".into();
    let mut b = site("https://a.b");
    b.error_type = "message".into();
    assert_eq!(merge_site(a, b).error_type, "message");
    let a = site("https://a.b");
    let mut b = site("https://a.b");
    b.error_type = "message".into();
    b.is_nsfw = Some(false);
    let m = merge_site(a, b);
    assert_eq!(m.error_type, "status_code");
    assert_eq!(m.is_nsfw, Some(false));
}

#[test]
fn extractors_are_united() {
    let u = unite_extractors(
        vec![extractor("bio", "old"), extractor("location", "loc")],
        vec![extractor("verified", "v"), extractor("bio", "new")],
    );
    let list: Vec<(String, Option<String>)> =
        u.into_iter().map(|e| (e.field, e.selector)).collect();
    assert_eq!(
        list,
        vec![
            ("bio".to_string(), Some("new".to_string())),
            ("location".to_string(), Some("loc".to_string())),
            ("verified".to_string(), Some("v".to_string())),
        ]
    );
}

#[test]
fn categories_keep_their_order() {
    let u = unite_categories(
        vec!["b".to_string(), "a".to_string()],
        vec!["a".to_string(), "c".to_string(), "c".to_string()],
    );
    assert_eq!(u, vec!["b".to_string(), "a".to_string(), "c".to_string()]);
    assert!(list_contains(&u, "c"));
    assert!(!list_contains(&u, "d"));
}

#[test]
fn lists_are_merged_by_domain() {
    let mut existing: Table<SiteData> = Table::new();
    existing.insert("GitHub".into(), site("https://www.github.com/"));
    existing.insert("Other".into(), site("https://other.example"));
    let mut incoming: Table<SiteData> = Table::new();
    let mut again = site("http://github.com");
    again.is_nsfw = Some(true);
    incoming.insert("github (wmn)".into(), again);
    incoming.insert("New".into(), site("https://new.example"));
    incoming.insert("New too".into(), site("https://www.new.example"));
    merge_into(&mut existing, incoming);
    assert_eq!(existing.len(), 3);
    assert_eq!(existing.key(0), "GitHub");
    assert_eq!(existing.key(1), "Other");
    assert_eq!(existing.key(2), "New");
    let g = existing.get("GitHub").unwrap();
    assert_eq!(g.source, SiteSource::Merged);
    assert_eq!(g.is_nsfw, Some(true));
    assert_eq!(existing.get("Other").unwrap().source, SiteSource::Sherlock);
    assert_eq!(existing.get("New").unwrap().source, SiteSource::Merged);
    assert!(!existing.contains_key("github (wmn)"));
}

#[test]
fn placeholders_are_filled() {
    let s = site("https://a.b");
    assert_eq!(s.format_url("bob"), "https://a.b/bob");
    assert_eq!(fill("{}/{}{", "x"), "x/x{");
    assert_eq!(fill("none", "x"), "none");
    assert_eq!(fill("{}", "{}"), "{}");
}

#[test]
fn error_messages_and_codes() {
    assert_eq!(ErrorMsg::Single("a".into()).as_vec(), vec!["a"]);
    assert_eq!(
        ErrorMsg::Multiple(vec!["a".into(), "b".into()]).as_vec(),
        vec!["a", "b"]
    );
    assert!(ErrorCode::Single(404).matches(404));
    assert!(!ErrorCode::Single(404).matches(410));
    assert!(ErrorCode::Multiple(vec![404, 410]).matches(410));
    assert!(!ErrorCode::Multiple(vec![]).matches(410));
}

#[test]
fn canonical_vocabulary() {
    for f in [
        "avatar_url",
        "bio",
        "display_name",
        "full_name",
        "location",
        "signup_date",
        "post_count",
        "follower_count",
        "following_count",
        "verified",
        "is_private",
        "last_seen",
        "external_links",
    ] {
        assert!(is_canonical_field(f));
    }
    assert!(!is_canonical_field("password"));
    assert!(!is_canonical_field("Bio"));
    assert!(!is_canonical_field(""));
    assert!(is_false(&false));
    assert!(!is_false(&true));
    assert_eq!(SiteSource::default(), SiteSource::Sherlock);
}

#[test]
fn merging_changes_only_shared_domains() {
    let mut existing: Table<SiteData> = Table::new();
    existing.insert("A".into(), site("https://a.example"));
    existing.insert("B".into(), site("https://b.example"));
    existing.insert("Bare".into(), site(""));
    let mut incoming: Table<SiteData> = Table::new();
    let mut first = site("http://www.a.example/");
    first.categories = vec!["x".into()];
    let mut second = site("a.example");
    second.categories = vec!["y".into()];
    incoming.insert("a1".into(), first);
    incoming.insert("a2".into(), second);
    incoming.insert("C".into(), site("https://c.example"));
    merge_into(&mut existing, incoming);
    assert_eq!(existing.len(), 4);
    let a = existing.get("A").unwrap();
    assert_eq!(a.source, SiteSource::Merged);
    assert_eq!(a.categories, vec!["x".to_string(), "y".to_string()]);
    assert_eq!(existing.get("B").unwrap().source, SiteSource::Sherlock);
    assert_eq!(existing.get("Bare").unwrap().source, SiteSource::Sherlock);
    assert_eq!(existing.key(3), "C");
}
