use sherlock_rs::catalog::{
    assemble, compile_rules, convert_maigret, convert_wmn, fetch_error, keep_canonical,
    load_cached, parse_maigret, parse_sherlock, parse_wmn, plan_load, LoadPlan, MaigretSiteEntry,
    Sources, WmnSite,
};
use sherlock_rs::extract::run_extractors;
use sherlock_rs::proposal::evidence_rows_from_extracted;
use sherlock_rs::sites::{Detection, Extractor, SiteData, SiteSource};

fn site(url_main: &str) -> SiteData {
    SiteData {
        error_msg: None,
        error_type: "status_code".into(),
        error_code: None,
        error_url: None,
        url: format!("{}/{{}}", url_main),
        url_main: url_main.into(),
        url_probe: None,
        username_claimed: None,
        username_unclaimed: None,
        regex_check: None,
        is_nsfw: None,
        headers: None,
        request_method: None,
        request_payload: None,
        compiled_regex: None,
        detection: None,
        extractors: vec![],
        categories: vec![],
        source: SiteSource::Sherlock,
        compiled_extractors: vec![],
    }
}

fn wmn(name: &str, uri_check: &str) -> WmnSite {
    WmnSite {
        name: name.into(),
        uri_check: uri_check.into(),
        e_code: Some(200),
        e_string: Some("yes".into()),
        m_code: Some(404),
        m_string: None,
        cat: None,
        post_body: None,
    }
}

fn extractor(field: &str, selector: &str) -> Extractor {
    Extractor {
        field: field.into(),
        selector: Some(selector.into()),
        attribute: None,
        regex: None,
        multi: false,
    }
}

#[test]
fn rules_are_checked_at_load() {
    let mut s = site("https://a.b");
    s.regex_check = Some("^[a-z]+$".into());
    s.extractors = vec![extractor("bio", "p"), extractor("location", "[")];
    let c = compile_rules(s);
    assert_eq!(c.compiled_regex.as_deref(), Some("^[a-z]+$"));
    assert_eq!(c.compiled_extractors.len(), 1);
    assert_eq!(c.extractors.len(), 2);
    let mut s = site("https://a.b");
    s.regex_check = Some("(".into());
    let c = compile_rules(s);
    assert_eq!(c.compiled_regex, None);
    assert_eq!(c.regex_check.as_deref(), Some("("));
}

#[test]
fn sherlock_lists_are_read() {
    let t = parse_sherlock(vec![
        ("$schema".into(), Some(site("https://schema"))),
        ("A".into(), Some(site("https://a.b"))),
        ("Bad".into(), None),
        ("C".into(), Some(site("https://c.d"))),
    ]);
    assert_eq!(t.len(), 2);
    assert_eq!(t.key(0), "A");
    assert_eq!(t.key(1), "C");
    assert!(!t.contains_key("$schema"));
}

#[test]
fn whatsmyname_sites_are_converted() {
    let mut w = wmn("X", "https://www.X.com/u/{account}?a={account}");
    w.cat = Some("social".into());
    w.post_body = Some("user=\"{account}\"\n\u{1}".into());
    let (name, s) = convert_wmn(w);
    assert_eq!(name, "X");
    assert_eq!(s.url, "https://www.X.com/u/{}?a={}");
    assert_eq!(s.url_main, "https://x.com");
    assert_eq!(s.error_type, "dual_pattern");
    assert_eq!(s.request_method.as_deref(), Some("POST"));
    assert_eq!(
        s.request_payload.as_deref(),
        Some("\"user=\\\"{account}\\\"\\n\\u0001\"")
    );
    assert_eq!(s.categories, vec!["social".to_string()]);
    assert_eq!(s.source, SiteSource::Whatsmyname);
    let d = s.detection.unwrap();
    assert_eq!(d.e_code, Some(200));
    assert_eq!(d.e_string.as_deref(), Some("yes"));
    assert_eq!(d.m_code, Some(404));
    assert_eq!(d.m_string, None);
}

#[test]
fn whatsmyname_site_without_domain_keeps_its_url() {
    let (_, s) = convert_wmn(wmn("X", "/{account}"));
    assert_eq!(s.url_main, "/{}");
    assert_eq!(s.request_method, None);
    assert_eq!(s.request_payload, None);
    assert!(s.categories.is_empty());
}

#[test]
fn whatsmyname_lists_are_read() {
    let t = parse_wmn(vec![
        wmn("A", "https://a.b/{account}"),
        wmn("B", "https://b.c/{account}"),
        wmn("A", "https://d.e/{account}"),
    ]);
    assert_eq!(t.len(), 2);
    assert_eq!(t.get("A").unwrap().url_main, "https://d.e");
}

fn maigret(extractors: Vec<Extractor>, detection: Option<Detection>) -> MaigretSiteEntry {
    MaigretSiteEntry {
        url: "https://m.n/{}".into(),
        url_main: "https://m.n".into(),
        categories: vec!["photo".into()],
        detection,
        extractors,
    }
}

#[test]
fn maigret_sites_keep_canonical_fields() {
    let s = convert_maigret(maigret(
        vec![extractor("bio", "p"), extractor("shoe_size", "q")],
        None,
    ));
    assert_eq!(s.error_type, "status_code");
    assert_eq!(s.extractors.len(), 1);
    assert_eq!(s.extractors[0].field, "bio");
    assert_eq!(s.categories, vec!["photo".to_string()]);
    assert_eq!(s.source, SiteSource::Maigret);
    let s = convert_maigret(maigret(
        vec![],
        Some(Detection {
            e_code: Some(200),
            e_string: None,
            m_code: None,
            m_string: None,
        }),
    ));
    assert_eq!(s.error_type, "dual_pattern");
    assert!(s.detection.is_some());
    assert_eq!(
        keep_canonical(vec![extractor("x", "p"), extractor("verified", "p")]).len(),
        1
    );
}

#[test]
fn maigret_lists_are_read() {
    let t = parse_maigret(vec![
        ("_meta".into(), Some(maigret(vec![], None))),
        ("M".into(), Some(maigret(vec![], None))),
        ("Bad".into(), None),
    ]);
    assert_eq!(t.len(), 1);
    assert!(t.contains_key("M"));
}

#[test]
fn sources_are_assembled() {
    let mut mine = site("https://mine.example");
    mine.error_type = "message".into();
    let sources = Sources {
        sherlock: Ok(vec![
            ("GitHub".into(), Some(site("https://github.com"))),
            ("Old".into(), Some(site("https://old.example"))),
        ]),
        whatsmyname: Ok(vec![
            wmn("gh", "https://www.github.com/{account}"),
            wmn("W", "https://w.example/{account}"),
        ]),
        maigret: Ok(vec![(
            "GH".into(),
            Some(MaigretSiteEntry {
                url: "https://github.com/{}".into(),
                url_main: "https://github.com/".into(),
                categories: vec!["code".into()],
                detection: None,
                extractors: vec![extractor("bio", "p")],
            }),
        )]),
        custom: Some(vec![("Adult".into(), Some(site("https://adult.example")))]),
        overrides: vec![vec![("Old".into(), Some(mine))]],
    };
    let a = assemble(sources).unwrap();
    assert_eq!(a.sherlock_count, 2);
    assert_eq!(a.wmn_count, 2);
    assert_eq!(a.maigret_count, 1);
    assert!(a.errors.is_empty());
    assert_eq!(a.sites.len(), 4);
    let g = a.sites.get("GitHub").unwrap();
    assert_eq!(g.source, SiteSource::Merged);
    assert_eq!(g.error_type, "dual_pattern");
    assert_eq!(g.categories, vec!["code".to_string()]);
    assert_eq!(g.compiled_extractors.len(), 1);
    let c = a.sites.get("Adult").unwrap();
    assert_eq!(c.is_nsfw, Some(true));
    assert_eq!(c.source, SiteSource::Custom);
    let o = a.sites.get("Old").unwrap();
    assert_eq!(o.url_main, "https://mine.example");
    assert_eq!(o.error_type, "message");
}

#[test]
fn missing_sources_are_noted() {
    let sources = Sources {
        sherlock: Err("offline".into()),
        whatsmyname: Ok(vec![wmn("W", "https://w.example/{account}")]),
        maigret: Err("bad json".into()),
        custom: None,
        overrides: vec![],
    };
    let a = assemble(sources).unwrap();
    assert_eq!(
        a.errors,
        vec!["sherlock: offline".to_string(), "maigret: bad json".to_string()]
    );
    assert_eq!(a.sherlock_count, 0);
    assert_eq!(a.wmn_count, 1);
    assert_eq!(a.sites.len(), 1);
}

#[test]
fn nothing_loaded_is_an_error() {
    let sources = Sources {
        sherlock: Err("a".into()),
        whatsmyname: Err("b".into()),
        maigret: Ok(vec![]),
        custom: None,
        overrides: vec![vec![]],
    };
    assert_eq!(
        assemble(sources).unwrap_err(),
        "no sites loaded from any source; errors: [sherlock: a; whatsmyname: b]"
    );
}

#[test]
fn caches_are_chosen() {
    assert_eq!(plan_load(true, true), LoadPlan::Merged);
    assert_eq!(plan_load(true, false), LoadPlan::Merged);
    assert_eq!(plan_load(false, true), LoadPlan::LegacyAndRefresh);
    assert_eq!(plan_load(false, false), LoadPlan::Download);
}

#[test]
fn overrides_go_over_the_cache() {
    let t = load_cached(
        vec![
            ("A".into(), Some(site("https://a.b"))),
            ("B".into(), Some(site("https://b.c"))),
        ],
        vec![
            vec![("A".into(), Some(site("https://x.y")))],
            vec![("N".into(), Some(site("https://n.o")))],
        ],
    );
    assert_eq!(t.len(), 3);
    assert_eq!(t.get("A").unwrap().url_main, "https://x.y");
    assert_eq!(t.get("B").unwrap().url_main, "https://b.c");
}

fn fields_of(s: &SiteData) -> Vec<String> {
    s.compiled_extractors.iter().map(|c| c.field.clone()).collect()
}

fn with_shoe_size() -> SiteData {
    let mut s = site("https://a.b");
    s.extractors = vec![extractor("shoe_size", "p"), extractor("bio", "p")];
    s
}

#[test]
fn other_fields_are_dropped_from_every_list() {
    let page = "<p>x</p>";
    let bio = vec!["bio".to_string()];
    let s = compile_rules(with_shoe_size());
    assert_eq!(fields_of(&s), bio);
    assert_eq!(s.extractors.len(), 1);
    let found = run_extractors(page, &s.compiled_extractors);
    assert_eq!(found.len(), 1);
    assert!(!found.contains_key("shoe_size"));
    let rows = evidence_rows_from_extracted(&found, 80);
    assert!(rows.iter().all(|r| r.field == "bio"));
    let t = load_cached(
        vec![("A".into(), Some(with_shoe_size()))],
        vec![vec![("B".into(), Some(with_shoe_size()))]],
    );
    assert_eq!(fields_of(t.get("A").unwrap()), bio);
    assert_eq!(fields_of(t.get("B").unwrap()), bio);
    let a = assemble(Sources {
        sherlock: Ok(vec![("S".into(), Some(with_shoe_size()))]),
        whatsmyname: Ok(vec![]),
        maigret: Ok(vec![(
            "M".into(),
            Some(maigret(vec![extractor("shoe_size", "p")], None)),
        )]),
        custom: Some(vec![("C".into(), Some(with_shoe_size()))]),
        overrides: vec![vec![("O".into(), Some(with_shoe_size()))]],
    })
    .unwrap();
    for name in ["S", "C", "O"] {
        assert_eq!(fields_of(a.sites.get(name).unwrap()), bio);
    }
    assert!(fields_of(a.sites.get("M").unwrap()).is_empty());
}

#[test]
fn downloads_must_succeed() {
    assert_eq!(fetch_error(200, "200 OK", "u"), None);
    assert_eq!(
        fetch_error(404, "404 Not Found", "https://u"),
        Some("HTTP 404 Not Found from https://u".to_string())
    );
}
