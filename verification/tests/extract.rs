use sherlock_rs::extract::{
    collect, compile_all, compile_checked, compile_extractor, keep_non_empty, pick_values,
    run_extractors,
};
use sherlock_rs::result::ExtractedValue;
use sherlock_rs::sites::{CompiledExtractor, Extractor};

fn make(
    field: &str,
    selector: &str,
    attr: Option<&str>,
    regex: Option<&str>,
    multi: bool,
) -> CompiledExtractor {
    compile_extractor(&Extractor {
        field: field.to_string(),
        selector: Some(selector.to_string()),
        attribute: attr.map(str::to_string),
        regex: regex.map(str::to_string),
        multi,
    })
    .expect("test selector should parse")
}

const HTML: &str = r#"
        <html><body>
            <img class="avatar" src="https://cdn/avatar.png" />
            <span class="name">Jane Doe</span>
            <div class="bio">Hello world</div>
            <li class="link"><a href="https://a.example">A</a></li>
            <li class="link"><a href="https://b.example">B</a></li>
            <span class="followers">1,234 followers</span>
        </body></html>
    "#;

#[test]
fn extracts_attribute_value() {
    let exs = vec![make("avatar_url", "img.avatar", Some("src"), None, false)];
    let out = run_extractors(HTML, &exs);
    assert_eq!(
        out.get("avatar_url"),
        Some(&ExtractedValue::One("https://cdn/avatar.png".to_string()))
    );
}

#[test]
fn extracts_text_content() {
    let exs = vec![make("display_name", "span.name", None, None, false)];
    let out = run_extractors(HTML, &exs);
    assert_eq!(
        out.get("display_name"),
        Some(&ExtractedValue::One("Jane Doe".to_string()))
    );
}

#[test]
fn extracts_multi_into_vec() {
    let exs = vec![make("external_links", "li.link a", Some("href"), None, true)];
    let out = run_extractors(HTML, &exs);
    let Some(ExtractedValue::Many(links)) = out.get("external_links") else {
        panic!("expected Many, got {:?}", out.get("external_links"));
    };
    assert_eq!(links.len(), 2);
    assert!(links.contains(&"https://a.example".to_string()));
}

#[test]
fn regex_postfilter_captures_group_one() {
    let exs = vec![make(
        "follower_count",
        "span.followers",
        None,
        Some(r"([\d,]+)\s+followers"),
        false,
    )];
    let out = run_extractors(HTML, &exs);
    assert_eq!(
        out.get("follower_count"),
        Some(&ExtractedValue::One("1,234".to_string()))
    );
}

#[test]
fn missing_field_yields_no_entry() {
    let exs = vec![make("bio", "div.nothing-here", None, None, false)];
    let out = run_extractors(HTML, &exs);
    assert!(out.is_empty());
}

#[test]
fn bad_selector_drops_the_rule_and_bad_regex_only_itself() {
    let raw = Extractor {
        field: "bio".to_string(),
        selector: Some("div..[".to_string()),
        attribute: None,
        regex: None,
        multi: false,
    };
    assert!(compile_extractor(&raw).is_none());
    let kept = make("bio", "div.bio", None, Some("("), false);
    assert!(kept.regex.is_none());
    let out = run_extractors(HTML, &vec![kept]);
    assert_eq!(
        out.get("bio"),
        Some(&ExtractedValue::One("Hello world".to_string()))
    );
}

fn rootless(attribute: Option<&str>, regex: Option<&str>, multi: bool) -> CompiledExtractor {
    compile_extractor(&Extractor {
        field: "follower_count".to_string(),
        selector: None,
        attribute: attribute.map(str::to_string),
        regex: regex.map(str::to_string),
        multi,
    })
    .unwrap()
}

#[test]
fn rule_without_selector_reads_the_root() {
    let ex = rootless(None, Some("([0-9]+,[0-9]+) followers"), false);
    assert_eq!(ex.selector, ":root");
    let out = run_extractors(HTML, &vec![ex]);
    assert_eq!(
        out.get("follower_count"),
        Some(&ExtractedValue::One("1,234".to_string()))
    );
    // The whole page once, however many elements it has.
    let page = "<html lang=\"en\"><body><p>a</p><p lang=\"de\">b</p></body></html>";
    assert_eq!(
        collect(page, &rootless(None, None, true)),
        vec!["ab".to_string()]
    );
    assert_eq!(
        collect(page, &rootless(Some("lang"), None, true)),
        vec!["en".to_string()]
    );
    // An inner element does not stand in for the root.
    assert!(collect(page, &rootless(None, Some("^(b)$"), false)).is_empty());
}

#[test]
fn checked_rules_follow_what_was_found() {
    let raw = Extractor {
        field: "bio".to_string(),
        selector: Some("p".to_string()),
        attribute: Some("title".to_string()),
        regex: Some("(x)".to_string()),
        multi: true,
    };
    assert!(compile_checked(&raw, false, true).is_none());
    let c = compile_checked(&raw, true, false).unwrap();
    assert_eq!(c.field, "bio");
    assert_eq!(c.selector, "p");
    assert_eq!(c.attribute.as_deref(), Some("title"));
    assert_eq!(c.regex, None);
    assert!(c.multi);
    assert_eq!(
        compile_checked(&raw, true, true).unwrap().regex.as_deref(),
        Some("(x)")
    );
}

#[test]
fn rules_are_compiled_in_order() {
    let raws = vec![
        Extractor {
            field: "a".to_string(),
            selector: Some("p".to_string()),
            attribute: None,
            regex: None,
            multi: false,
        },
        Extractor {
            field: "b".to_string(),
            selector: Some("[".to_string()),
            attribute: None,
            regex: None,
            multi: false,
        },
        Extractor {
            field: "c".to_string(),
            selector: Some("q".to_string()),
            attribute: None,
            regex: None,
            multi: false,
        },
    ];
    let fields: Vec<String> = compile_all(&raws).into_iter().map(|c| c.field).collect();
    assert_eq!(fields, vec!["a".to_string(), "c".to_string()]);
}

#[test]
fn later_rule_for_a_field_takes_the_place_of_the_earlier() {
    let exs = vec![
        make("bio", "div.bio", None, None, false),
        make("display_name", "span.name", None, None, false),
        make("bio", "span.followers", None, None, true),
    ];
    let out = run_extractors(HTML, &exs);
    assert_eq!(out.len(), 2);
    assert_eq!(out.key(0), "bio");
    assert_eq!(
        out.get("bio"),
        Some(&ExtractedValue::Many(vec!["1,234 followers".to_string()]))
    );
}

#[test]
fn first_value_that_matches_is_taken() {
    let page = "<p>none</p><p>n=</p><p>n=7</p>";
    let first = make("post_count", "p", None, Some("n=([0-9]*)"), false);
    // The second paragraph matches with an empty group, which ends the search.
    assert_eq!(collect(page, &first), Vec::<String>::new());
    let all = make("post_count", "p", None, Some("n=([0-9]*)"), true);
    assert_eq!(collect(page, &all), vec!["7".to_string()]);
}

#[test]
fn values_are_picked() {
    let found = vec![
        None,
        Some("".to_string()),
        Some("a".to_string()),
        Some("b".to_string()),
    ];
    assert_eq!(pick_values(found, true), vec!["a".to_string(), "b".to_string()]);
    let found = vec![None, Some("a".to_string()), Some("b".to_string())];
    assert_eq!(pick_values(found, false), vec!["a".to_string()]);
    let raws = vec![Some("x".to_string()), None, Some("".to_string())];
    assert_eq!(keep_non_empty(raws), vec!["x".to_string()]);
}

#[test]
fn empty_page_yields_nothing() {
    let exs = vec![make("bio", "*", None, None, false)];
    assert!(run_extractors("", &exs).is_empty());
    assert!(run_extractors(HTML, &Vec::new()).is_empty());
}

#[test]
fn last_rule_that_finds_something_counts() {
    let exs = vec![
        make("bio", "div.bio", None, None, false),
        make("bio", "span.name", None, None, false),
        make("bio", "div.nothing-here", None, None, false),
        make("location", "div.nothing-here", None, None, false),
    ];
    let out = run_extractors(HTML, &exs);
    assert_eq!(out.len(), 1);
    assert_eq!(
        out.get("bio"),
        Some(&ExtractedValue::One("Jane Doe".to_string()))
    );
}
