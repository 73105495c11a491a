use sherlock_rs::export::{sanitize_csv_field, to_csv, to_txt};
use sherlock_rs::result::{QueryResult, QueryStatus};

fn result(
    username: &str,
    site_name: &str,
    site_url: &str,
    status: QueryStatus,
    response_time_ms: Option<u64>,
) -> QueryResult {
    QueryResult {
        username: username.to_string(),
        site_name: site_name.to_string(),
        url_main: "https://main.example".to_string(),
        site_url: site_url.to_string(),
        status,
        response_time_ms,
        context: None,
        confidence: 100,
        extracted: None,
        body_sha256: None,
    }
}

#[test]
fn test_to_txt() {
    let results = vec![
        QueryResult {
            username: "testuser".to_string(),
            site_name: "TestSite".to_string(),
            url_main: "https://testsite.com".to_string(),
            site_url: "https://testsite.com/testuser".to_string(),
            status: QueryStatus::Claimed,
            response_time_ms: Some(100),
            context: None,
            confidence: 100,
            extracted: None,
            body_sha256: None,
        },
        QueryResult {
            username: "testuser".to_string(),
            site_name: "AnotherSite".to_string(),
            url_main: "https://anothersite.com".to_string(),
            site_url: "https://anothersite.com/testuser".to_string(),
            status: QueryStatus::Available,
            response_time_ms: Some(150),
            context: None,
            confidence: 100,
            extracted: None,
            body_sha256: None,
        },
    ];

    let txt = to_txt(&results);

    assert!(txt.contains("Sherlock-RS — Results"));
    assert!(txt.contains("="));
    assert!(txt.contains("[testuser] — Found on 1 site(s):"));
    assert!(txt.contains("  [+] TestSite: https://testsite.com/testuser"));

    // The non-claimed status should not be present
    assert!(!txt.contains("AnotherSite"));
}

#[test]
fn test_to_txt_multiple_users() {
    let results = vec![
        QueryResult {
            username: "user1".to_string(),
            site_name: "Site1".to_string(),
            url_main: "https://site1.com".to_string(),
            site_url: "https://site1.com/user1".to_string(),
            status: QueryStatus::Claimed,
            response_time_ms: Some(100),
            context: None,
            confidence: 100,
            extracted: None,
            body_sha256: None,
        },
        QueryResult {
            username: "user2".to_string(),
            site_name: "Site2".to_string(),
            url_main: "https://site2.com".to_string(),
            site_url: "https://site2.com/user2".to_string(),
            status: QueryStatus::Claimed,
            response_time_ms: Some(150),
            context: None,
            confidence: 100,
            extracted: None,
            body_sha256: None,
        },
    ];

    let txt = to_txt(&results);

    assert!(txt.contains("[user1] — Found on 1 site(s):"));
    assert!(txt.contains("  [+] Site1: https://site1.com/user1"));

    assert!(txt.contains("[user2] — Found on 1 site(s):"));
    assert!(txt.contains("  [+] Site2: https://site2.com/user2"));

    // Check insertion order preservation
    let pos_user1 = txt.find("[user1]").unwrap();
    let pos_user2 = txt.find("[user2]").unwrap();
    assert!(pos_user1 < pos_user2);
}

#[test]
fn test_to_txt_empty() {
    let results: Vec<QueryResult> = vec![];
    let txt = to_txt(&results);

    assert!(txt.contains("Sherlock-RS — Results"));
    assert!(txt.contains("="));
    // Should not contain any user sections
    assert!(!txt.contains("Found on"));
}

#[test]
fn report_is_exact() {
    let results = vec![
        result("bob", "A", "https://a/bob", QueryStatus::Claimed, Some(1)),
        result("amy", "B", "https://b/amy", QueryStatus::Unknown, None),
        result("bob", "C", "https://c/bob", QueryStatus::Claimed, Some(2)),
    ];
    let expected = format!(
        "Sherlock-RS — Results\n{}\n\n[bob] — Found on 2 site(s):\n  [+] A: https://a/bob\n  [+] C: https://c/bob\n\n[amy] — Found on 0 site(s):\n",
        "=".repeat(50)
    );
    assert_eq!(to_txt(&results), expected);
}

#[test]
fn other_results_leave_the_report_as_it_is() {
    let few = vec![result("bob", "A", "https://a/bob", QueryStatus::Claimed, Some(1))];
    let more = vec![
        result("bob", "A", "https://a/bob", QueryStatus::Claimed, Some(1)),
        result("bob", "B", "https://b/bob", QueryStatus::Waf, Some(1)),
    ];
    assert_eq!(to_txt(&few), to_txt(&more));
}

#[test]
fn formulas_are_defused() {
    assert_eq!(sanitize_csv_field("=1+1"), "'=1+1");
    assert_eq!(sanitize_csv_field("+x"), "'+x");
    assert_eq!(sanitize_csv_field("-x"), "'-x");
    assert_eq!(sanitize_csv_field("@x"), "'@x");
    assert_eq!(sanitize_csv_field("\tx"), "'\tx");
    assert_eq!(sanitize_csv_field("\rx"), "'\rx");
    assert_eq!(sanitize_csv_field("x=1"), "x=1");
    assert_eq!(sanitize_csv_field(""), "");
    assert_eq!(sanitize_csv_field("é"), "é");
}

#[test]
fn csv_is_exact() {
    let results = vec![
        result("bob", "A", "https://a/bob", QueryStatus::Claimed, Some(120)),
        result("=bob", "B, the \"second\"", "line\nbreak", QueryStatus::Unknown, None),
    ];
    assert_eq!(
        to_csv(&results),
        "Username,Site,URL,Status,Response Time (ms)\nbob,A,https://a/bob,claimed,120\n'=bob,\"B, the \"\"second\"\"\",\"line\nbreak\",unknown,\n"
    );
}

#[test]
fn csv_of_nothing_is_its_header() {
    assert_eq!(to_csv(&[]), "Username,Site,URL,Status,Response Time (ms)\n");
}

#[test]
fn csv_quotes_a_carriage_return_and_keeps_empty_fields() {
    let results = vec![result("", "a\rb", "", QueryStatus::Illegal, None)];
    assert_eq!(
        to_csv(&results),
        "Username,Site,URL,Status,Response Time (ms)\n,\"a\rb\",,illegal,\n"
    );
}

#[test]
fn reports_without_a_shared_username_are_joined() {
    let one = vec![
        result("amy", "A", "https://a/amy", QueryStatus::Claimed, None),
        result("bob", "A", "https://a/bob", QueryStatus::Available, None),
    ];
    let two = vec![
        result("cy", "B", "https://b/cy", QueryStatus::Claimed, Some(3)),
        result("cy", "C", "https://c/cy", QueryStatus::Claimed, None),
    ];
    let mut both = one.clone();
    both.extend(two.clone());
    let head = to_txt(&[]);
    let tail = to_txt(&two)[head.len()..].to_string();
    assert_eq!(to_txt(&both), to_txt(&one) + &tail);
    let csv_head = to_csv(&[]);
    let csv_tail = to_csv(&two)[csv_head.len()..].to_string();
    assert_eq!(to_csv(&both), to_csv(&one) + &csv_tail);
}
