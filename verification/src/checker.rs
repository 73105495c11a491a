//! The check of a username: which sites are asked, what is sent, what the
//! answer means, and when the request is repeated.

use vstd::prelude::*;
use vstd::slice::slice_subrange;
use vstd::string::*;

use crate::catalog;
use crate::extract;
use crate::extract::run_extractors;
use crate::outside;
use crate::outside::{choose_str, regex_is_match, sha256, to_lowercase};
use crate::result::{ExtractedValue, ExtractedView, QueryResult, QueryStatus, ResultView};
use crate::sites;
use crate::sites::{
    fill, Detection, DetectionView, ErrorCodeView, ErrorMsg, ErrorMsgView, SiteData, SiteView,
};
use crate::table;
use crate::table::Table;
use crate::text;
use crate::text::{
    chars_contain, chars_of, decimal_u64, encode_hex, str_contains, str_eq, str_starts_with, strip_prefix,
    to_ascii_lowercase,
};

verus! {

/// How many requests are under way at once.
pub const MAX_CONCURRENT: usize = 20;

/// How often a site is asked before a network error is final.
pub const MAX_ATTEMPTS: u32 = 3;

/// How many bytes of a body its digest covers.
pub const DIGEST_BYTES: usize = 65536;

/// Confidence in a verdict on which both patterns of a detection rule agree.
pub const CONFIDENCE_AGREED: u8 = 95;

/// Confidence in a verdict by a text in the body.
pub const CONFIDENCE_MESSAGE: u8 = 80;

/// Confidence in a verdict by the status, or by one pattern of a detection
/// rule that has no other.
pub const CONFIDENCE_STATUS: u8 = 75;

/// Confidence in a verdict by whether the site redirects.
pub const CONFIDENCE_REDIRECT: u8 = 70;

/// Confidence in a verdict that the two patterns of a rule contradict.
pub const CONFIDENCE_TENTATIVE: u8 = 40;

/// Confidence where a firewall answered.
pub const CONFIDENCE_WAF: u8 = 10;

/// Confidence where there is no verdict.
pub const CONFIDENCE_NONE: u8 = 0;

/// Confidence that a username does not fit a site's format.
pub const CONFIDENCE_ILLEGAL: u8 = 100;

/// The browsers that requests pass themselves off as.
pub open spec fn user_agent_list() -> Seq<Seq<char>> {
    seq![
        "Mozilla/5.0 (Windows NT 10.0; Win64; x64) AppleWebKit/537.36 (KHTML, like Gecko) Chrome/131.0.0.0 Safari/537.36"@,
        "Mozilla/5.0 (Windows NT 10.0; Win64; x64) AppleWebKit/537.36 (KHTML, like Gecko) Chrome/130.0.0.0 Safari/537.36"@,
        "Mozilla/5.0 (Windows NT 10.0; Win64; x64) AppleWebKit/537.36 (KHTML, like Gecko) Chrome/129.0.0.0 Safari/537.36"@,
        "Mozilla/5.0 (Windows NT 10.0; Win64; x64) AppleWebKit/537.36 (KHTML, like Gecko) Chrome/128.0.0.0 Safari/537.36"@,
        "Mozilla/5.0 (Macintosh; Intel Mac OS X 10_15_7) AppleWebKit/537.36 (KHTML, like Gecko) Chrome/131.0.0.0 Safari/537.36"@,
        "Mozilla/5.0 (Macintosh; Intel Mac OS X 10_15_7) AppleWebKit/537.36 (KHTML, like Gecko) Chrome/130.0.0.0 Safari/537.36"@,
        "Mozilla/5.0 (Macintosh; Intel Mac OS X 10_15_7) AppleWebKit/537.36 (KHTML, like Gecko) Chrome/129.0.0.0 Safari/537.36"@,
        "Mozilla/5.0 (X11; Linux x86_64) AppleWebKit/537.36 (KHTML, like Gecko) Chrome/131.0.0.0 Safari/537.36"@,
        "Mozilla/5.0 (X11; Linux x86_64) AppleWebKit/537.36 (KHTML, like Gecko) Chrome/130.0.0.0 Safari/537.36"@,
        "Mozilla/5.0 (Windows NT 10.0; Win64; x64; rv:133.0) Gecko/20100101 Firefox/133.0"@,
        "Mozilla/5.0 (Windows NT 10.0; Win64; x64; rv:132.0) Gecko/20100101 Firefox/132.0"@,
        "Mozilla/5.0 (Windows NT 10.0; Win64; x64; rv:131.0) Gecko/20100101 Firefox/131.0"@,
        "Mozilla/5.0 (Windows NT 10.0; Win64; x64; rv:130.0) Gecko/20100101 Firefox/130.0"@,
        "Mozilla/5.0 (Macintosh; Intel Mac OS X 10.15; rv:133.0) Gecko/20100101 Firefox/133.0"@,
        "Mozilla/5.0 (X11; Linux x86_64; rv:133.0) Gecko/20100101 Firefox/133.0"@,
        "Mozilla/5.0 (Windows NT 10.0; Win64; x64) AppleWebKit/537.36 (KHTML, like Gecko) Chrome/131.0.0.0 Safari/537.36 Edg/131.0.0.0"@,
        "Mozilla/5.0 (Windows NT 10.0; Win64; x64) AppleWebKit/537.36 (KHTML, like Gecko) Chrome/130.0.0.0 Safari/537.36 Edg/130.0.0.0"@,
        "Mozilla/5.0 (Macintosh; Intel Mac OS X 10_15_7) AppleWebKit/537.36 (KHTML, like Gecko) Chrome/131.0.0.0 Safari/537.36 Edg/131.0.0.0"@,
        "Mozilla/5.0 (Macintosh; Intel Mac OS X 14_1) AppleWebKit/605.1.15 (KHTML, like Gecko) Version/17.1 Safari/605.1.15"@,
        "Mozilla/5.0 (Macintosh; Intel Mac OS X 14_0) AppleWebKit/605.1.15 (KHTML, like Gecko) Version/17.0 Safari/605.1.15"@,
        "Mozilla/5.0 (iPhone; CPU iPhone OS 17_2 like Mac OS X) AppleWebKit/605.1.15 (KHTML, like Gecko) Version/17.2 Mobile/15E148 Safari/604.1"@,
        "Mozilla/5.0 (Linux; Android 14; Pixel 8) AppleWebKit/537.36 (KHTML, like Gecko) Chrome/131.0.0.0 Mobile Safari/537.36"@,
        "Mozilla/5.0 (Linux; Android 13; SM-S918B) AppleWebKit/537.36 (KHTML, like Gecko) Chrome/131.0.0.0 Mobile Safari/537.36"@,
        "Mozilla/5.0 (Windows NT 10.0; Win64; x64) AppleWebKit/537.36 (KHTML, like Gecko) Chrome/131.0.0.0 Safari/537.36 OPR/116.0.0.0"@,
        "Mozilla/5.0 (Windows NT 10.0; Win64; x64) AppleWebKit/537.36 (KHTML, like Gecko) Chrome/131.0.0.0 Safari/537.36"@,
    ]
}

/// The browsers that requests pass themselves off as.
pub fn user_agents() -> (r: Vec<&'static str>)
    ensures
        r@.map_values(|s: &'static str| s@) == user_agent_list(),
        r@.len() == 25,
{
    let r: Vec<&'static str> = vec![
        "Mozilla/5.0 (Windows NT 10.0; Win64; x64) AppleWebKit/537.36 (KHTML, like Gecko) Chrome/131.0.0.0 Safari/537.36",
        "Mozilla/5.0 (Windows NT 10.0; Win64; x64) AppleWebKit/537.36 (KHTML, like Gecko) Chrome/130.0.0.0 Safari/537.36",
        "Mozilla/5.0 (Windows NT 10.0; Win64; x64) AppleWebKit/537.36 (KHTML, like Gecko) Chrome/129.0.0.0 Safari/537.36",
        "Mozilla/5.0 (Windows NT 10.0; Win64; x64) AppleWebKit/537.36 (KHTML, like Gecko) Chrome/128.0.0.0 Safari/537.36",
        "Mozilla/5.0 (Macintosh; Intel Mac OS X 10_15_7) AppleWebKit/537.36 (KHTML, like Gecko) Chrome/131.0.0.0 Safari/537.36",
        "Mozilla/5.0 (Macintosh; Intel Mac OS X 10_15_7) AppleWebKit/537.36 (KHTML, like Gecko) Chrome/130.0.0.0 Safari/537.36",
        "Mozilla/5.0 (Macintosh; Intel Mac OS X 10_15_7) AppleWebKit/537.36 (KHTML, like Gecko) Chrome/129.0.0.0 Safari/537.36",
        "Mozilla/5.0 (X11; Linux x86_64) AppleWebKit/537.36 (KHTML, like Gecko) Chrome/131.0.0.0 Safari/537.36",
        "Mozilla/5.0 (X11; Linux x86_64) AppleWebKit/537.36 (KHTML, like Gecko) Chrome/130.0.0.0 Safari/537.36",
        "Mozilla/5.0 (Windows NT 10.0; Win64; x64; rv:133.0) Gecko/20100101 Firefox/133.0",
        "Mozilla/5.0 (Windows NT 10.0; Win64; x64; rv:132.0) Gecko/20100101 Firefox/132.0",
        "Mozilla/5.0 (Windows NT 10.0; Win64; x64; rv:131.0) Gecko/20100101 Firefox/131.0",
        "Mozilla/5.0 (Windows NT 10.0; Win64; x64; rv:130.0) Gecko/20100101 Firefox/130.0",
        "Mozilla/5.0 (Macintosh; Intel Mac OS X 10.15; rv:133.0) Gecko/20100101 Firefox/133.0",
        "Mozilla/5.0 (X11; Linux x86_64; rv:133.0) Gecko/20100101 Firefox/133.0",
        "Mozilla/5.0 (Windows NT 10.0; Win64; x64) AppleWebKit/537.36 (KHTML, like Gecko) Chrome/131.0.0.0 Safari/537.36 Edg/131.0.0.0",
        "Mozilla/5.0 (Windows NT 10.0; Win64; x64) AppleWebKit/537.36 (KHTML, like Gecko) Chrome/130.0.0.0 Safari/537.36 Edg/130.0.0.0",
        "Mozilla/5.0 (Macintosh; Intel Mac OS X 10_15_7) AppleWebKit/537.36 (KHTML, like Gecko) Chrome/131.0.0.0 Safari/537.36 Edg/131.0.0.0",
        "Mozilla/5.0 (Macintosh; Intel Mac OS X 14_1) AppleWebKit/605.1.15 (KHTML, like Gecko) Version/17.1 Safari/605.1.15",
        "Mozilla/5.0 (Macintosh; Intel Mac OS X 14_0) AppleWebKit/605.1.15 (KHTML, like Gecko) Version/17.0 Safari/605.1.15",
        "Mozilla/5.0 (iPhone; CPU iPhone OS 17_2 like Mac OS X) AppleWebKit/605.1.15 (KHTML, like Gecko) Version/17.2 Mobile/15E148 Safari/604.1",
        "Mozilla/5.0 (Linux; Android 14; Pixel 8) AppleWebKit/537.36 (KHTML, like Gecko) Chrome/131.0.0.0 Mobile Safari/537.36",
        "Mozilla/5.0 (Linux; Android 13; SM-S918B) AppleWebKit/537.36 (KHTML, like Gecko) Chrome/131.0.0.0 Mobile Safari/537.36",
        "Mozilla/5.0 (Windows NT 10.0; Win64; x64) AppleWebKit/537.36 (KHTML, like Gecko) Chrome/131.0.0.0 Safari/537.36 OPR/116.0.0.0",
        "Mozilla/5.0 (Windows NT 10.0; Win64; x64) AppleWebKit/537.36 (KHTML, like Gecko) Chrome/131.0.0.0 Safari/537.36",
    ];
    assert(r@.map_values(|s: &'static str| s@) =~= user_agent_list());
    r
}

/// One of the browsers, picked at random.
pub fn random_ua() -> (r: &'static str)
    ensures
        user_agent_list().contains(r@),
{
    let all = user_agents();
    let ghost names = all@.map_values(|s: &'static str| s@);
    let r = match choose_str(&all) {
        Some(s) => s,
        None => all[0],
    };
    proof {
        let i = choose|i: int| 0 <= i < all@.len() && all@[i] == r;
        assert(names[i] == r@);
    }
    r
}

/// What pages of firewalls hold.
pub open spec fn waf_signatures() -> Seq<Seq<char>> {
    seq![
        "Attention Required! | Cloudflare"@,
        "cf-browser-verification"@,
        "Please Wait... | Cloudflare"@,
        "Just a moment..."@,
        "Checking your browser"@,
        "Pardon Our Interruption"@,
        "Access denied | "@,
        "_cf_chl_opt"@,
    ]
}

/// Whether a page, in lower case, holds one of the signatures.
pub open spec fn waf_in(lower: Seq<char>) -> bool {
    exists|i: int|
        0 <= i < waf_signatures().len() && text::contains(
            lower,
            text::ascii_lower(#[trigger] waf_signatures()[i]),
        )
}

/// Whether a page, in lower case, holds one of the signatures.
pub fn has_waf_signature(lower: &str) -> (r: bool)
    ensures
        r == waf_in(lower@),
        r <==> {
            ||| text::contains(lower@, "attention required! | cloudflare"@)
            ||| text::contains(lower@, "cf-browser-verification"@)
            ||| text::contains(lower@, "please wait... | cloudflare"@)
            ||| text::contains(lower@, "just a moment..."@)
            ||| text::contains(lower@, "checking your browser"@)
            ||| text::contains(lower@, "pardon our interruption"@)
            ||| text::contains(lower@, "access denied | "@)
            ||| text::contains(lower@, "_cf_chl_opt"@)
        },
{
    let page = chars_of(lower);
    let sigs: Vec<&'static str> = vec![
        "Attention Required! | Cloudflare",
        "cf-browser-verification",
        "Please Wait... | Cloudflare",
        "Just a moment...",
        "Checking your browser",
        "Pardon Our Interruption",
        "Access denied | ",
        "_cf_chl_opt",
    ];
    assert(sigs@.map_values(|s: &'static str| s@) =~= waf_signatures());
    let mut i: usize = 0;
    while i < sigs.len()
        invariant
            page@ == lower@,
            sigs@.map_values(|s: &'static str| s@) == waf_signatures(),
            i <= sigs@.len(),
            forall|j: int|
                0 <= j < i ==> !text::contains(
                    lower@,
                    text::ascii_lower(#[trigger] waf_signatures()[j]),
                ),
        decreases sigs@.len() - i,
    {
        assert(waf_signatures()[i as int] == sigs@[i as int]@);
        let sig = to_ascii_lowercase(sigs[i]);
        let sig_chars = chars_of(sig.as_str());
        if chars_contain(&page, &sig_chars) {
            proof {
                firewalls_are_known_by_eight_texts(lower@);
            }
            return true;
        }
        i = i + 1;
    }
    proof {
        firewalls_are_known_by_eight_texts(lower@);
    }
    false
}

/// Whether a page is that of a firewall, whatever the case of its letters.
pub open spec fn is_firewall_page(body: Seq<char>) -> bool {
    waf_in(outside::lowercase(body))
}

/// The verdict on a response and the confidence in it.
pub open spec fn judgement(site: SiteView, status_code: u16, body: Seq<char>) -> (QueryStatus, u8) {
    verdict(site, status_code, body, is_firewall_page(body))
}

/// Whether a page is that of a firewall, whatever the case of its letters.
pub fn detect_waf(body: &str) -> (r: bool)
    ensures
        r == is_firewall_page(body@),
        r == waf_in(outside::lowercase(body@)),
{
    let lower = to_lowercase(body);
    has_waf_signature(lower.as_str())
}

/// Whether a status says that the request succeeded.
pub open spec fn is_success(status_code: u16) -> bool {
    200 <= status_code < 300
}

/// Whether a pattern of a status and a text matches a response; nothing where
/// it constrains neither. A part that is left out is satisfied.
pub open spec fn pattern_matches(
    code: Option<u16>,
    string: Option<Seq<char>>,
    status_code: u16,
    body: Seq<char>,
) -> Option<bool> {
    if code is None && string is None {
        None
    } else {
        Some(
            (code matches Some(c) ==> c == status_code) && (string matches Some(s)
                ==> text::contains(body, s)),
        )
    }
}

/// What the two patterns of a detection rule say together.
///
/// A profile exists where the exists-pattern is satisfied and the
/// missing-pattern is not, and is missing the other way round; a pattern that
/// is left out objects to neither. Where both match, the rule contradicts
/// itself; where neither does, or there is no pattern, there is no verdict.
pub open spec fn dual_verdict(exists_pattern: Option<bool>, missing_pattern: Option<bool>) -> (
    QueryStatus,
    u8,
) {
    match (exists_pattern, missing_pattern) {
        (Some(true), Some(false)) => (QueryStatus::Claimed, CONFIDENCE_AGREED),
        (Some(false), Some(true)) => (QueryStatus::Available, CONFIDENCE_AGREED),
        (Some(true), Some(true)) => (QueryStatus::Tentative, CONFIDENCE_TENTATIVE),
        (Some(false), Some(false)) => (QueryStatus::Unknown, CONFIDENCE_NONE),
        (Some(true), None) => (QueryStatus::Claimed, CONFIDENCE_STATUS),
        (Some(false), None) => (QueryStatus::Available, CONFIDENCE_STATUS),
        (None, Some(false)) => (QueryStatus::Claimed, CONFIDENCE_STATUS),
        (None, Some(true)) => (QueryStatus::Available, CONFIDENCE_STATUS),
        (None, None) => (QueryStatus::Unknown, CONFIDENCE_NONE),
    }
}

/// The verdict of a detection rule on a response.
pub open spec fn detected(d: DetectionView, status_code: u16, body: Seq<char>) -> (QueryStatus, u8) {
    dual_verdict(
        pattern_matches(d.e_code, d.e_string, status_code, body),
        pattern_matches(d.m_code, d.m_string, status_code, body),
    )
}

/// Whether a pattern of a status and a text matches a response.
pub fn match_pattern(code: Option<u16>, string: &Option<String>, status_code: u16, body: &str) -> (r:
    Option<bool>)
    ensures
        r == pattern_matches(code, text::opt_text(*string), status_code, body@),
{
    let code_ok = match code {
        Some(c) => c == status_code,
        None => true,
    };
    match string {
        Some(s) => Some(code_ok && str_contains(body, s.as_str())),
        None => if code.is_none() {
            None
        } else {
            Some(code_ok)
        },
    }
}

/// The verdict of a detection rule on a response.
pub fn dual_pattern_decision(d: &Detection, status_code: u16, body: &str) -> (r: (QueryStatus, u8))
    ensures
        r == detected(d@, status_code, body@),
{
    let e = match_pattern(d.e_code, &d.e_string, status_code, body);
    let m = match_pattern(d.m_code, &d.m_string, status_code, body);
    match (e, m) {
        (Some(true), Some(false)) => (QueryStatus::Claimed, CONFIDENCE_AGREED),
        (Some(false), Some(true)) => (QueryStatus::Available, CONFIDENCE_AGREED),
        (Some(true), Some(true)) => (QueryStatus::Tentative, CONFIDENCE_TENTATIVE),
        (Some(false), Some(false)) => (QueryStatus::Unknown, CONFIDENCE_NONE),
        (Some(true), None) => (QueryStatus::Claimed, CONFIDENCE_STATUS),
        (Some(false), None) => (QueryStatus::Available, CONFIDENCE_STATUS),
        (None, Some(false)) => (QueryStatus::Claimed, CONFIDENCE_STATUS),
        (None, Some(true)) => (QueryStatus::Available, CONFIDENCE_STATUS),
        (None, None) => (QueryStatus::Unknown, CONFIDENCE_NONE),
    }
}

/// Whether a body holds one of the texts.
pub open spec fn any_in(msgs: Seq<Seq<char>>, body: Seq<char>) -> bool {
    exists|i: int| 0 <= i < msgs.len() && text::contains(body, #[trigger] msgs[i])
}

/// The verdict by the `error_*` fields alone.
pub open spec fn legacy_verdict(site: SiteView, status_code: u16, body: Seq<char>) -> (
    QueryStatus,
    u8,
) {
    if site.error_type == "status_code"@ {
        let missing = match site.error_code {
            Some(c) => c.has(status_code),
            None => status_code == 404,
        };
        if missing {
            (QueryStatus::Available, CONFIDENCE_STATUS)
        } else if is_success(status_code) {
            (QueryStatus::Claimed, CONFIDENCE_STATUS)
        } else {
            (QueryStatus::Unknown, CONFIDENCE_NONE)
        }
    } else if site.error_type == "message"@ {
        match site.error_msg {
            Some(m) => if any_in(m.list(), body) {
                (QueryStatus::Available, CONFIDENCE_MESSAGE)
            } else if is_success(status_code) {
                (QueryStatus::Claimed, CONFIDENCE_MESSAGE)
            } else {
                (QueryStatus::Unknown, CONFIDENCE_NONE)
            },
            None => (QueryStatus::Unknown, CONFIDENCE_NONE),
        }
    } else if site.error_type == "response_url"@ {
        if is_success(status_code) {
            (QueryStatus::Claimed, CONFIDENCE_REDIRECT)
        } else {
            (QueryStatus::Available, CONFIDENCE_REDIRECT)
        }
    } else {
        (QueryStatus::Unknown, CONFIDENCE_NONE)
    }
}

/// The verdict on a response, once it is known whether a firewall answered.
/// The firewall comes first, then a detection rule, then the `error_*` fields.
pub open spec fn verdict(site: SiteView, status_code: u16, body: Seq<char>, waf: bool) -> (
    QueryStatus,
    u8,
) {
    if waf {
        (QueryStatus::Waf, CONFIDENCE_WAF)
    } else {
        match site.detection {
            Some(d) => detected(d, status_code, body),
            None => legacy_verdict(site, status_code, body),
        }
    }
}

/// Whether a body holds one of the texts by which a site says that there is no
/// such user.
fn any_message_in(msgs: &ErrorMsg, body: &str) -> (r: bool)
    ensures
        r == any_in(msgs@.list(), body@),
{
    let v = msgs.as_vec();
    let ghost list = msgs@.list();
    let page = chars_of(body);
    let mut i: usize = 0;
    while i < v.len()
        invariant
            page@ == body@,
            list == msgs@.list(),
            v@.map_values(|s: &str| s@) == list,
            i <= v@.len(),
            forall|j: int| 0 <= j < i ==> !text::contains(body@, #[trigger] list[j]),
        decreases v@.len() - i,
    {
        assert(list[i as int] == v@[i as int]@);
        let msg = chars_of(v[i]);
        if chars_contain(&page, &msg) {
            return true;
        }
        i = i + 1;
    }
    false
}

/// The verdict by the `error_*` fields alone.
fn judge_legacy(site: &SiteData, status_code: u16, body: &str) -> (r: (QueryStatus, u8))
    ensures
        r == legacy_verdict(site@, status_code, body@),
{
    let success = 200 <= status_code && status_code < 300;
    if str_eq(site.error_type.as_str(), "status_code") {
        let missing = match &site.error_code {
            Some(c) => c.matches(status_code),
            None => status_code == 404,
        };
        if missing {
            (QueryStatus::Available, CONFIDENCE_STATUS)
        } else if success {
            (QueryStatus::Claimed, CONFIDENCE_STATUS)
        } else {
            (QueryStatus::Unknown, CONFIDENCE_NONE)
        }
    } else if str_eq(site.error_type.as_str(), "message") {
        match &site.error_msg {
            Some(m) => if any_message_in(m, body) {
                (QueryStatus::Available, CONFIDENCE_MESSAGE)
            } else if success {
                (QueryStatus::Claimed, CONFIDENCE_MESSAGE)
            } else {
                (QueryStatus::Unknown, CONFIDENCE_NONE)
            },
            None => (QueryStatus::Unknown, CONFIDENCE_NONE),
        }
    } else if str_eq(site.error_type.as_str(), "response_url") {
        if success {
            (QueryStatus::Claimed, CONFIDENCE_REDIRECT)
        } else {
            (QueryStatus::Available, CONFIDENCE_REDIRECT)
        }
    } else {
        (QueryStatus::Unknown, CONFIDENCE_NONE)
    }
}

/// The verdict on a response, once it is known whether a firewall answered.
pub fn judge(site: &SiteData, status_code: u16, body: &str, waf: bool) -> (r: (QueryStatus, u8))
    ensures
        r == verdict(site@, status_code, body@, waf),
{
    if waf {
        return (QueryStatus::Waf, CONFIDENCE_WAF);
    }
    match &site.detection {
        Some(d) => dual_pattern_decision(d, status_code, body),
        None => judge_legacy(site, status_code, body),
    }
}

/// The verdict on a response and the confidence in it.
pub fn determine_status_v2(site: &SiteData, status_code: u16, body: &str) -> (r: (QueryStatus, u8))
    ensures
        r == verdict(site@, status_code, body@, waf_in(outside::lowercase(body@))),
        r == judgement(site@, status_code, body@),
{
    let waf = detect_waf(body);
    judge(site, status_code, body, waf)
}

/// The verdict on a response.
pub fn determine_status(site: &SiteData, status_code: u16, body: &str) -> (r: QueryStatus)
    ensures
        r == verdict(site@, status_code, body@, waf_in(outside::lowercase(body@))).0,
        r == judgement(site@, status_code, body@).0,
{
    determine_status_v2(site, status_code, body).0
}

/// What a check is asked to do.
#[derive(Debug)]
pub struct CheckConfig {
    pub timeout_secs: u64,
    pub include_nsfw: bool,
    pub proxy: Option<String>,
}

/// The proxy to go through: none where its address is empty.
pub open spec fn proxy_of(proxy: Option<Seq<char>>) -> Option<Seq<char>> {
    match proxy {
        Some(p) => if p.len() > 0 {
            Some(p)
        } else {
            None
        },
        None => None,
    }
}

impl CheckConfig {
    /// The proxy to go through: none where its address is empty.
    pub fn effective_proxy(&self) -> (r: Option<&String>)
        ensures
            proxy_of(text::opt_text(self.proxy)) == match r {
                Some(p) => Some(p@),
                None => None,
            },
            match r {
                Some(p) => self.proxy == Some(*p) && p@.len() > 0,
                None => match self.proxy {
                    Some(p) => p@.len() == 0,
                    None => true,
                },
            },
    {
        match &self.proxy {
            Some(p) => if p.as_str().is_empty() {
                None
            } else {
                Some(p)
            },
            None => None,
        }
    }
}

/// The methods by which a site is asked.
#[derive(Debug, Clone, Copy, PartialEq, Eq, Structural)]
pub enum Method {
    Get,
    Post,
    Head,
    Put,
}

/// The method that a site names: GET where it names none or another.
pub open spec fn method_of(name: Option<Seq<char>>) -> Method {
    if name == Some("POST"@) {
        Method::Post
    } else if name == Some("HEAD"@) {
        Method::Head
    } else if name == Some("PUT"@) {
        Method::Put
    } else {
        Method::Get
    }
}

/// A request to a site.
#[derive(Debug)]
pub struct RequestPlan {
    /// The profile URL that is reported.
    pub site_url: String,
    /// The URL that is asked.
    pub probe_url: String,
    pub follow_redirects: bool,
    pub method: Method,
    /// Header names and values, in the order in which they are added.
    pub headers: Vec<(String, String)>,
    pub body: Option<String>,
}

/// The view of a `RequestPlan`.
#[verifier::ext_equal]
pub struct RequestView {
    pub site_url: Seq<char>,
    pub probe_url: Seq<char>,
    pub follow_redirects: bool,
    pub method: Method,
    pub headers: Seq<(Seq<char>, Seq<char>)>,
    pub body: Option<Seq<char>>,
}

impl View for RequestPlan {
    type V = RequestView;

    open spec fn view(&self) -> RequestView {
        RequestView {
            site_url: self.site_url@,
            probe_url: self.probe_url@,
            follow_redirects: self.follow_redirects,
            method: self.method,
            headers: text::pair_texts(self.headers@),
            body: text::opt_text(self.body),
        }
    }
}

/// The headers of a request: the browser that it passes itself off as, those
/// of the site, and the type of the body where there is one.
pub open spec fn request_headers(site: SiteView, user_agent: Seq<char>) -> Seq<
    (Seq<char>, Seq<char>),
> {
    seq![("User-Agent"@, user_agent)] + (match site.headers {
        Some(h) => h,
        None => Seq::empty(),
    }) + (if site.request_payload is Some {
        seq![("Content-Type"@, "application/json"@)]
    } else {
        Seq::empty()
    })
}

/// The request that asks a site about a username.
pub open spec fn request(site: SiteView, username: Seq<char>, user_agent: Seq<char>) -> RequestView {
    RequestView {
        site_url: sites::filled(site.url, username),
        probe_url: match site.url_probe {
            Some(u) => sites::filled(u, username),
            None => sites::filled(site.url, username),
        },
        follow_redirects: site.error_type != "response_url"@,
        method: method_of(site.request_method),
        headers: request_headers(site, user_agent),
        body: match site.request_payload {
            Some(p) => Some(sites::filled(p, username)),
            None => None,
        },
    }
}

fn choose_method(name: &Option<String>) -> (r: Method)
    ensures
        r == method_of(text::opt_text(*name)),
{
    match name {
        Some(n) => if str_eq(n.as_str(), "POST") {
            Method::Post
        } else if str_eq(n.as_str(), "HEAD") {
            Method::Head
        } else if str_eq(n.as_str(), "PUT") {
            Method::Put
        } else {
            Method::Get
        },
        None => Method::Get,
    }
}

fn build_headers(site: &SiteData, user_agent: &str) -> (r: Vec<(String, String)>)
    ensures
        text::pair_texts(r@) == request_headers(site@, user_agent@),
{
    let mut r: Vec<(String, String)> = Vec::new();
    r.push(("User-Agent".to_string(), user_agent.to_string()));
    let ghost own = site@.headers;
    match &site.headers {
        Some(h) => {
            let n: usize = h.len();
            let mut i: usize = 0;
            while i < n
                invariant
                    n == h@.len(),
                    i <= n,
                    r@.len() == i + 1,
                    r@[0].0@ == "User-Agent"@,
                    r@[0].1@ == user_agent@,
                    forall|j: int|
                        0 < j < r@.len() ==> (#[trigger] r@[j]).0@ == h@[j - 1].0 && r@[j].1@
                            == h@[j - 1].1@,
                decreases n - i,
            {
                r.push((h.key(i).clone(), h.value(i).clone()));
                i = i + 1;
            }
            assert(text::pair_texts(r@) =~= seq![("User-Agent"@, user_agent@)] + table::viewed(h@));
        },
        None => {
            assert(text::pair_texts(r@) =~= seq![("User-Agent"@, user_agent@)] + Seq::empty());
        },
    }
    let ghost before = text::pair_texts(r@);
    if site.request_payload.is_some() {
        r.push(("Content-Type".to_string(), "application/json".to_string()));
        assert(text::pair_texts(r@) =~= before + seq![("Content-Type"@, "application/json"@)]);
    } else {
        assert(before + Seq::empty() =~= before);
    }
    r
}

/// The request that asks `site` about `username`.
pub fn plan_request(site: &SiteData, username: &str, user_agent: &str) -> (r: RequestPlan)
    ensures
        r@ == request(site@, username@, user_agent@),
{
    let site_url = site.format_url(username);
    let probe_url = match &site.url_probe {
        Some(u) => fill(u.as_str(), username),
        None => site_url.clone(),
    };
    let body = match &site.request_payload {
        Some(p) => Some(fill(p.as_str(), username)),
        None => None,
    };
    let r = RequestPlan {
        site_url,
        probe_url,
        follow_redirects: !str_eq(site.error_type.as_str(), "response_url"),
        method: choose_method(&site.request_method),
        headers: build_headers(site, user_agent),
        body,
    };
    assert(r@ =~= request(site@, username@, user_agent@));
    r
}

/// The request that asks `site` about `username`, passed off as a browser that
/// is picked at random.
pub fn plan_check(site: &SiteData, username: &str) -> (r: RequestPlan)
    ensures
        exists|ua: Seq<char>|
            #[trigger] user_agent_list().contains(ua) && r@ == request(site@, username@, ua),
{
    let ua = random_ua();
    let r = plan_request(site, username, ua);
    assert(user_agent_list().contains(ua@));
    r
}

/// The digest that is kept of a body: SHA-256 of its first 64 KiB, in
/// hexadecimal.
pub open spec fn fingerprint(body: Seq<char>) -> Seq<char> {
    text::hex(outside::sha256_digest(digested(vstd::utf8::encode_utf8(body))))
}

/// The bytes of a body that its digest covers.
pub open spec fn digested(bytes: Seq<u8>) -> Seq<u8> {
    if bytes.len() <= DIGEST_BYTES {
        bytes
    } else {
        bytes.take(DIGEST_BYTES as int)
    }
}

/// The digest that is kept of a body.
pub fn body_fingerprint(body: &str) -> (r: String)
    ensures
        r@ == fingerprint(body@),
        r@.len() == 64,
{
    let bytes = body.as_bytes();
    let n: usize = if bytes.len() <= DIGEST_BYTES {
        bytes.len()
    } else {
        DIGEST_BYTES
    };
    let part = slice_subrange(bytes, 0, n);
    assert(part@ =~= digested(bytes@));
    let d = sha256(part);
    encode_hex(d.as_slice())
}

/// What is said of a site and a username before anything was asked.
pub open spec fn blank_result(
    name: Seq<char>,
    site: SiteView,
    username: Seq<char>,
    status: QueryStatus,
    confidence: u8,
) -> ResultView {
    ResultView {
        username,
        site_name: name,
        url_main: site.url_main,
        site_url: sites::filled(site.url, username),
        status,
        response_time_ms: None,
        context: None,
        confidence,
        extracted: None,
        body_sha256: None,
    }
}

fn make_blank(name: &str, site: &SiteData, username: &str, status: QueryStatus, confidence: u8) -> (r:
    QueryResult)
    ensures
        r@ == blank_result(name@, site@, username@, status, confidence),
{
    let r = QueryResult {
        username: username.to_string(),
        site_name: name.to_string(),
        url_main: site.url_main.clone(),
        site_url: site.format_url(username),
        status,
        response_time_ms: None,
        context: None,
        confidence,
        extracted: None,
        body_sha256: None,
    };
    assert(r@ =~= blank_result(name@, site@, username@, status, confidence));
    r
}

/// The result of a response, given the verdict on it, the fields found in it
/// and the digest of its body. Fields are reported of a claimed username and
/// where there are any; a digest is not reported of a firewall's page.
pub open spec fn response_result(
    name: Seq<char>,
    site: SiteView,
    username: Seq<char>,
    elapsed_ms: u64,
    judged: (QueryStatus, u8),
    fields: Seq<(Seq<char>, ExtractedView)>,
    digest: Seq<char>,
) -> ResultView {
    ResultView {
        response_time_ms: Some(elapsed_ms),
        extracted: if judged.0 == QueryStatus::Claimed && fields.len() > 0 {
            Some(fields)
        } else {
            None
        },
        body_sha256: if judged.0 == QueryStatus::Waf {
            None
        } else {
            Some(digest)
        },
        ..blank_result(name, site, username, judged.0, judged.1)
    }
}

/// The result of a response, given the verdict on it, the fields found in it
/// and the digest of its body.
pub fn build_result(
    name: &str,
    site: &SiteData,
    username: &str,
    elapsed_ms: u64,
    judged: (QueryStatus, u8),
    fields: Table<ExtractedValue>,
    digest: String,
) -> (r: QueryResult)
    ensures
        r@ == response_result(
            name@,
            site@,
            username@,
            elapsed_ms,
            judged,
            table::viewed(fields@),
            digest@,
        ),
{
    let mut r = make_blank(name, site, username, judged.0, judged.1);
    r.response_time_ms = Some(elapsed_ms);
    r.extracted =
    if judged.0 == QueryStatus::Claimed && !fields.is_empty() {
        Some(fields)
    } else {
        None
    };
    r.body_sha256 =
    if judged.0 == QueryStatus::Waf {
        None
    } else {
        Some(digest)
    };
    r
}

/// The result of a response of `site` to the question about `username`.
pub fn result_of_response(
    name: &str,
    site: &SiteData,
    username: &str,
    elapsed_ms: u64,
    status_code: u16,
    body: &str,
) -> (r: QueryResult)
    ensures
        r@ == response_result(
            name@,
            site@,
            username@,
            elapsed_ms,
            verdict(site@, status_code, body@, waf_in(outside::lowercase(body@))),
            extract::extracted(body@, site@.compiled_extractors),
            fingerprint(body@),
        ),
{
    let judged = determine_status_v2(site, status_code, body);
    let fields = if judged.0 == QueryStatus::Claimed {
        run_extractors(body, &site.compiled_extractors)
    } else {
        Table::new()
    };
    let digest = body_fingerprint(body);
    build_result(name, site, username, elapsed_ms, judged, fields, digest)
}

/// The mark of an error that is worth another attempt.
pub open spec fn error_context(network: bool, message: Seq<char>) -> Seq<char> {
    (if network {
        "NET: "@
    } else {
        "Error: "@
    }) + message
}

/// The result of a request that got no response.
pub open spec fn error_result(
    name: Seq<char>,
    site: SiteView,
    username: Seq<char>,
    elapsed_ms: u64,
    network: bool,
    message: Seq<char>,
) -> ResultView {
    ResultView {
        response_time_ms: Some(elapsed_ms),
        context: Some(error_context(network, message)),
        ..blank_result(name, site, username, QueryStatus::Unknown, CONFIDENCE_NONE)
    }
}

/// The result of a request that got no response. A timeout or a failed
/// connection is marked, so that the request is repeated.
pub fn result_of_error(
    name: &str,
    site: &SiteData,
    username: &str,
    elapsed_ms: u64,
    network: bool,
    message: &str,
) -> (r: QueryResult)
    ensures
        r@ == (ResultView {
            response_time_ms: Some(elapsed_ms),
            context: Some(error_context(network, message@)),
            ..blank_result(name@, site@, username@, QueryStatus::Unknown, CONFIDENCE_NONE)
        }),
        r@ == error_result(name@, site@, username@, elapsed_ms, network, message@),
{
    let mut r = make_blank(name, site, username, QueryStatus::Unknown, CONFIDENCE_NONE);
    let mut context: String = (if network {
        "NET: "
    } else {
        "Error: "
    }).to_string();
    context.append(message);
    r.response_time_ms = Some(elapsed_ms);
    r.context = Some(context);
    r
}

/// Whether a result is that of a network error.
pub open spec fn is_network_error(r: ResultView) -> bool {
    r.status == QueryStatus::Unknown && (match r.context {
        Some(c) => text::starts_with(c, "NET:"@),
        None => false,
    })
}

/// A network error that is final, worded for display.
pub open spec fn given_up(r: ResultView) -> ResultView {
    ResultView {
        context: match r.context {
            Some(c) => if text::starts_with(c, "NET: "@) {
                Some(c.skip("NET: "@.len() as int) + " (after "@ + text::decimal((MAX_ATTEMPTS - 1) as nat) + " retries)"@)
            } else {
                Some(c)
            },
            None => None,
        },
        ..r
    }
}

/// What to do after an attempt.
#[derive(Debug)]
pub enum RetryStep {
    /// Report this.
    Finish(QueryResult),
    /// Wait, then ask again.
    RetryAfter { delay_ms: u64 },
}

/// The pause after the attempt with this number, counted from zero: doubled
/// each time.
pub open spec fn backoff_ms(attempt: nat) -> nat
    decreases attempt,
{
    if attempt == 0 {
        500
    } else {
        2 * backoff_ms((attempt - 1) as nat)
    }
}

/// Whether a site is asked again after the attempt with this number, counted
/// from zero, came to `r`.
pub open spec fn is_repeated(attempt: int, r: ResultView) -> bool {
    is_network_error(r) && attempt + 1 < MAX_ATTEMPTS
}

/// What is reported where a site is not asked again.
pub open spec fn reported(r: ResultView) -> ResultView {
    if is_network_error(r) {
        given_up(r)
    } else {
        r
    }
}

/// What to do after the attempt with this number, counted from zero, came to
/// `result`. Only a network error is worth another attempt, and the last
/// attempt is final.
pub fn after_attempt(attempt: u32, result: QueryResult) -> (r: RetryStep)
    requires
        attempt < MAX_ATTEMPTS,
    ensures
        match r {
            RetryStep::Finish(f) => {
                ||| !is_network_error(result@) && f == result
                ||| is_network_error(result@) && attempt + 1 == MAX_ATTEMPTS && f@ == given_up(
                    result@,
                )
            },
            RetryStep::RetryAfter { delay_ms } => is_network_error(result@) && attempt + 1
                < MAX_ATTEMPTS && delay_ms == backoff_ms(attempt as nat),
        },
        r is RetryAfter <==> is_repeated(attempt as int, result@),
        r matches RetryStep::Finish(f) ==> f@ == reported(result@),
{
    let network = result.status == QueryStatus::Unknown && (match &result.context {
        Some(c) => str_starts_with(c.as_str(), "NET:"),
        None => false,
    });
    if !network {
        return RetryStep::Finish(result);
    }
    if attempt + 1 < MAX_ATTEMPTS {
        proof {
            reveal_with_fuel(backoff_ms, 3);
        }
        return RetryStep::RetryAfter {
            delay_ms: if attempt == 0 {
                500
            } else {
                1000
            },
        };
    }
    let ghost given = result@;
    let mut f = result;
    let context = match &f.context {
        Some(c) => match strip_prefix(c.as_str(), "NET: ") {
            Some(rest) => {
                let mut s = rest;
                s.append(" (after ");
                let n = decimal_u64((MAX_ATTEMPTS - 1) as u64);
                s.append(n.as_str());
                s.append(" retries)");
                Some(s)
            },
            None => Some(c.clone()),
        },
        None => None,
    };
    f.context = context;
    assert(f@ =~= given_up(given));
    RetryStep::Finish(f)
}

/// What is done about one site.
#[derive(Debug)]
pub enum SiteTask {
    /// The username does not fit the site: report this, ask nothing.
    Report(QueryResult),
    /// Ask the site that stands at this place in the list.
    Ask(usize),
}

/// The view of a `SiteTask`.
pub enum TaskView {
    Report(ResultView),
    Ask(int),
}

impl View for SiteTask {
    type V = TaskView;

    open spec fn view(&self) -> TaskView {
        match self {
            SiteTask::Report(r) => TaskView::Report(r@),
            SiteTask::Ask(i) => TaskView::Ask(*i as int),
        }
    }
}

/// Whether a site is left out of a scan.
pub open spec fn is_skipped(site: SiteView, include_nsfw: bool) -> bool {
    !include_nsfw && site.is_nsfw == Some(true)
}

/// The report on a username that does not fit a site.
pub open spec fn illegal_result(name: Seq<char>, site: SiteView, username: Seq<char>) -> ResultView {
    ResultView {
        context: Some("Invalid username format for this site"@),
        ..blank_result(name, site, username, QueryStatus::Illegal, CONFIDENCE_ILLEGAL)
    }
}

/// Whether a username fits a site; it does where the site names no format, or
/// one that is not well formed.
pub open spec fn fits(site: SiteView, username: Seq<char>) -> bool {
    match site.regex_check {
        Some(p) => outside::regex_valid(p) ==> outside::regex_matches(p, username),
        None => true,
    }
}

/// What is done about the site at the place `i`, once it is known whether the
/// username fits it.
pub open spec fn task_for(
    name: Seq<char>,
    site: SiteView,
    username: Seq<char>,
    i: int,
    fitting: bool,
) -> TaskView {
    if fitting {
        TaskView::Ask(i)
    } else {
        TaskView::Report(illegal_result(name, site, username))
    }
}

/// What is done about the site at the place `i`, once it is known whether the
/// username fits it.
pub fn make_task(name: &str, site: &SiteData, username: &str, i: usize, fitting: bool) -> (r:
    SiteTask)
    ensures
        r@ == task_for(name@, site@, username@, i as int, fitting),
{
    if fitting {
        SiteTask::Ask(i)
    } else {
        let mut r = make_blank(name, site, username, QueryStatus::Illegal, CONFIDENCE_ILLEGAL);
        r.context = Some("Invalid username format for this site".to_string());
        assert(r@ =~= illegal_result(name@, site@, username@));
        SiteTask::Report(r)
    }
}

/// What is done about the first `n` sites of a list.
pub open spec fn scan_tasks(
    list: Seq<(Seq<char>, SiteView)>,
    username: Seq<char>,
    include_nsfw: bool,
    n: int,
) -> Seq<TaskView>
    decreases n,
{
    if n <= 0 {
        Seq::empty()
    } else {
        let before = scan_tasks(list, username, include_nsfw, n - 1);
        let (name, site) = list[n - 1];
        if is_skipped(site, include_nsfw) {
            before
        } else {
            before.push(task_for(name, site, username, n - 1, fits(site, username)))
        }
    }
}

/// Whether a username fits a site.
fn check_format(site: &SiteData, username: &str) -> (r: bool)
    ensures
        r == fits(site@, username@),
{
    match &site.regex_check {
        Some(p) => match regex_is_match(p.as_str(), username) {
            Some(b) => b,
            None => true,
        },
        None => true,
    }
}

/// What a scan for `username` does about each site, in the order of the list.
pub fn check_username(username: &str, list: &Table<SiteData>, config: &CheckConfig) -> (r: Vec<
    SiteTask,
>)
    ensures
        sites::views(r@) == scan_tasks(
            table::viewed(list@),
            username@,
            config.include_nsfw,
            list@.len() as int,
        ),
{
    let mut r: Vec<SiteTask> = Vec::new();
    let ghost all = table::viewed(list@);
    let n: usize = list.len();
    let mut i: usize = 0;
    assert(sites::views(r@) =~= Seq::empty());
    while i < n
        invariant
            n == list@.len(),
            all == table::viewed(list@),
            i <= n,
            sites::views(r@) == scan_tasks(all, username@, config.include_nsfw, i as int),
        decreases n - i,
    {
        let site = list.value(i);
        assert(all[i as int] == (list@[i as int].0, site@));
        let nsfw = match site.is_nsfw {
            Some(b) => b,
            None => false,
        };
        if config.include_nsfw || !nsfw {
            let fitting = check_format(site, username);
            let t = make_task(list.key(i).as_str(), site, username, i, fitting);
            let ghost before = r@;
            r.push(t);
            assert(sites::views(r@) =~= sites::views(before).push(t@));
        }
        i = i + 1;
    }
    r
}

/// How many sites of a list a scan covers.
pub open spec fn covered(list: Seq<(Seq<char>, SiteView)>, include_nsfw: bool, n: int) -> nat
    decreases n,
{
    if n <= 0 {
        0
    } else if is_skipped(list[n - 1].1, include_nsfw) {
        covered(list, include_nsfw, n - 1)
    } else {
        covered(list, include_nsfw, n - 1) + 1
    }
}

/// How many sites of a list a scan covers.
pub fn count_covered(list: &Table<SiteData>, include_nsfw: bool) -> (r: usize)
    ensures
        r == covered(table::viewed(list@), include_nsfw, list@.len() as int),
        r <= list@.len(),
{
    let ghost all = table::viewed(list@);
    let n: usize = list.len();
    let mut r: usize = 0;
    let mut i: usize = 0;
    while i < n
        invariant
            n == list@.len(),
            all == table::viewed(list@),
            i <= n,
            r <= i,
            r == covered(all, include_nsfw, i as int),
        decreases n - i,
    {
        let site = list.value(i);
        assert(all[i as int] == (list@[i as int].0, site@));
        let nsfw = match site.is_nsfw {
            Some(b) => b,
            None => false,
        };
        if include_nsfw || !nsfw {
            r = r + 1;
        }
        i = i + 1;
    }
    r
}

/// A page of a firewall is reported as such, whatever else it would be taken
/// for.
pub proof fn firewall_comes_first(site: SiteView, status_code: u16, body: Seq<char>)
    ensures
        verdict(site, status_code, body, true).0 == QueryStatus::Waf,
        verdict(site, status_code, body, false).0 != QueryStatus::Waf,
{
}

/// Where a site has a detection rule, nothing but that rule judges it: two sites
/// with one rule get one verdict, whatever their `error_*` fields say.
pub proof fn detection_supersedes_the_rest(
    a: SiteView,
    b: SiteView,
    status_code: u16,
    body: Seq<char>,
    waf: bool,
)
    requires
        a.detection is Some,
        a.detection == b.detection,
    ensures
        verdict(a, status_code, body, waf) == verdict(b, status_code, body, waf),
{
}

/// Neither of the two patterns of a rule is left out.
pub open spec fn has_both_patterns(d: DetectionView) -> bool {
    (d.e_code is Some || d.e_string is Some) && (d.m_code is Some || d.m_string is Some)
}

/// What a rule of two whole patterns says: a profile exists if and only if the
/// one matches and the other does not, is missing the other way round, and the
/// rule contradicts itself where both match.
pub proof fn both_patterns_must_agree(d: DetectionView, status_code: u16, body: Seq<char>)
    requires
        has_both_patterns(d),
    ensures
        ({
            let e = pattern_matches(d.e_code, d.e_string, status_code, body) == Some(true);
            let m = pattern_matches(d.m_code, d.m_string, status_code, body) == Some(true);
            let v = detected(d, status_code, body).0;
            &&& v == QueryStatus::Claimed <==> e && !m
            &&& v == QueryStatus::Available <==> m && !e
            &&& v == QueryStatus::Tentative <==> e && m
            &&& v == QueryStatus::Unknown <==> !e && !m
        }),
{
}

/// How sure verdicts are: never more than a hundred; 95 where two patterns
/// agree; between 70 and 80 by the `error_*` fields; low for a firewall's page
/// and where there is no verdict.
pub proof fn confidence_is_graded(site: SiteView, status_code: u16, body: Seq<char>, waf: bool)
    ensures
        ({
            let (status, confidence) = verdict(site, status_code, body, waf);
            &&& confidence <= 100
            &&& status == QueryStatus::Waf ==> confidence <= 40
            &&& status == QueryStatus::Unknown ==> confidence <= 40
            &&& status == QueryStatus::Tentative ==> confidence <= 40
            &&& site.detection is None && (status == QueryStatus::Claimed || status
                == QueryStatus::Available) ==> 70 <= confidence <= 80
            &&& site.detection is Some && has_both_patterns(site.detection->0) && (status
                == QueryStatus::Claimed || status == QueryStatus::Available) ==> confidence == 95
        }),
{
}

/// A response, whatever its status code, is never taken for a network error, so
/// that nothing is asked twice that was answered; of the rest, just the errors
/// of the network are.
pub proof fn only_network_errors_are_retried(
    name: Seq<char>,
    site: SiteView,
    username: Seq<char>,
    elapsed_ms: u64,
    judged: (QueryStatus, u8),
    fields: Seq<(Seq<char>, ExtractedView)>,
    digest: Seq<char>,
    network: bool,
    message: Seq<char>,
)
    ensures
        !is_network_error(
            response_result(name, site, username, elapsed_ms, judged, fields, digest),
        ),
        is_network_error(
            ResultView {
                response_time_ms: Some(elapsed_ms),
                context: Some(error_context(network, message)),
                ..blank_result(name, site, username, QueryStatus::Unknown, CONFIDENCE_NONE)
            },
        ) <==> network,
{
    reveal_strlit("NET:");
    reveal_strlit("NET: ");
    reveal_strlit("Error: ");
    let c = error_context(network, message);
    if network {
        assert(c.subrange(0, 4) =~= "NET:"@);
    } else {
        assert(c.subrange(0, 4)[0] == 'E');
        assert("NET:"@[0] == 'N');
    }
}

/// The pause after the first attempt is half a second, and each that follows is
/// twice the one before.
pub proof fn pauses_double(attempt: nat)
    ensures
        backoff_ms(0) == 500,
        backoff_ms(attempt + 1) == 2 * backoff_ms(attempt),
        backoff_ms(attempt) >= 500,
    decreases attempt,
{
    if attempt > 0 {
        pauses_double((attempt - 1) as nat);
    }
}

/// Each site that a scan covers is dealt with once: it is asked, or, where the
/// username does not fit it, reported as it is. An adult site is asked only
/// where that was wanted.
pub proof fn every_covered_site_is_dealt_with(
    list: Seq<(Seq<char>, SiteView)>,
    username: Seq<char>,
    include_nsfw: bool,
    n: int,
)
    requires
        0 <= n <= list.len(),
    ensures
        scan_tasks(list, username, include_nsfw, n).len() == covered(list, include_nsfw, n),
        forall|k: int|
            0 <= k < scan_tasks(list, username, include_nsfw, n).len() ==> match (
            #[trigger] scan_tasks(list, username, include_nsfw, n)[k]) {
                TaskView::Ask(i) => 0 <= i < n && fits(list[i].1, username) && !is_skipped(
                    list[i].1,
                    include_nsfw,
                ),
                TaskView::Report(r) => r.status == QueryStatus::Illegal && r.username == username
                    && r.response_time_ms is None && r.body_sha256 is None,
            },
        forall|i: int|
            0 <= i < n && !is_skipped(list[i].1, include_nsfw) && fits(list[i].1, username)
                ==> #[trigger] scan_tasks(list, username, include_nsfw, n).contains(
                TaskView::Ask(i),
            ),
    decreases n,
{
    if n > 0 {
        every_covered_site_is_dealt_with(list, username, include_nsfw, n - 1);
        let before = scan_tasks(list, username, include_nsfw, n - 1);
        let now = scan_tasks(list, username, include_nsfw, n);
        assert forall|k: int| 0 <= k < now.len() implies match (#[trigger] now[k]) {
            TaskView::Ask(i) => 0 <= i < n && fits(list[i].1, username) && !is_skipped(
                list[i].1,
                include_nsfw,
            ),
            TaskView::Report(r) => r.status == QueryStatus::Illegal && r.username == username
                && r.response_time_ms is None && r.body_sha256 is None,
        } by {
            if k < before.len() {
                assert(now[k] == before[k]);
            }
        }
        assert forall|i: int|
            0 <= i < n && !is_skipped(list[i].1, include_nsfw) && fits(
                list[i].1,
                username,
            ) implies #[trigger] now.contains(TaskView::Ask(i)) by {
            if i < n - 1 {
                assert(before.contains(TaskView::Ask(i)));
                let k = choose|k: int| 0 <= k < before.len() && before[k] == TaskView::Ask(i);
                assert(now[k] == TaskView::Ask(i));
            } else {
                assert(now[now.len() - 1] == TaskView::Ask(i));
            }
        }
    }
}

/// The places of the sites that a scan covers, of the first `n` of a list.
pub open spec fn covered_places(
    list: Seq<(Seq<char>, SiteView)>,
    include_nsfw: bool,
    n: int,
) -> Seq<int>
    decreases n,
{
    if n <= 0 {
        Seq::empty()
    } else if is_skipped(list[n - 1].1, include_nsfw) {
        covered_places(list, include_nsfw, n - 1)
    } else {
        covered_places(list, include_nsfw, n - 1).push(n - 1)
    }
}

/// There is just one task for each site that a scan covers, in the order of the
/// list, and it is about that site: a report names it and its URL for the
/// username.
pub proof fn tasks_are_those_of_the_covered_sites(
    list: Seq<(Seq<char>, SiteView)>,
    username: Seq<char>,
    include_nsfw: bool,
    n: int,
)
    requires
        0 <= n <= list.len(),
    ensures
        ({
            let tasks = scan_tasks(list, username, include_nsfw, n);
            let places = covered_places(list, include_nsfw, n);
            &&& tasks.len() == places.len() == covered(list, include_nsfw, n)
            &&& forall|k: int|
                0 <= k < tasks.len() ==> #[trigger] tasks[k] == task_for(
                    list[places[k]].0,
                    list[places[k]].1,
                    username,
                    places[k],
                    fits(list[places[k]].1, username),
                )
            &&& forall|k: int, l: int|
                0 <= k < l < places.len() ==> (#[trigger] places[k]) < (#[trigger] places[l])
            &&& forall|k: int| 0 <= k < places.len() ==> 0 <= (#[trigger] places[k]) < n
            &&& forall|i: int|
                0 <= i < n ==> (places.contains(i) <==> !is_skipped(
                    (#[trigger] list[i]).1,
                    include_nsfw,
                ))
        }),
    decreases n,
{
    if n > 0 {
        tasks_are_those_of_the_covered_sites(list, username, include_nsfw, n - 1);
        let before = covered_places(list, include_nsfw, n - 1);
        let places = covered_places(list, include_nsfw, n);
        let tasks = scan_tasks(list, username, include_nsfw, n);
        let tasks_before = scan_tasks(list, username, include_nsfw, n - 1);
        assert forall|k: int| 0 <= k < tasks.len() implies #[trigger] tasks[k] == task_for(
            list[places[k]].0,
            list[places[k]].1,
            username,
            places[k],
            fits(list[places[k]].1, username),
        ) by {
            if k < tasks_before.len() {
                assert(tasks[k] == tasks_before[k]);
                assert(places[k] == before[k]);
            }
        }
        assert forall|i: int| 0 <= i < n implies (places.contains(i) <==> !is_skipped(
            (#[trigger] list[i]).1,
            include_nsfw,
        )) by {
            if i < n - 1 {
                if before.contains(i) {
                    let k = choose|k: int| 0 <= k < before.len() && before[k] == i;
                    assert(places[k] == i);
                }
                if places.contains(i) {
                    let k = choose|k: int| 0 <= k < places.len() && places[k] == i;
                    assert(before[k] == i);
                }
            } else {
                if !is_skipped(list[i].1, include_nsfw) {
                    assert(places[before.len() as int] == i);
                } else if places.contains(i) {
                    let k = choose|k: int| 0 <= k < places.len() && places[k] == i;
                    assert(before[k] < n - 1);
                }
            }
        }
    }
}

/// Fields are reported only of an account that was found, and never an empty
/// list of them; a digest of the body of every page but a firewall's.
pub proof fn fields_are_those_of_found_accounts(
    name: Seq<char>,
    site: SiteView,
    username: Seq<char>,
    elapsed_ms: u64,
    judged: (QueryStatus, u8),
    fields: Seq<(Seq<char>, ExtractedView)>,
    digest: Seq<char>,
)
    ensures
        ({
            let r = response_result(name, site, username, elapsed_ms, judged, fields, digest);
            &&& r.extracted is Some ==> r.status == QueryStatus::Claimed && r.extracted->0.len() > 0
            &&& r.body_sha256 is None <==> r.status == QueryStatus::Waf
            &&& r.username == username
            &&& r.site_url == sites::filled(site.url, username)
            &&& r.context is None
        }),
{
}

/// The fields that are reported of a page are canonical, where the rules of the
/// site were checked when it was loaded.
pub proof fn reported_fields_are_canonical(
    name: Seq<char>,
    site: SiteView,
    username: Seq<char>,
    elapsed_ms: u64,
    judged: (QueryStatus, u8),
    body: Seq<char>,
    digest: Seq<char>,
)
    requires
        catalog::yields_canonical_fields(site),
    ensures
        ({
            let r = response_result(
                name,
                site,
                username,
                elapsed_ms,
                judged,
                extract::extracted(body, site.compiled_extractors),
                digest,
            );
            r.extracted matches Some(fields) ==> forall|k: Seq<char>| #[trigger]
                table::has_key(fields, k) ==> sites::canonical_fields().contains(k)
        }),
{
}

/// The three methods by which a site without a detection rule is judged: by the
/// status, where 404 or the code that the site names is a missing profile and
/// success a profile; by a text in the body that says there is none; and by
/// whether the site redirects, which is why redirects are not followed then.
pub proof fn methods_are_three(
    site: SiteView,
    username: Seq<char>,
    user_agent: Seq<char>,
    status_code: u16,
    body: Seq<char>,
)
    requires
        site.detection is None,
    ensures
        ({
            let v = verdict(site, status_code, body, false).0;
            let named_missing = match site.error_code {
                Some(c) => c.has(status_code),
                None => status_code == 404,
            };
            let told_missing = site.error_msg is Some && any_in(site.error_msg->0.list(), body);
            let by_status = site.error_type == "status_code"@;
            let by_message = site.error_type == "message"@ && site.error_msg is Some;
            let by_redirect = site.error_type == "response_url"@;
            &&& by_status ==> (v == QueryStatus::Available <==> named_missing)
            &&& by_status ==> (v == QueryStatus::Claimed <==> !named_missing && is_success(
                status_code,
            ))
            &&& by_message ==> (v == QueryStatus::Available <==> told_missing)
            &&& by_message ==> (v == QueryStatus::Claimed <==> !told_missing && is_success(
                status_code,
            ))
            &&& by_redirect ==> (v == QueryStatus::Claimed <==> is_success(status_code))
            &&& by_redirect ==> (v == QueryStatus::Available <==> !is_success(status_code))
            &&& by_redirect <==> !request(site, username, user_agent).follow_redirects
            &&& !by_status && !by_message && !by_redirect ==> v == QueryStatus::Unknown
        }),
{
    reveal_strlit("status_code");
    reveal_strlit("message");
    reveal_strlit("response_url");
    assert("status_code"@[0] == 's');
    assert("message"@[0] == 'm');
    assert("response_url"@[0] == 'r');
}

/// The browsers that requests pass themselves off as. The first stands in the
/// list twice.
pub proof fn these_are_the_browsers(user_agent: Seq<char>)
    ensures
        user_agent_list().len() == 25,
        user_agent_list()[24] == user_agent_list()[0],
        user_agent_list()[0]
            == "Mozilla/5.0 (Windows NT 10.0; Win64; x64) AppleWebKit/537.36 (KHTML, like Gecko) Chrome/131.0.0.0 Safari/537.36"@,
        user_agent_list().contains(user_agent) <==> {
            ||| user_agent
                == "Mozilla/5.0 (Windows NT 10.0; Win64; x64) AppleWebKit/537.36 (KHTML, like Gecko) Chrome/131.0.0.0 Safari/537.36"@
            ||| user_agent
                == "Mozilla/5.0 (Windows NT 10.0; Win64; x64) AppleWebKit/537.36 (KHTML, like Gecko) Chrome/130.0.0.0 Safari/537.36"@
            ||| user_agent
                == "Mozilla/5.0 (Windows NT 10.0; Win64; x64) AppleWebKit/537.36 (KHTML, like Gecko) Chrome/129.0.0.0 Safari/537.36"@
            ||| user_agent
                == "Mozilla/5.0 (Windows NT 10.0; Win64; x64) AppleWebKit/537.36 (KHTML, like Gecko) Chrome/128.0.0.0 Safari/537.36"@
            ||| user_agent
                == "Mozilla/5.0 (Macintosh; Intel Mac OS X 10_15_7) AppleWebKit/537.36 (KHTML, like Gecko) Chrome/131.0.0.0 Safari/537.36"@
            ||| user_agent
                == "Mozilla/5.0 (Macintosh; Intel Mac OS X 10_15_7) AppleWebKit/537.36 (KHTML, like Gecko) Chrome/130.0.0.0 Safari/537.36"@
            ||| user_agent
                == "Mozilla/5.0 (Macintosh; Intel Mac OS X 10_15_7) AppleWebKit/537.36 (KHTML, like Gecko) Chrome/129.0.0.0 Safari/537.36"@
            ||| user_agent
                == "Mozilla/5.0 (X11; Linux x86_64) AppleWebKit/537.36 (KHTML, like Gecko) Chrome/131.0.0.0 Safari/537.36"@
            ||| user_agent
                == "Mozilla/5.0 (X11; Linux x86_64) AppleWebKit/537.36 (KHTML, like Gecko) Chrome/130.0.0.0 Safari/537.36"@
            ||| user_agent
                == "Mozilla/5.0 (Windows NT 10.0; Win64; x64; rv:133.0) Gecko/20100101 Firefox/133.0"@
            ||| user_agent
                == "Mozilla/5.0 (Windows NT 10.0; Win64; x64; rv:132.0) Gecko/20100101 Firefox/132.0"@
            ||| user_agent
                == "Mozilla/5.0 (Windows NT 10.0; Win64; x64; rv:131.0) Gecko/20100101 Firefox/131.0"@
            ||| user_agent
                == "Mozilla/5.0 (Windows NT 10.0; Win64; x64; rv:130.0) Gecko/20100101 Firefox/130.0"@
            ||| user_agent
                == "Mozilla/5.0 (Macintosh; Intel Mac OS X 10.15; rv:133.0) Gecko/20100101 Firefox/133.0"@
            ||| user_agent
                == "Mozilla/5.0 (X11; Linux x86_64; rv:133.0) Gecko/20100101 Firefox/133.0"@
            ||| user_agent
                == "Mozilla/5.0 (Windows NT 10.0; Win64; x64) AppleWebKit/537.36 (KHTML, like Gecko) Chrome/131.0.0.0 Safari/537.36 Edg/131.0.0.0"@
            ||| user_agent
                == "Mozilla/5.0 (Windows NT 10.0; Win64; x64) AppleWebKit/537.36 (KHTML, like Gecko) Chrome/130.0.0.0 Safari/537.36 Edg/130.0.0.0"@
            ||| user_agent
                == "Mozilla/5.0 (Macintosh; Intel Mac OS X 10_15_7) AppleWebKit/537.36 (KHTML, like Gecko) Chrome/131.0.0.0 Safari/537.36 Edg/131.0.0.0"@
            ||| user_agent
                == "Mozilla/5.0 (Macintosh; Intel Mac OS X 14_1) AppleWebKit/605.1.15 (KHTML, like Gecko) Version/17.1 Safari/605.1.15"@
            ||| user_agent
                == "Mozilla/5.0 (Macintosh; Intel Mac OS X 14_0) AppleWebKit/605.1.15 (KHTML, like Gecko) Version/17.0 Safari/605.1.15"@
            ||| user_agent
                == "Mozilla/5.0 (iPhone; CPU iPhone OS 17_2 like Mac OS X) AppleWebKit/605.1.15 (KHTML, like Gecko) Version/17.2 Mobile/15E148 Safari/604.1"@
            ||| user_agent
                == "Mozilla/5.0 (Linux; Android 14; Pixel 8) AppleWebKit/537.36 (KHTML, like Gecko) Chrome/131.0.0.0 Mobile Safari/537.36"@
            ||| user_agent
                == "Mozilla/5.0 (Linux; Android 13; SM-S918B) AppleWebKit/537.36 (KHTML, like Gecko) Chrome/131.0.0.0 Mobile Safari/537.36"@
            ||| user_agent
                == "Mozilla/5.0 (Windows NT 10.0; Win64; x64) AppleWebKit/537.36 (KHTML, like Gecko) Chrome/131.0.0.0 Safari/537.36 OPR/116.0.0.0"@
        },
{
    let l = user_agent_list();
    assert(l.contains(l[0]));
    assert(l.contains(l[1]));
    assert(l.contains(l[2]));
    assert(l.contains(l[3]));
    assert(l.contains(l[4]));
    assert(l.contains(l[5]));
    assert(l.contains(l[6]));
    assert(l.contains(l[7]));
    assert(l.contains(l[8]));
    assert(l.contains(l[9]));
    assert(l.contains(l[10]));
    assert(l.contains(l[11]));
    assert(l.contains(l[12]));
    assert(l.contains(l[13]));
    assert(l.contains(l[14]));
    assert(l.contains(l[15]));
    assert(l.contains(l[16]));
    assert(l.contains(l[17]));
    assert(l.contains(l[18]));
    assert(l.contains(l[19]));
    assert(l.contains(l[20]));
    assert(l.contains(l[21]));
    assert(l.contains(l[22]));
    assert(l.contains(l[23]));
}

proof fn signatures_in_lower_case()
    ensures
        text::ascii_lower("Attention Required! | Cloudflare"@) == "attention required! | cloudflare"@,
        text::ascii_lower("cf-browser-verification"@) == "cf-browser-verification"@,
        text::ascii_lower("Please Wait... | Cloudflare"@) == "please wait... | cloudflare"@,
        text::ascii_lower("Just a moment..."@) == "just a moment..."@,
        text::ascii_lower("Checking your browser"@) == "checking your browser"@,
        text::ascii_lower("Pardon Our Interruption"@) == "pardon our interruption"@,
        text::ascii_lower("Access denied | "@) == "access denied | "@,
        text::ascii_lower("_cf_chl_opt"@) == "_cf_chl_opt"@,
{
    reveal_strlit("Attention Required! | Cloudflare");
    reveal_strlit("attention required! | cloudflare");
    reveal_strlit("cf-browser-verification");
    reveal_strlit("Please Wait... | Cloudflare");
    reveal_strlit("please wait... | cloudflare");
    reveal_strlit("Just a moment...");
    reveal_strlit("just a moment...");
    reveal_strlit("Checking your browser");
    reveal_strlit("checking your browser");
    reveal_strlit("Pardon Our Interruption");
    reveal_strlit("pardon our interruption");
    reveal_strlit("Access denied | ");
    reveal_strlit("access denied | ");
    reveal_strlit("_cf_chl_opt");
    assert(text::ascii_lower("Attention Required! | Cloudflare"@) =~= "attention required! | cloudflare"@);
    assert(text::ascii_lower("cf-browser-verification"@) =~= "cf-browser-verification"@);
    assert(text::ascii_lower("Please Wait... | Cloudflare"@) =~= "please wait... | cloudflare"@);
    assert(text::ascii_lower("Just a moment..."@) =~= "just a moment..."@);
    assert(text::ascii_lower("Checking your browser"@) =~= "checking your browser"@);
    assert(text::ascii_lower("Pardon Our Interruption"@) =~= "pardon our interruption"@);
    assert(text::ascii_lower("Access denied | "@) =~= "access denied | "@);
    assert(text::ascii_lower("_cf_chl_opt"@) =~= "_cf_chl_opt"@);
}

/// A page is taken for a firewall's just where its text in lower case holds one
/// of eight texts. A page that only names the company that runs a firewall holds
/// none of them.
pub proof fn firewalls_are_known_by_eight_texts(lower: Seq<char>)
    ensures
        waf_in(lower) <==> {
            ||| text::contains(lower, "attention required! | cloudflare"@)
            ||| text::contains(lower, "cf-browser-verification"@)
            ||| text::contains(lower, "please wait... | cloudflare"@)
            ||| text::contains(lower, "just a moment..."@)
            ||| text::contains(lower, "checking your browser"@)
            ||| text::contains(lower, "pardon our interruption"@)
            ||| text::contains(lower, "access denied | "@)
            ||| text::contains(lower, "_cf_chl_opt"@)
        },
{
    let list = waf_signatures();
    signatures_in_lower_case();
    if text::contains(lower, "attention required! | cloudflare"@) {
        assert(text::contains(lower, text::ascii_lower(list[0])));
    }
    if text::contains(lower, "cf-browser-verification"@) {
        assert(text::contains(lower, text::ascii_lower(list[1])));
    }
    if text::contains(lower, "please wait... | cloudflare"@) {
        assert(text::contains(lower, text::ascii_lower(list[2])));
    }
    if text::contains(lower, "just a moment..."@) {
        assert(text::contains(lower, text::ascii_lower(list[3])));
    }
    if text::contains(lower, "checking your browser"@) {
        assert(text::contains(lower, text::ascii_lower(list[4])));
    }
    if text::contains(lower, "pardon our interruption"@) {
        assert(text::contains(lower, text::ascii_lower(list[5])));
    }
    if text::contains(lower, "access denied | "@) {
        assert(text::contains(lower, text::ascii_lower(list[6])));
    }
    if text::contains(lower, "_cf_chl_opt"@) {
        assert(text::contains(lower, text::ascii_lower(list[7])));
    }
    if waf_in(lower) {
        let i = choose|i: int|
            0 <= i < list.len() && text::contains(lower, text::ascii_lower(#[trigger] list[i]));
        assert(i == 0 || i == 1 || i == 2 || i == 3 || i == 4 || i == 5 || i == 6 || i == 7);
    }
}

/// What a detection rule says, part by part. A pattern holds where the status is
/// the one that it names, if it names one, and the body holds the text that it
/// names, if it names one. Two patterns are as good as sure where they agree; one
/// alone is less so.
pub proof fn detection_goes_by_its_four_parts(d: DetectionView, status_code: u16, body: Seq<char>)
    ensures
        ({
            let has_e = d.e_code is Some || d.e_string is Some;
            let has_m = d.m_code is Some || d.m_string is Some;
            let e = (d.e_code is None || d.e_code == Some(status_code)) && (d.e_string is None
                || text::contains(body, d.e_string->0));
            let m = (d.m_code is None || d.m_code == Some(status_code)) && (d.m_string is None
                || text::contains(body, d.m_string->0));
            let v = detected(d, status_code, body);
            &&& has_e && has_m && e && !m ==> v == (QueryStatus::Claimed, 95u8)
            &&& has_e && has_m && !e && m ==> v == (QueryStatus::Available, 95u8)
            &&& has_e && has_m && e && m ==> v == (QueryStatus::Tentative, 40u8)
            &&& has_e && has_m && !e && !m ==> v == (QueryStatus::Unknown, 0u8)
            &&& has_e && !has_m && e ==> v == (QueryStatus::Claimed, 75u8)
            &&& has_e && !has_m && !e ==> v == (QueryStatus::Available, 75u8)
            &&& !has_e && has_m && m ==> v == (QueryStatus::Available, 75u8)
            &&& !has_e && has_m && !m ==> v == (QueryStatus::Claimed, 75u8)
            &&& !has_e && !has_m ==> v == (QueryStatus::Unknown, 0u8)
        }),
{
}

/// The verdict and the confidence in it, for a site that has no detection rule
/// and for a firewall's page.
pub proof fn verdicts_by_the_error_fields(site: SiteView, status_code: u16, body: Seq<char>)
    ensures
        verdict(site, status_code, body, true) == (QueryStatus::Waf, 10u8),
        site.detection is Some ==> verdict(site, status_code, body, false) == detected(
            site.detection->0,
            status_code,
            body,
        ),
        site.detection is None ==> ({
            let v = verdict(site, status_code, body, false);
            let success = 200 <= status_code <= 299;
            let missing = match site.error_code {
                None => status_code == 404,
                Some(ErrorCodeView::Single(c)) => c == status_code,
                Some(ErrorCodeView::Multiple(cs)) => cs.contains(status_code),
            };
            let told = match site.error_msg {
                None => false,
                Some(ErrorMsgView::Single(s)) => text::contains(body, s),
                Some(ErrorMsgView::Multiple(l)) => exists|i: int|
                    0 <= i < l.len() && text::contains(body, #[trigger] l[i]),
            };
            let kind = site.error_type;
            &&& kind == "status_code"@ && missing ==> v == (QueryStatus::Available, 75u8)
            &&& kind == "status_code"@ && !missing && success ==> v == (QueryStatus::Claimed, 75u8)
            &&& kind == "status_code"@ && !missing && !success ==> v == (QueryStatus::Unknown, 0u8)
            &&& kind == "message"@ && site.error_msg is None ==> v == (QueryStatus::Unknown, 0u8)
            &&& kind == "message"@ && told ==> v == (QueryStatus::Available, 80u8)
            &&& kind == "message"@ && site.error_msg is Some && !told && success ==> v == (
                QueryStatus::Claimed,
                80u8,
            )
            &&& kind == "message"@ && site.error_msg is Some && !told && !success ==> v == (
                QueryStatus::Unknown,
                0u8,
            )
            &&& kind == "response_url"@ && success ==> v == (QueryStatus::Claimed, 70u8)
            &&& kind == "response_url"@ && !success ==> v == (QueryStatus::Available, 70u8)
            &&& kind != "status_code"@ && kind != "message"@ && kind != "response_url"@ ==> v == (
                QueryStatus::Unknown,
                0u8,
            )
        }),
{
    reveal_strlit("status_code");
    reveal_strlit("message");
    reveal_strlit("response_url");
    assert("status_code"@[0] == 's');
    assert("message"@[0] == 'm');
    assert("response_url"@[0] == 'r');
    if site.detection is None {
        match site.error_msg {
            Some(ErrorMsgView::Single(s)) => {
                assert(seq![s][0] == s);
            },
            _ => {},
        }
    }
}

/// What a request looks like, part by part.
pub proof fn requests_are_made_so(site: SiteView, username: Seq<char>, user_agent: Seq<char>)
    ensures
        ({
            let q = request(site, username, user_agent);
            let own = match site.headers {
                Some(h) => h,
                None => Seq::empty(),
            };
            &&& q.site_url == sites::filled(site.url, username)
            &&& site.url_probe is Some ==> q.probe_url == sites::filled(site.url_probe->0, username)
            &&& site.url_probe is None ==> q.probe_url == sites::filled(site.url, username)
            &&& q.follow_redirects <==> site.error_type != "response_url"@
            &&& q.method == Method::Post <==> site.request_method == Some("POST"@)
            &&& q.method == Method::Head <==> site.request_method == Some("HEAD"@)
            &&& q.method == Method::Put <==> site.request_method == Some("PUT"@)
            &&& q.method == Method::Get <==> site.request_method != Some("POST"@)
                && site.request_method != Some("HEAD"@) && site.request_method != Some("PUT"@)
            &&& q.headers.len() == 1 + own.len() + if site.request_payload is Some {
                1int
            } else {
                0int
            }
            &&& q.headers[0] == ("User-Agent"@, user_agent)
            &&& forall|i: int| 0 <= i < own.len() ==> q.headers[i + 1] == #[trigger] own[i]
            &&& site.request_payload is Some ==> q.headers.last() == (
                "Content-Type"@,
                "application/json"@,
            ) && q.body == Some(sites::filled(site.request_payload->0, username))
            &&& site.request_payload is None ==> q.body is None
        }),
{
    reveal_strlit("POST");
    reveal_strlit("HEAD");
    reveal_strlit("PUT");
    assert("POST"@[1] == 'O');
    assert("HEAD"@[0] == 'H');
    assert("PUT"@[1] == 'U');
}

/// The digest of a body covers its first 65536 bytes and no more: two bodies that
/// agree on these have one digest.
pub proof fn digests_cover_the_first_bytes(a: Seq<char>, b: Seq<char>)
    ensures
        ({
            let x = vstd::utf8::encode_utf8(a);
            let y = vstd::utf8::encode_utf8(b);
            &&& x.len() <= 65536 ==> fingerprint(a) == text::hex(outside::sha256_digest(x))
            &&& x.len() > 65536 ==> fingerprint(a) == text::hex(
                outside::sha256_digest(x.take(65536)),
            )
            &&& x.len() >= 65536 && y.len() >= 65536 && x.take(65536) == y.take(65536)
                ==> fingerprint(a) == fingerprint(b)
        }),
{
    let x = vstd::utf8::encode_utf8(a);
    let y = vstd::utf8::encode_utf8(b);
    assert(x.len() == 65536 ==> x.take(65536) =~= x);
    assert(y.len() == 65536 ==> y.take(65536) =~= y);
}

/// What is reported of a response, of an error and of a username that does not
/// fit, part by part.
pub proof fn reports_hold_these_parts(
    name: Seq<char>,
    site: SiteView,
    username: Seq<char>,
    elapsed_ms: u64,
    judged: (QueryStatus, u8),
    fields: Seq<(Seq<char>, ExtractedView)>,
    digest: Seq<char>,
    message: Seq<char>,
)
    ensures
        ({
            let r = response_result(name, site, username, elapsed_ms, judged, fields, digest);
            &&& r.username == username
            &&& r.site_name == name
            &&& r.url_main == site.url_main
            &&& r.site_url == sites::filled(site.url, username)
            &&& r.status == judged.0
            &&& r.confidence == judged.1
            &&& r.response_time_ms == Some(elapsed_ms)
            &&& r.context is None
            &&& judged.0 == QueryStatus::Claimed && fields.len() > 0 ==> r.extracted == Some(fields)
            &&& judged.0 != QueryStatus::Claimed || fields.len() == 0 ==> r.extracted is None
            &&& judged.0 == QueryStatus::Waf ==> r.body_sha256 is None
            &&& judged.0 != QueryStatus::Waf ==> r.body_sha256 == Some(digest)
        }),
        ({
            let r = illegal_result(name, site, username);
            &&& r.username == username
            &&& r.site_name == name
            &&& r.url_main == site.url_main
            &&& r.site_url == sites::filled(site.url, username)
            &&& r.status == QueryStatus::Illegal
            &&& r.confidence == 100
            &&& r.response_time_ms is None
            &&& r.context == Some("Invalid username format for this site"@)
            &&& r.extracted is None
            &&& r.body_sha256 is None
        }),
        ({
            let r = blank_result(name, site, username, judged.0, judged.1);
            &&& r.username == username
            &&& r.site_name == name
            &&& r.url_main == site.url_main
            &&& r.site_url == sites::filled(site.url, username)
            &&& r.status == judged.0
            &&& r.confidence == judged.1
            &&& r.response_time_ms is None
            &&& r.context is None
            &&& r.extracted is None
            &&& r.body_sha256 is None
        }),
        error_context(true, message) == "NET: "@ + message,
        error_context(false, message) == "Error: "@ + message,
        CONFIDENCE_NONE == 0,
{
}

/// A site is asked at most three times. What is reported after the last attempt
/// is the error without its mark and with the number of repetitions; nothing else
/// of the report changes. The pauses are half a second and a second.
pub proof fn there_are_three_attempts(r: ResultView, message: Seq<char>)
    ensures
        MAX_ATTEMPTS == 3,
        backoff_ms(0) == 500,
        backoff_ms(1) == 1000,
        is_network_error(r) <==> r.status == QueryStatus::Unknown && r.context is Some
            && text::starts_with(r.context->0, "NET:"@),
        r.context == Some("NET: "@ + message) ==> given_up(r).context == Some(
            message + " (after 2 retries)"@,
        ),
        r.context is Some && !text::starts_with(r.context->0, "NET: "@) ==> given_up(r) == r,
        given_up(r) == (ResultView { context: given_up(r).context, ..r }),
{
    reveal_with_fuel(backoff_ms, 3);
    reveal_strlit("NET: ");
    reveal_strlit(" (after ");
    reveal_strlit(" retries)");
    reveal_strlit(" (after 2 retries)");
    assert(text::decimal(2) =~= seq!['2']) by {
        reveal_with_fuel(text::decimal, 2);
    }
    let c = "NET: "@ + message;
    assert(c.subrange(0, 5) =~= "NET: "@);
    assert(c.skip(5) =~= message);
    assert(message + " (after "@ + text::decimal(2) + " retries)"@ =~= message
        + " (after 2 retries)"@);
    if r.context is Some && !text::starts_with(r.context->0, "NET: "@) {
        assert(given_up(r) =~= r);
    }
}

/// Which sites are asked: an adult site only where that is wanted, and no site
/// whose format, where it names one that is well formed, the username does not
/// match.
pub proof fn sites_are_asked_so(
    name: Seq<char>,
    site: SiteView,
    username: Seq<char>,
    include_nsfw: bool,
    i: int,
    pattern: Seq<char>,
)
    ensures
        is_skipped(site, include_nsfw) <==> site.is_nsfw == Some(true) && !include_nsfw,
        site.regex_check is None ==> fits(site, username),
        site.regex_check == Some(pattern) && !outside::regex_valid(pattern) ==> fits(site, username),
        site.regex_check == Some(pattern) && outside::regex_valid(pattern) ==> (fits(site, username)
            <==> outside::regex_matches(pattern, username)),
        task_for(name, site, username, i, true) == TaskView::Ask(i),
        task_for(name, site, username, i, false) == TaskView::Report(
            illegal_result(name, site, username),
        ),
        MAX_CONCURRENT == 20,
{
}

/// A request has succeeded where its status is in the two hundreds.
pub proof fn success_is_in_the_two_hundreds(status_code: u16)
    ensures
        is_success(status_code) <==> status_code == 200 || 200 < status_code && status_code < 300,
{
}

/// A page whose text in lower case holds one of the eight texts of firewalls is
/// reported as a firewall's, and no other is.
pub proof fn firewalls_are_told_from_pages(site: SiteView, status_code: u16, body: Seq<char>)
    ensures
        judgement(site, status_code, body).0 == QueryStatus::Waf <==> ({
            let lower = outside::lowercase(body);
            ||| text::contains(lower, "attention required! | cloudflare"@)
            ||| text::contains(lower, "cf-browser-verification"@)
            ||| text::contains(lower, "please wait... | cloudflare"@)
            ||| text::contains(lower, "just a moment..."@)
            ||| text::contains(lower, "checking your browser"@)
            ||| text::contains(lower, "pardon our interruption"@)
            ||| text::contains(lower, "access denied | "@)
            ||| text::contains(lower, "_cf_chl_opt"@)
        }),
        is_firewall_page(body) <==> judgement(site, status_code, body).0 == QueryStatus::Waf,
        !is_firewall_page(body) ==> judgement(site, status_code, body) == verdict(
            site,
            status_code,
            body,
            false,
        ),
{
    firewalls_are_known_by_eight_texts(outside::lowercase(body));
    firewall_comes_first(site, status_code, body);
}

/// A proxy is gone through where its address is given and not empty; a request
/// without a response is reported as unknown, with the time and the error; and
/// what is asked again is just a network error of the first two attempts.
pub proof fn errors_are_reported_or_repeated(
    name: Seq<char>,
    site: SiteView,
    username: Seq<char>,
    elapsed_ms: u64,
    network: bool,
    message: Seq<char>,
    attempt: int,
    r: ResultView,
)
    ensures
        proxy_of(None) is None,
        proxy_of(Some(message)) == if message.len() == 0 {
            None
        } else {
            Some(message)
        },
        ({
            let e = error_result(name, site, username, elapsed_ms, network, message);
            &&& e.username == username
            &&& e.site_name == name
            &&& e.url_main == site.url_main
            &&& e.site_url == sites::filled(site.url, username)
            &&& e.status == QueryStatus::Unknown
            &&& e.confidence == 0
            &&& e.response_time_ms == Some(elapsed_ms)
            &&& network ==> e.context == Some("NET: "@ + message)
            &&& !network ==> e.context == Some("Error: "@ + message)
            &&& e.extracted is None
            &&& e.body_sha256 is None
            &&& network && 0 <= attempt ==> (is_repeated(attempt, e) <==> attempt == 0 || attempt
                == 1)
            &&& !network ==> !is_repeated(attempt, e) && reported(e) == e
        }),
        !is_network_error(r) ==> !is_repeated(attempt, r) && reported(r) == r,
        is_network_error(r) ==> reported(r) == given_up(r),
{
    only_network_errors_are_retried(
        name,
        site,
        username,
        elapsed_ms,
        (QueryStatus::Unknown, 0),
        Seq::empty(),
        Seq::empty(),
        network,
        message,
    );
}

} // verus!
