//! The site database: how a site is described, and how the descriptions of
//! several sources become one list.

use vstd::prelude::*;
use vstd::string::*;

use crate::table;
use crate::table::Table;
use crate::text;
use crate::text::{replace, str_eq, strip_prefix, take_before, to_ascii_lowercase, trim};

verus! {

/// `error_type` of a site that is judged by its `detection` rule.
pub open spec fn dual_pattern() -> Seq<char> {
    "dual_pattern"@
}

/// The fields that an extractor may fill.
pub open spec fn canonical_fields() -> Seq<Seq<char>> {
    seq![
        "avatar_url"@,
        "bio"@,
        "display_name"@,
        "full_name"@,
        "location"@,
        "signup_date"@,
        "post_count"@,
        "follower_count"@,
        "following_count"@,
        "verified"@,
        "is_private"@,
        "last_seen"@,
        "external_links"@,
    ]
}

/// Whether a flag is not raised, so that it need not be written down.
pub fn is_false(b: &bool) -> (r: bool)
    ensures
        r == !*b,
{
    !*b
}

/// Whether `field` is one of the fields that an extractor may fill. Rules for
/// any other field are dropped when a site is loaded, so that the vault never
/// holds one.
pub fn is_canonical_field(field: &str) -> (r: bool)
    ensures
        r == canonical_fields().contains(field@),
{
    let r = str_eq(field, "avatar_url") || str_eq(field, "bio") || str_eq(field, "display_name")
        || str_eq(field, "full_name") || str_eq(field, "location") || str_eq(field, "signup_date")
        || str_eq(field, "post_count") || str_eq(field, "follower_count") || str_eq(
        field,
        "following_count",
    ) || str_eq(field, "verified") || str_eq(field, "is_private") || str_eq(field, "last_seen")
        || str_eq(field, "external_links");
    proof {
        let c = canonical_fields();
        if r {
            assert(c[0] == field@ || c[1] == field@ || c[2] == field@ || c[3] == field@ || c[4]
                == field@ || c[5] == field@ || c[6] == field@ || c[7] == field@ || c[8] == field@
                || c[9] == field@ || c[10] == field@ || c[11] == field@ || c[12] == field@);
        }
    }
    r
}

/// The text or texts by which a site says that a username does not exist.
#[derive(Debug, Clone)]
pub enum ErrorMsg {
    Single(String),
    Multiple(Vec<String>),
}

/// The view of an `ErrorMsg`.
pub enum ErrorMsgView {
    Single(Seq<char>),
    Multiple(Seq<Seq<char>>),
}

impl ErrorMsgView {
    /// The texts, as a list in either case.
    pub open spec fn list(self) -> Seq<Seq<char>> {
        match self {
            ErrorMsgView::Single(s) => seq![s],
            ErrorMsgView::Multiple(v) => v,
        }
    }
}

impl View for ErrorMsg {
    type V = ErrorMsgView;

    open spec fn view(&self) -> ErrorMsgView {
        match self {
            ErrorMsg::Single(s) => ErrorMsgView::Single(s@),
            ErrorMsg::Multiple(v) => ErrorMsgView::Multiple(text::texts(v@)),
        }
    }
}

impl ErrorMsg {
    /// The texts, as a list in either case.
    pub fn as_vec(&self) -> (r: Vec<&str>)
        ensures
            r@.map_values(|s: &str| s@) == self@.list(),
    {
        let mut r: Vec<&str> = Vec::new();
        match self {
            ErrorMsg::Single(s) => {
                r.push(s.as_str());
            },
            ErrorMsg::Multiple(v) => {
                let mut i: usize = 0;
                while i < v.len()
                    invariant
                        i <= v@.len(),
                        r@.len() == i,
                        forall|j: int| 0 <= j < i ==> (#[trigger] r@[j])@ == v@[j]@,
                    decreases v@.len() - i,
                {
                    r.push(v[i].as_str());
                    i = i + 1;
                }
            },
        }
        assert(r@.map_values(|s: &str| s@) =~= self@.list());
        r
    }
}

/// The HTTP status or statuses by which a site says that a username does not
/// exist.
#[derive(Debug, Clone)]
pub enum ErrorCode {
    Single(u16),
    Multiple(Vec<u16>),
}

/// The view of an `ErrorCode`.
pub enum ErrorCodeView {
    Single(u16),
    Multiple(Seq<u16>),
}

impl ErrorCodeView {
    /// Whether `code` is among the statuses.
    pub open spec fn has(self, code: u16) -> bool {
        match self {
            ErrorCodeView::Single(c) => c == code,
            ErrorCodeView::Multiple(v) => v.contains(code),
        }
    }
}

impl View for ErrorCode {
    type V = ErrorCodeView;

    open spec fn view(&self) -> ErrorCodeView {
        match self {
            ErrorCode::Single(c) => ErrorCodeView::Single(*c),
            ErrorCode::Multiple(v) => ErrorCodeView::Multiple(v@),
        }
    }
}

impl ErrorCode {
    /// Whether `code` is among the statuses.
    pub fn matches(&self, code: u16) -> (r: bool)
        ensures
            r == self@.has(code),
    {
        match self {
            ErrorCode::Single(c) => *c == code,
            ErrorCode::Multiple(v) => {
                let mut i: usize = 0;
                while i < v.len()
                    invariant
                        i <= v@.len(),
                        self@ == ErrorCodeView::Multiple(v@),
                        forall|j: int| 0 <= j < i ==> v@[j] != code,
                    decreases v@.len() - i,
                {
                    if v[i] == code {
                        return true;
                    }
                    i = i + 1;
                }
                false
            },
        }
    }
}

/// A rule that reads a response both ways: an exists-pattern and a
/// missing-pattern, each of a status and a text in the body. What is left out
/// constrains nothing.
#[derive(Debug, Clone)]
pub struct Detection {
    /// HTTP status of a profile that exists.
    pub e_code: Option<u16>,
    /// Text in the body of a profile that exists.
    pub e_string: Option<String>,
    /// HTTP status of a profile that is missing.
    pub m_code: Option<u16>,
    /// Text in the body of a profile that is missing.
    pub m_string: Option<String>,
}

/// The view of a `Detection`.
pub struct DetectionView {
    pub e_code: Option<u16>,
    pub e_string: Option<Seq<char>>,
    pub m_code: Option<u16>,
    pub m_string: Option<Seq<char>>,
}

impl View for Detection {
    type V = DetectionView;

    open spec fn view(&self) -> DetectionView {
        DetectionView {
            e_code: self.e_code,
            e_string: text::opt_text(self.e_string),
            m_code: self.m_code,
            m_string: text::opt_text(self.m_string),
        }
    }
}

/// How one named field is read off a profile page.
#[derive(Debug, Clone)]
pub struct Extractor {
    /// Canonical name of the field.
    pub field: String,
    /// CSS selector of the elements to read; the root of the page where it is
    /// left out.
    pub selector: Option<String>,
    /// Attribute to read; the element's text where it is left out.
    pub attribute: Option<String>,
    /// Regular expression whose first group is the value.
    pub regex: Option<String>,
    /// Whether every match is kept, or only the first.
    pub multi: bool,
}

/// The view of an `Extractor`.
pub struct ExtractorView {
    pub field: Seq<char>,
    pub selector: Option<Seq<char>>,
    pub attribute: Option<Seq<char>>,
    pub regex: Option<Seq<char>>,
    pub multi: bool,
}

impl View for Extractor {
    type V = ExtractorView;

    open spec fn view(&self) -> ExtractorView {
        ExtractorView {
            field: self.field@,
            selector: text::opt_text(self.selector),
            attribute: text::opt_text(self.attribute),
            regex: text::opt_text(self.regex),
            multi: self.multi,
        }
    }
}

/// An extractor whose selector and regular expression are known to be well
/// formed, kept by their source text.
#[derive(Debug, Clone)]
pub struct CompiledExtractor {
    pub field: String,
    /// A CSS selector that parses.
    pub selector: String,
    pub attribute: Option<String>,
    /// A regular expression that compiles.
    pub regex: Option<String>,
    pub multi: bool,
}

/// The view of a `CompiledExtractor`.
pub struct CompiledView {
    pub field: Seq<char>,
    pub selector: Seq<char>,
    pub attribute: Option<Seq<char>>,
    pub regex: Option<Seq<char>>,
    pub multi: bool,
}

impl View for CompiledExtractor {
    type V = CompiledView;

    open spec fn view(&self) -> CompiledView {
        CompiledView {
            field: self.field@,
            selector: self.selector@,
            attribute: text::opt_text(self.attribute),
            regex: text::opt_text(self.regex),
            multi: self.multi,
        }
    }
}

/// Which source a description came from.
#[derive(Debug, Clone, Copy, PartialEq, Eq, Structural)]
pub enum SiteSource {
    Sherlock,
    Whatsmyname,
    Maigret,
    Custom,
    /// Two or more sources contributed.
    Merged,
}

impl Default for SiteSource {
    /// A list that names no source is in the Sherlock format.
    fn default() -> (r: Self)
        ensures
            r == SiteSource::Sherlock,
    {
        SiteSource::Sherlock
    }
}

/// How a site is asked about a username and how its answer is read.
#[derive(Debug, Clone)]
pub struct SiteData {
    pub error_msg: Option<ErrorMsg>,
    pub error_type: String,
    pub error_code: Option<ErrorCode>,
    pub error_url: Option<String>,
    pub url: String,
    pub url_main: String,
    pub url_probe: Option<String>,
    pub username_claimed: Option<String>,
    pub username_unclaimed: Option<String>,
    pub regex_check: Option<String>,
    pub is_nsfw: Option<bool>,
    pub headers: Option<Table<String>>,
    pub request_method: Option<String>,
    /// The JSON text that is sent as the request's body.
    pub request_payload: Option<String>,
    /// `regex_check`, where it is a well-formed regular expression.
    pub compiled_regex: Option<String>,
    /// Where present, judges the response in place of the `error_*` fields.
    pub detection: Option<Detection>,
    pub extractors: Vec<Extractor>,
    pub categories: Vec<String>,
    pub source: SiteSource,
    /// The extractors that are well formed.
    pub compiled_extractors: Vec<CompiledExtractor>,
}

/// The view of a `SiteData`.
#[verifier::ext_equal]
pub struct SiteView {
    pub error_msg: Option<ErrorMsgView>,
    pub error_type: Seq<char>,
    pub error_code: Option<ErrorCodeView>,
    pub error_url: Option<Seq<char>>,
    pub url: Seq<char>,
    pub url_main: Seq<char>,
    pub url_probe: Option<Seq<char>>,
    pub username_claimed: Option<Seq<char>>,
    pub username_unclaimed: Option<Seq<char>>,
    pub regex_check: Option<Seq<char>>,
    pub is_nsfw: Option<bool>,
    pub headers: Option<Seq<(Seq<char>, Seq<char>)>>,
    pub request_method: Option<Seq<char>>,
    pub request_payload: Option<Seq<char>>,
    pub compiled_regex: Option<Seq<char>>,
    pub detection: Option<DetectionView>,
    pub extractors: Seq<ExtractorView>,
    pub categories: Seq<Seq<char>>,
    pub source: SiteSource,
    pub compiled_extractors: Seq<CompiledView>,
}

/// The view of an optional value.
pub open spec fn opt_view<T: View>(o: Option<T>) -> Option<T::V> {
    match o {
        Some(x) => Some(x@),
        None => None,
    }
}

/// The views of a list of values.
pub open spec fn views<T: View>(s: Seq<T>) -> Seq<T::V> {
    s.map_values(|x: T| x@)
}

/// The names and values of optional request headers.
pub open spec fn header_view(o: Option<Table<String>>) -> Option<Seq<(Seq<char>, Seq<char>)>> {
    match o {
        Some(t) => Some(table::viewed(t@)),
        None => None,
    }
}

impl View for SiteData {
    type V = SiteView;

    open spec fn view(&self) -> SiteView {
        SiteView {
            error_msg: opt_view(self.error_msg),
            error_type: self.error_type@,
            error_code: opt_view(self.error_code),
            error_url: text::opt_text(self.error_url),
            url: self.url@,
            url_main: self.url_main@,
            url_probe: text::opt_text(self.url_probe),
            username_claimed: text::opt_text(self.username_claimed),
            username_unclaimed: text::opt_text(self.username_unclaimed),
            regex_check: text::opt_text(self.regex_check),
            is_nsfw: self.is_nsfw,
            headers: header_view(self.headers),
            request_method: text::opt_text(self.request_method),
            request_payload: text::opt_text(self.request_payload),
            compiled_regex: text::opt_text(self.compiled_regex),
            detection: opt_view(self.detection),
            extractors: views(self.extractors@),
            categories: text::texts(self.categories@),
            source: self.source,
            compiled_extractors: views(self.compiled_extractors@),
        }
    }
}

/// `template` with the username in each place marked `{}`.
pub open spec fn filled(template: Seq<char>, username: Seq<char>) -> Seq<char> {
    text::replace_all(template, "{}"@, username)
}

/// `template` with the username in each place marked `{}`.
pub fn fill(template: &str, username: &str) -> (r: String)
    ensures
        r@ == filled(template@, username@),
{
    proof {
        reveal_strlit("{}");
    }
    replace(template, "{}", username)
}

impl SiteData {
    /// The profile URL of `username` on this site.
    pub fn format_url(&self, username: &str) -> (r: String)
        ensures
            r@ == filled(self@.url, username@),
    {
        fill(self.url.as_str(), username)
    }
}

/// The host that a URL names, in lower case, without scheme, `www.` and path:
/// what two descriptions of one site have in common.
pub open spec fn normalized(url: Seq<char>) -> Option<Seq<char>> {
    let s = text::ascii_lower(text::trimmed(url));
    let after_scheme = if text::starts_with(s, "https://"@) {
        s.skip("https://"@.len() as int)
    } else {
        text::without_prefix(s, "http://"@)
    };
    let host = text::without_prefix(text::before(after_scheme, '/'), "www."@);
    if host.len() == 0 {
        None
    } else {
        Some(host)
    }
}

/// The host that a URL names, in lower case, without scheme, `www.` and path.
pub fn normalize_domain(url_main: &str) -> (r: Option<String>)
    ensures
        text::opt_text(r) == normalized(url_main@),
{
    let t = trim(url_main);
    let s = to_ascii_lowercase(t.as_str());
    let after_scheme = match strip_prefix(s.as_str(), "https://") {
        Some(rest) => rest,
        None => match strip_prefix(s.as_str(), "http://") {
            Some(rest) => rest,
            None => s,
        },
    };
    let host = take_before(after_scheme.as_str(), '/');
    let bare = match strip_prefix(host.as_str(), "www.") {
        Some(rest) => rest,
        None => host,
    };
    if bare.as_str().is_empty() {
        None
    } else {
        Some(bare)
    }
}

/// The first of two optional values that is there.
pub open spec fn first_some<T>(a: Option<T>, b: Option<T>) -> Option<T> {
    if a is Some {
        a
    } else {
        b
    }
}

/// The first of two optional values that is there.
fn or<T>(a: Option<T>, b: Option<T>) -> (r: Option<T>)
    ensures
        r == first_some(a, b),
{
    match a {
        Some(x) => Some(x),
        None => b,
    }
}

/// Two flags as one: raised where either is, absent where both are.
pub open spec fn sticky(a: Option<bool>, b: Option<bool>) -> Option<bool> {
    if a == Some(true) || b == Some(true) {
        Some(true)
    } else if a == Some(false) || b == Some(false) {
        Some(false)
    } else {
        None
    }
}

/// Extractors by the field that they fill; a later one takes the place of an
/// earlier one for the same field.
pub open spec fn by_field(exs: Seq<ExtractorView>) -> Seq<(Seq<char>, ExtractorView)>
    decreases exs.len(),
{
    if exs.len() == 0 {
        Seq::empty()
    } else {
        table::put(by_field(exs.drop_last()), exs.last().field, exs.last())
    }
}

/// One extractor per field of `a` or `b`; that of `b` where both fill a field.
pub open spec fn union_by_field(a: Seq<ExtractorView>, b: Seq<ExtractorView>) -> Seq<
    ExtractorView,
> {
    by_field(a + b).map_values(|e: (Seq<char>, ExtractorView)| e.1)
}

/// `a`, then what `b` adds to it, in order and once each.
pub open spec fn union_stable(a: Seq<Seq<char>>, b: Seq<Seq<char>>) -> Seq<Seq<char>>
    decreases b.len(),
{
    if b.len() == 0 {
        a
    } else {
        let u = union_stable(a, b.drop_last());
        if u.contains(b.last()) {
            u
        } else {
            u.push(b.last())
        }
    }
}

/// Two descriptions of one site as one, where `b` is the later source.
///
/// A `detection` rule is kept from either side, `b` first, and then judges the
/// site; the `error_*` fields stay as a fallback. Extractors and categories are
/// united, the NSFW flag stays raised once it is, and what the request looks
/// like comes from the side with the detection rule.
pub open spec fn merged(a: SiteView, b: SiteView) -> SiteView {
    let detection = first_some(b.detection, a.detection);
    let by_b = b.detection is Some;
    SiteView {
        error_msg: first_some(a.error_msg, b.error_msg),
        error_type: if detection is Some {
            dual_pattern()
        } else if a.error_type.len() > 0 {
            a.error_type
        } else {
            b.error_type
        },
        error_code: first_some(a.error_code, b.error_code),
        error_url: first_some(a.error_url, b.error_url),
        url: if by_b {
            b.url
        } else {
            a.url
        },
        url_main: if by_b {
            b.url_main
        } else {
            a.url_main
        },
        url_probe: first_some(a.url_probe, b.url_probe),
        username_claimed: first_some(a.username_claimed, b.username_claimed),
        username_unclaimed: first_some(a.username_unclaimed, b.username_unclaimed),
        regex_check: first_some(a.regex_check, b.regex_check),
        is_nsfw: sticky(a.is_nsfw, b.is_nsfw),
        headers: if by_b {
            first_some(b.headers, a.headers)
        } else {
            first_some(a.headers, b.headers)
        },
        request_method: if by_b {
            first_some(b.request_method, a.request_method)
        } else {
            first_some(a.request_method, b.request_method)
        },
        request_payload: if by_b {
            first_some(b.request_payload, a.request_payload)
        } else {
            first_some(a.request_payload, b.request_payload)
        },
        compiled_regex: None,
        detection,
        extractors: union_by_field(a.extractors, b.extractors),
        categories: union_stable(a.categories, b.categories),
        source: SiteSource::Merged,
        compiled_extractors: Seq::empty(),
    }
}

/// Adds `exs`, in order, to the extractors in `t`.
fn add_extractors(t: &mut Table<Extractor>, exs: Vec<Extractor>, Ghost(done): Ghost<Seq<ExtractorView>>)
    requires
        table::viewed(old(t)@) == by_field(done),
    ensures
        table::viewed(final(t)@) == by_field(done + views(exs@)),
{
    let ghost all = exs@;
    assert(done + views(all).take(0) =~= done);
    for ex in it: exs
        invariant
            it.seq() == all,
            table::viewed(t@) == by_field(done + views(all).take(it.index() as int)),
    {
        let ghost n = it.index() as int;
        let ghost so_far = done + views(all).take(n + 1);
        let ghost old_t = t@;
        let k = ex.field.clone();
        assert(so_far.drop_last() =~= done + views(all).take(n));
        assert(so_far.last() == ex@);
        t.insert(k, ex);
        proof {
            table::viewed_put(old_t, ex@.field, ex);
        }
    }
    assert(views(all).take(all.len() as int) =~= views(all));
}

/// One extractor per field of `a` or `b`; that of `b` where both fill a field.
pub fn unite_extractors(a: Vec<Extractor>, b: Vec<Extractor>) -> (r: Vec<Extractor>)
    ensures
        views(r@) == union_by_field(views(a@), views(b@)),
{
    let mut t: Table<Extractor> = Table::new();
    assert(table::viewed(t@) =~= by_field(Seq::empty()));
    add_extractors(&mut t, a, Ghost(Seq::empty()));
    assert(Seq::<ExtractorView>::empty() + views(a@) =~= views(a@));
    add_extractors(&mut t, b, Ghost(views(a@)));
    let ghost u = t@;
    let entries = t.into_entries();
    let ghost all = entries@;
    let mut r: Vec<Extractor> = Vec::new();
    for e in it: entries
        invariant
            it.seq() == all,
            all.len() == u.len(),
            forall|i: int| 0 <= i < all.len() ==> (#[trigger] all[i]).1 == u[i].1,
            r@.len() == it.index(),
            forall|i: int| 0 <= i < r@.len() ==> #[trigger] r@[i] == u[i].1,
    {
        r.push(e.1);
    }
    assert(views(r@) =~= union_by_field(views(a@), views(b@)));
    r
}

/// Whether `s` is in the list.
pub fn list_contains(v: &Vec<String>, s: &str) -> (r: bool)
    ensures
        r == text::texts(v@).contains(s@),
{
    let mut i: usize = 0;
    while i < v.len()
        invariant
            i <= v@.len(),
            forall|j: int| 0 <= j < i ==> (#[trigger] v@[j])@ != s@,
        decreases v@.len() - i,
    {
        if str_eq(v[i].as_str(), s) {
            assert(text::texts(v@)[i as int] == s@);
            return true;
        }
        i = i + 1;
    }
    assert forall|j: int| 0 <= j < text::texts(v@).len() implies text::texts(v@)[j] != s@ by {
        assert(v@[j]@ != s@);
    }
    false
}

/// `a`, then what `b` adds to it, in order and once each.
pub fn unite_categories(a: Vec<String>, b: Vec<String>) -> (r: Vec<String>)
    ensures
        text::texts(r@) == union_stable(text::texts(a@), text::texts(b@)),
{
    let ghost first = text::texts(a@);
    let ghost second = text::texts(b@);
    let ghost all = b@;
    let mut r = a;
    assert(second.take(0) =~= Seq::empty());
    for c in it: b
        invariant
            it.seq() == all,
            second == text::texts(all),
            text::texts(r@) == union_stable(first, second.take(it.index() as int)),
    {
        let ghost n = it.index() as int;
        assert(second.take(n + 1).drop_last() =~= second.take(n));
        assert(second.take(n + 1).last() == c@);
        if !list_contains(&r, c.as_str()) {
            let ghost old_r = r@;
            r.push(c);
            assert(text::texts(r@) =~= text::texts(old_r).push(c@));
        }
    }
    assert(second.take(second.len() as int) =~= second);
    r
}

/// Two descriptions of one site as one, where `b` is the later source.
pub fn merge_site(a: SiteData, b: SiteData) -> (r: SiteData)
    ensures
        r@ == merged(a@, b@),
{
    let prefer_b = b.detection.is_some();
    let detection = or(b.detection, a.detection);
    let error_type = if detection.is_some() {
        "dual_pattern".to_string()
    } else if !a.error_type.as_str().is_empty() {
        a.error_type
    } else {
        b.error_type
    };
    let extractors = unite_extractors(a.extractors, b.extractors);
    let categories = unite_categories(a.categories, b.categories);
    let is_nsfw = match (a.is_nsfw, b.is_nsfw) {
        (Some(true), _) => Some(true),
        (_, Some(true)) => Some(true),
        (Some(false), _) => Some(false),
        (_, Some(false)) => Some(false),
        (None, None) => None,
    };
    let headers = if prefer_b {
        or(b.headers, a.headers)
    } else {
        or(a.headers, b.headers)
    };
    let request_method = if prefer_b {
        or(b.request_method, a.request_method)
    } else {
        or(a.request_method, b.request_method)
    };
    let request_payload = if prefer_b {
        or(b.request_payload, a.request_payload)
    } else {
        or(a.request_payload, b.request_payload)
    };
    let url = if prefer_b {
        b.url
    } else {
        a.url
    };
    let url_main = if prefer_b {
        b.url_main
    } else {
        a.url_main
    };
    let r = SiteData {
        error_msg: or(a.error_msg, b.error_msg),
        error_type,
        error_code: or(a.error_code, b.error_code),
        error_url: or(a.error_url, b.error_url),
        url,
        url_main,
        url_probe: or(a.url_probe, b.url_probe),
        username_claimed: or(a.username_claimed, b.username_claimed),
        username_unclaimed: or(a.username_unclaimed, b.username_unclaimed),
        regex_check: or(a.regex_check, b.regex_check),
        is_nsfw,
        headers,
        request_method,
        request_payload,
        compiled_regex: None,
        detection,
        extractors,
        categories,
        source: SiteSource::Merged,
        compiled_extractors: Vec::new(),
    };
    assert(r@ =~= merged(a@, b@));
    r
}

/// Which key describes a domain: the last one, where several do.
pub open spec fn domain_index(t: Seq<(Seq<char>, SiteView)>) -> Seq<(Seq<char>, Seq<char>)>
    decreases t.len(),
{
    if t.len() == 0 {
        Seq::empty()
    } else {
        let index = domain_index(t.drop_last());
        match normalized(t.last().1.url_main) {
            Some(d) => table::put(index, d, t.last().0),
            None => index,
        }
    }
}

/// A list of sites, and which of its keys describes which domain.
pub struct MergeState {
    pub sites: Seq<(Seq<char>, SiteView)>,
    pub index: Seq<(Seq<char>, Seq<char>)>,
}

/// One more description: merged into that of its domain where there is one,
/// else a site of its own.
pub open spec fn merge_step(st: MergeState, key: Seq<char>, site: SiteView) -> MergeState {
    let known = match normalized(site.url_main) {
        Some(d) => table::lookup(st.index, d),
        None => None,
    };
    match known {
        Some(k) => match table::lookup(st.sites, k) {
            Some(prev) => MergeState {
                sites: table::put(st.sites, k, merged(prev, site)),
                index: st.index,
            },
            None => st,
        },
        None => MergeState {
            sites: table::put(st.sites, key, site),
            index: match normalized(site.url_main) {
                Some(d) => table::put(st.index, d, key),
                None => st.index,
            },
        },
    }
}

/// The descriptions of `incoming`, one after the other.
pub open spec fn merge_all(st: MergeState, incoming: Seq<(Seq<char>, SiteView)>) -> MergeState
    decreases incoming.len(),
{
    if incoming.len() == 0 {
        st
    } else {
        let before = merge_all(st, incoming.drop_last());
        merge_step(before, incoming.last().0, incoming.last().1)
    }
}

/// `existing` with the descriptions of `incoming` merged in by domain.
pub open spec fn merged_into(
    existing: Seq<(Seq<char>, SiteView)>,
    incoming: Seq<(Seq<char>, SiteView)>,
) -> Seq<(Seq<char>, SiteView)> {
    merge_all(MergeState { sites: existing, index: domain_index(existing) }, incoming).sites
}

/// Which key describes a domain.
fn build_index(existing: &Table<SiteData>) -> (r: Table<String>)
    ensures
        table::viewed(r@) == domain_index(table::viewed(existing@)),
{
    let mut r: Table<String> = Table::new();
    let ghost all = table::viewed(existing@);
    let n: usize = existing.len();
    let mut i: usize = 0;
    assert(table::viewed(r@) =~= domain_index(all.take(0)));
    while i < n
        invariant
            n == existing@.len(),
            i <= n,
            all == table::viewed(existing@),
            table::viewed(r@) == domain_index(all.take(i as int)),
        decreases n - i,
    {
        assert(all.take(i + 1).drop_last() =~= all.take(i as int));
        match normalize_domain(existing.value(i).url_main.as_str()) {
            Some(d) => {
                let ghost old_r = r@;
                let ghost name = d@;
                let k = existing.key(i).clone();
                r.insert(d, k);
                proof {
                    table::viewed_put(old_r, name, k);
                }
            },
            None => {},
        }
        i = i + 1;
    }
    assert(all.take(n as int) =~= all);
    r
}

/// Merges `incoming` into `existing`: a description of a known domain is
/// combined with the one that is there, any other becomes a site of its own.
pub fn merge_into(existing: &mut Table<SiteData>, incoming: Table<SiteData>)
    ensures
        table::viewed(final(existing)@) == merged_into(
            table::viewed(old(existing)@),
            table::viewed(incoming@),
        ),
{
    let mut by_domain = build_index(existing);
    let ghost given = table::viewed(incoming@);
    let ghost start = MergeState {
        sites: table::viewed(existing@),
        index: domain_index(table::viewed(existing@)),
    };
    let entries = incoming.into_entries();
    let ghost all = entries@;
    assert(given.take(0) =~= Seq::empty());
    for e in it: entries
        invariant
            it.seq() == all,
            all.len() == given.len(),
            forall|i: int|
                0 <= i < all.len() ==> (#[trigger] all[i]).0@ == given[i].0 && all[i].1@ == given[i].1,
            table::viewed(existing@) == merge_all(start, given.take(it.index() as int)).sites,
            table::viewed(by_domain@) == merge_all(start, given.take(it.index() as int)).index,
    {
        let ghost n = it.index() as int;
        let ghost st = merge_all(start, given.take(n));
        assert(given.take(n + 1).drop_last() =~= given.take(n));
        assert(given.take(n + 1).last() == given[n]);
        let (key, site) = e;
        let ghost name = key@;
        let ghost sites_before = existing@;
        let ghost index_before = by_domain@;
        let domain = normalize_domain(site.url_main.as_str());
        let known = match &domain {
            Some(d) => {
                let found = match by_domain.get(d.as_str()) {
                    Some(k) => Some(k.clone()),
                    None => None,
                };
                proof {
                    table::viewed_get(by_domain@, d@);
                }
                found
            },
            None => None,
        };
        match known {
            Some(k) => {
                let ghost target = k@;
                let found = existing.find(k.as_str());
                proof {
                    table::viewed_get(sites_before, target);
                }
                match found {
                    Some(i) => {
                        let (old_key, prev) = existing.take_at(i);
                        let ghost was = prev;
                        let combined = merge_site(prev, site);
                        existing.put_at(i, old_key, combined);
                        proof {
                            assert(existing@ =~= table::put(sites_before, target, combined));
                            table::viewed_put(sites_before, target, combined);
                        }
                    },
                    None => {},
                }
            },
            None => {
                match domain {
                    Some(d) => {
                        let ghost dname = d@;
                        let k = key.clone();
                        by_domain.insert(d, k);
                        proof {
                            table::viewed_put(index_before, dname, k);
                        }
                    },
                    None => {},
                }
                existing.insert(key, site);
                proof {
                    table::viewed_put(sites_before, name, site);
                }
            },
        }
    }
    assert(given.take(given.len() as int) =~= given);
}

/// What holds of two descriptions of one site that are merged: the NSFW flag,
/// once raised, stays raised; a detection rule of either side is kept, that of
/// the later one first, and then judges the site; and nothing that only one
/// side has is lost.
pub proof fn merged_keeps_what_either_has(a: SiteView, b: SiteView)
    ensures
        merged(a, b).is_nsfw == Some(true) <==> a.is_nsfw == Some(true) || b.is_nsfw == Some(true),
        merged(a, b).detection is Some <==> a.detection is Some || b.detection is Some,
        b.detection is Some ==> merged(a, b).detection == b.detection && merged(a, b).url == b.url,
        b.detection is None ==> merged(a, b).detection == a.detection && merged(a, b).url == a.url,
        merged(a, b).detection is Some ==> merged(a, b).error_type == dual_pattern(),
        merged(a, b).error_msg is Some <==> a.error_msg is Some || b.error_msg is Some,
        merged(a, b).error_code is Some <==> a.error_code is Some || b.error_code is Some,
        merged(a, b).regex_check is Some <==> a.regex_check is Some || b.regex_check is Some,
        merged(a, b).headers is Some <==> a.headers is Some || b.headers is Some,
        merged(a, b).request_method is Some <==> a.request_method is Some || b.request_method is Some,
        merged(a, b).source == SiteSource::Merged,
{
}

/// The rule at `i` is the last for its field.
pub open spec fn is_last_for_field(exs: Seq<ExtractorView>, i: int) -> bool {
    0 <= i < exs.len() && forall|j: int| i < j < exs.len() ==> (#[trigger] exs[j]).field != exs[i].field
}

proof fn by_field_holds_the_last(exs: Seq<ExtractorView>)
    ensures
        table::distinct_keys(by_field(exs)),
        forall|k: Seq<char>| #[trigger]
            table::has_key(by_field(exs), k) <==> exists|i: int|
                0 <= i < exs.len() && (#[trigger] exs[i]).field == k,
        forall|n: int|
            0 <= n < by_field(exs).len() ==> {
                let e = #[trigger] by_field(exs)[n];
                e.0 == e.1.field && exists|i: int|
                    #[trigger] is_last_for_field(exs, i) && exs[i] == e.1
            },
    decreases exs.len(),
{
    if exs.len() > 0 {
        let rest = exs.drop_last();
        let last = exs.last();
        let before = by_field(rest);
        let now = by_field(exs);
        by_field_holds_the_last(rest);
        table::put_changes_one_key(before, last.field, last);
        assert forall|k: Seq<char>| #[trigger] table::has_key(now, k) <==> exists|i: int|
            0 <= i < exs.len() && (#[trigger] exs[i]).field == k by {
            if k == last.field {
                assert(exs[exs.len() - 1].field == k);
            }
            if table::has_key(before, k) {
                let i = choose|i: int| 0 <= i < rest.len() && (#[trigger] rest[i]).field == k;
                assert(exs[i].field == k);
            }
            if exists|i: int| 0 <= i < exs.len() && (#[trigger] exs[i]).field == k {
                let i = choose|i: int| 0 <= i < exs.len() && (#[trigger] exs[i]).field == k;
                if i < rest.len() {
                    assert(rest[i].field == k);
                }
            }
        }
        assert forall|n: int| 0 <= n < now.len() implies {
            let e = #[trigger] now[n];
            e.0 == e.1.field && exists|i: int|
                #[trigger] is_last_for_field(exs, i) && exs[i] == e.1
        } by {
            if table::has_key(before, last.field) {
                assert(table::key_at(
                    before,
                    last.field,
                    table::position(before, last.field),
                ));
            }
            let e = now[n];
            if e.0 == last.field {
                let at = if table::has_key(before, last.field) {
                    table::position(before, last.field)
                } else {
                    before.len() as int
                };
                assert(now[at].0 == last.field);
                assert(n == at);
                assert(is_last_for_field(exs, exs.len() - 1));
            } else {
                assert(e == before[n]);
                let i = choose|i: int| #[trigger] is_last_for_field(rest, i) && rest[i] == e.1;
                assert(is_last_for_field(exs, i)) by {
                    assert forall|j: int| i < j < exs.len() implies (#[trigger] exs[j]).field
                        != exs[i].field by {
                        if j < rest.len() {
                            assert(rest[j].field != rest[i].field);
                        }
                    }
                }
            }
        }
    }
}

/// The extractors of two descriptions as one list: one for each field that
/// either has, and that of the later description where both have one.
pub proof fn extractors_are_united_by_field(a: Seq<ExtractorView>, b: Seq<ExtractorView>)
    ensures
        forall|i: int, j: int|
            0 <= i < j < union_by_field(a, b).len() ==> (#[trigger] union_by_field(a, b)[i]).field
                != (#[trigger] union_by_field(a, b)[j]).field,
        forall|i: int|
            0 <= i < union_by_field(a, b).len() ==> {
                let e = #[trigger] union_by_field(a, b)[i];
                b.contains(e) || (a.contains(e) && forall|k: int|
                    0 <= k < b.len() ==> (#[trigger] b[k]).field != e.field)
            },
        forall|k: int|
            0 <= k < (a + b).len() ==> exists|i: int|
                0 <= i < union_by_field(a, b).len() && (#[trigger] union_by_field(a, b)[i]).field
                    == (#[trigger] (a + b)[k]).field,
{
    let all = a + b;
    let t = by_field(all);
    let u = union_by_field(a, b);
    by_field_holds_the_last(all);
    assert forall|i: int, j: int| 0 <= i < j < u.len() implies (#[trigger] u[i]).field != (
    #[trigger] u[j]).field by {
        assert(t[i].0 != t[j].0);
    }
    assert forall|i: int| 0 <= i < u.len() implies {
        let e = #[trigger] u[i];
        b.contains(e) || (a.contains(e) && forall|k: int|
            0 <= k < b.len() ==> (#[trigger] b[k]).field != e.field)
    } by {
        let e = t[i].1;
        let n = choose|n: int| #[trigger] is_last_for_field(all, n) && all[n] == e;
        if n >= a.len() {
            assert(b[n - a.len()] == e);
        } else {
            assert(a[n] == e);
            assert forall|k: int| 0 <= k < b.len() implies (#[trigger] b[k]).field != e.field by {
                assert(all[a.len() + k] == b[k]);
            }
        }
    }
    assert forall|k: int| 0 <= k < all.len() implies exists|i: int|
        0 <= i < u.len() && (#[trigger] u[i]).field == (#[trigger] all[k]).field by {
        let f = all[k].field;
        assert(table::has_key(t, f));
        let i = table::position(t, f);
        assert(table::key_at(t, f, i));
        assert(u[i].field == f);
    }
}

/// The categories of two descriptions as one list hold what either holds, and
/// none twice where neither does.
pub proof fn categories_are_united(a: Seq<Seq<char>>, b: Seq<Seq<char>>)
    ensures
        forall|c: Seq<char>| #[trigger]
            union_stable(a, b).contains(c) <==> a.contains(c) || b.contains(c),
        a.no_duplicates() ==> union_stable(a, b).no_duplicates(),
        a.len() <= union_stable(a, b).len() && union_stable(a, b).take(a.len() as int) == a,
    decreases b.len(),
{
    if b.len() > 0 {
        let rest = b.drop_last();
        let before = union_stable(a, rest);
        let now = union_stable(a, b);
        categories_are_united(a, rest);
        assert forall|c: Seq<char>| #[trigger] now.contains(c) <==> a.contains(c) || b.contains(
            c,
        ) by {
            assert(b.contains(c) <==> rest.contains(c) || c == b.last()) by {
                if rest.contains(c) {
                    let i = choose|i: int| 0 <= i < rest.len() && rest[i] == c;
                    assert(b[i] == c);
                }
                if c == b.last() {
                    assert(b[b.len() - 1] == c);
                }
                if b.contains(c) && c != b.last() {
                    let i = choose|i: int| 0 <= i < b.len() && b[i] == c;
                    assert(rest[i] == c);
                }
            }
            if !before.contains(b.last()) {
                assert(now.contains(c) <==> before.contains(c) || c == b.last()) by {
                    if before.contains(c) {
                        let i = choose|i: int| 0 <= i < before.len() && before[i] == c;
                        assert(now[i] == c);
                    }
                    if c == b.last() {
                        assert(now[before.len() as int] == c);
                    }
                }
            }
        }
        assert(now.take(a.len() as int) =~= before.take(a.len() as int));
    } else {
        assert(a.take(a.len() as int) =~= a);
    }
}

/// The domains of a list of sites are told apart by an index: it leads from each
/// domain to the one key that describes it.
pub open spec fn is_indexed(st: MergeState) -> bool {
    &&& table::distinct_keys(st.sites)
    &&& table::distinct_keys(st.index)
    &&& forall|k: Seq<char>, d: Seq<char>|
        (table::lookup(st.sites, k) matches Some(s) && normalized(s.url_main) == Some(d))
            <==> #[trigger] leads_to(st.index, d, k)
}

/// An index leads from a domain to a key.
pub open spec fn leads_to(
    index: Seq<(Seq<char>, Seq<char>)>,
    d: Seq<char>,
    k: Seq<char>,
) -> bool {
    table::lookup(index, d) == Some(k)
}

/// No domain is described twice in a list.
pub open spec fn domains_differ(t: Seq<(Seq<char>, SiteView)>) -> bool {
    forall|i: int, j: int|
        0 <= i < j < t.len() && normalized((#[trigger] t[i]).1.url_main) is Some ==> normalized(
            t[i].1.url_main,
        ) != normalized((#[trigger] t[j]).1.url_main)
}

/// A key that two lists have stands for one domain in both.
pub open spec fn keys_agree(
    a: Seq<(Seq<char>, SiteView)>,
    b: Seq<(Seq<char>, SiteView)>,
) -> bool {
    forall|i: int, j: int|
        0 <= i < a.len() && 0 <= j < b.len() && (#[trigger] a[i]).0 == (#[trigger] b[j]).0
            ==> normalized(a[i].1.url_main) == normalized(b[j].1.url_main)
}

proof fn merged_stays_at_its_domain(a: SiteView, b: SiteView)
    requires
        normalized(a.url_main) == normalized(b.url_main),
    ensures
        normalized(merged(a, b).url_main) == normalized(a.url_main),
{
}

proof fn merge_step_keeps_the_index(st: MergeState, key: Seq<char>, site: SiteView)
    requires
        is_indexed(st),
        table::lookup(st.sites, key) matches Some(s) ==> normalized(s.url_main) == normalized(
            site.url_main,
        ),
    ensures
        is_indexed(merge_step(st, key, site)),
        forall|o: Seq<char>| #[trigger]
            table::has_key(merge_step(st, key, site).sites, o) ==> o == key || table::has_key(
                st.sites,
                o,
            ),
        forall|o: Seq<char>| #[trigger]
            table::has_key(st.sites, o) ==> table::has_key(merge_step(st, key, site).sites, o),
        forall|o: Seq<char>|
            table::has_key(st.sites, o) ==> normalized(
                (#[trigger] table::lookup(st.sites, o))->0.url_main,
            ) == normalized(table::lookup(merge_step(st, key, site).sites, o)->0.url_main),
        normalized(site.url_main) matches Some(d) ==> table::has_key(
            merge_step(st, key, site).index,
            d,
        ),
{
    let next = merge_step(st, key, site);
    match normalized(site.url_main) {
        Some(d) => match table::lookup(st.index, d) {
            Some(k) => {
                assert(leads_to(st.index, d, k));
                let prev = table::lookup(st.sites, k)->0;
                merged_stays_at_its_domain(prev, site);
                table::put_changes_one_key(st.sites, k, merged(prev, site));
                assert forall|o: Seq<char>, e: Seq<char>|
                    (table::lookup(next.sites, o) matches Some(s) && normalized(s.url_main)
                        == Some(e)) <==> #[trigger] leads_to(next.index, e, o) by {
                    assert(leads_to(st.index, e, o) == leads_to(next.index, e, o));
                    if o != k {
                        assert(table::lookup(next.sites, o) == table::lookup(st.sites, o));
                    }
                }
                assert forall|o: Seq<char>| table::has_key(st.sites, o) implies normalized(
                    (#[trigger] table::lookup(st.sites, o))->0.url_main,
                ) == normalized(table::lookup(next.sites, o)->0.url_main) by {
                    if o != k {
                        assert(table::lookup(next.sites, o) == table::lookup(st.sites, o));
                    }
                }
            },
            None => {
                table::put_changes_one_key(st.sites, key, site);
                table::put_changes_one_key(st.index, d, key);
                assert(!table::has_key(st.sites, key)) by {
                    if table::has_key(st.sites, key) {
                        assert(leads_to(st.index, d, key));
                    }
                }
                assert forall|o: Seq<char>, e: Seq<char>|
                    (table::lookup(next.sites, o) matches Some(s) && normalized(s.url_main)
                        == Some(e)) <==> #[trigger] leads_to(next.index, e, o) by {
                    if e == d {
                        assert(table::lookup(next.index, d) == Some(key));
                        if o != key {
                            assert(table::lookup(next.sites, o) == table::lookup(st.sites, o));
                            assert(!leads_to(st.index, d, o));
                        }
                    } else {
                        assert(table::lookup(next.index, e) == table::lookup(st.index, e));
                        assert(leads_to(st.index, e, o) == leads_to(next.index, e, o));
                        if o != key {
                            assert(table::lookup(next.sites, o) == table::lookup(st.sites, o));
                        } else {
                            assert(table::lookup(st.sites, o) is None);
                        }
                    }
                }
                assert forall|o: Seq<char>| table::has_key(st.sites, o) implies normalized(
                    (#[trigger] table::lookup(st.sites, o))->0.url_main,
                ) == normalized(table::lookup(next.sites, o)->0.url_main) by {
                    assert(table::lookup(next.sites, o) == table::lookup(st.sites, o));
                }
            },
        },
        None => {
            table::put_changes_one_key(st.sites, key, site);
            assert forall|o: Seq<char>, e: Seq<char>|
                (table::lookup(next.sites, o) matches Some(s) && normalized(s.url_main) == Some(e))
                    <==> #[trigger] leads_to(next.index, e, o) by {
                assert(leads_to(st.index, e, o) == leads_to(next.index, e, o));
                if o != key {
                    assert(table::lookup(next.sites, o) == table::lookup(st.sites, o));
                }
            }
            assert forall|o: Seq<char>| table::has_key(st.sites, o) implies normalized(
                (#[trigger] table::lookup(st.sites, o))->0.url_main,
            ) == normalized(table::lookup(next.sites, o)->0.url_main) by {
                if o != key {
                    assert(table::lookup(next.sites, o) == table::lookup(st.sites, o));
                }
            }
        },
    }
}

proof fn domain_index_is_one(t: Seq<(Seq<char>, SiteView)>)
    requires
        table::distinct_keys(t),
        domains_differ(t),
    ensures
        is_indexed(MergeState { sites: t, index: domain_index(t) }),
    decreases t.len(),
{
    let st = MergeState { sites: t, index: domain_index(t) };
    if t.len() == 0 {
        assert forall|k: Seq<char>| !#[trigger] table::has_key(t, k) by {
            assert(forall|i: int| !#[trigger] table::key_at(t, k, i));
        }
        assert forall|d: Seq<char>| !#[trigger] table::has_key(st.index, d) by {
            assert(forall|i: int| !#[trigger] table::key_at(st.index, d, i));
        }
    } else {
        let rest = t.drop_last();
        let (key, site) = t.last();
        let before = MergeState { sites: rest, index: domain_index(rest) };
        assert(table::distinct_keys(rest)) by {
            assert forall|i: int, j: int| 0 <= i < j < rest.len() implies (#[trigger] rest[i]).0
                != (#[trigger] rest[j]).0 by {
                assert(t[i].0 != t[j].0);
            }
        }
        assert(domains_differ(rest)) by {
            assert forall|i: int, j: int|
                0 <= i < j < rest.len() && normalized(
                    (#[trigger] rest[i]).1.url_main,
                ) is Some implies normalized(rest[i].1.url_main) != normalized(
                (#[trigger] rest[j]).1.url_main,
            ) by {
                assert(t[i] == rest[i] && t[j] == rest[j]);
            }
        }
        domain_index_is_one(rest);
        assert(!table::has_key(rest, key)) by {
            if table::has_key(rest, key) {
                let i = table::position(rest, key);
                assert(table::key_at(rest, key, i));
                assert(t[i].0 != t[t.len() - 1].0);
            }
        }
        merge_step_keeps_the_index(before, key, site);
        assert(t =~= rest.push((key, site)));
        match normalized(site.url_main) {
            Some(d) => {
                assert(table::lookup(before.index, d) is None) by {
                    if table::has_key(before.index, d) {
                        let k = table::lookup(before.index, d)->0;
                        assert(leads_to(before.index, d, k));
                        let i = table::position(rest, k);
                        assert(table::key_at(rest, k, i));
                        assert(t[i] == rest[i]);
                        assert(normalized(t[i].1.url_main) != normalized(
                            t[t.len() - 1].1.url_main,
                        ));
                    }
                }
            },
            None => {},
        }
        assert(merge_step(before, key, site) == st);
    }
}

proof fn indexed_domains_differ(st: MergeState)
    requires
        is_indexed(st),
    ensures
        domains_differ(st.sites),
{
    let t = st.sites;
    assert forall|i: int, j: int|
        0 <= i < j < t.len() && normalized((#[trigger] t[i]).1.url_main) is Some implies normalized(
        t[i].1.url_main,
    ) != normalized((#[trigger] t[j]).1.url_main) by {
        let d = normalized(t[i].1.url_main)->0;
        assert(table::key_at(t, t[i].0, i));
        assert(table::key_at(t, t[j].0, j));
        table::position_is_unique(t, t[i].0, i);
        table::position_is_unique(t, t[j].0, j);
        assert(leads_to(st.index, d, t[i].0));
        if normalized(t[j].1.url_main) == Some(d) {
            assert(leads_to(st.index, d, t[j].0));
        }
    }
}

#[verifier::rlimit(40)]
proof fn merging_keeps_the_index(
    existing: Seq<(Seq<char>, SiteView)>,
    incoming: Seq<(Seq<char>, SiteView)>,
)
    requires
        table::distinct_keys(existing),
        table::distinct_keys(incoming),
        domains_differ(existing),
        keys_agree(existing, incoming),
    ensures
        ({
            let st = merge_all(
                MergeState { sites: existing, index: domain_index(existing) },
                incoming,
            );
            &&& is_indexed(st)
            &&& forall|o: Seq<char>| #[trigger]
                table::has_key(st.sites, o) ==> table::has_key(existing, o) || table::has_key(
                    incoming,
                    o,
                )
            &&& forall|o: Seq<char>| #[trigger]
                table::has_key(existing, o) ==> table::has_key(st.sites, o)
            &&& forall|o: Seq<char>|
                table::has_key(existing, o) ==> normalized(
                    (#[trigger] table::lookup(existing, o))->0.url_main,
                ) == normalized(table::lookup(st.sites, o)->0.url_main)
            &&& forall|i: int|
                0 <= i < incoming.len() ==> (normalized((#[trigger] incoming[i]).1.url_main)
                    matches Some(d) ==> table::has_key(st.index, d))
        }),
    decreases incoming.len(),
{
    let start = MergeState { sites: existing, index: domain_index(existing) };
    domain_index_is_one(existing);
    if incoming.len() > 0 {
        let rest = incoming.drop_last();
        let (key, site) = incoming.last();
        let before = merge_all(start, rest);
        let st = merge_all(start, incoming);
        assert(table::distinct_keys(rest)) by {
            assert forall|i: int, j: int| 0 <= i < j < rest.len() implies (#[trigger] rest[i]).0
                != (#[trigger] rest[j]).0 by {
                assert(incoming[i].0 != incoming[j].0);
            }
        }
        assert(keys_agree(existing, rest)) by {
            assert forall|i: int, j: int|
                0 <= i < existing.len() && 0 <= j < rest.len() && (#[trigger] existing[i]).0 == (
                #[trigger] rest[j]).0 implies normalized(existing[i].1.url_main) == normalized(
                rest[j].1.url_main,
            ) by {
                assert(incoming[j] == rest[j]);
            }
        }
        merging_keeps_the_index(existing, rest);
        assert(!table::has_key(rest, key)) by {
            if table::has_key(rest, key) {
                let i = table::position(rest, key);
                assert(table::key_at(rest, key, i));
                assert(incoming[i].0 != incoming[incoming.len() - 1].0);
            }
        }
        assert(table::lookup(before.sites, key) matches Some(s) ==> normalized(s.url_main)
            == normalized(site.url_main)) by {
            if table::has_key(before.sites, key) {
                assert(table::has_key(existing, key));
                let i = table::position(existing, key);
                assert(table::key_at(existing, key, i));
                assert(table::lookup(existing, key) == Some(existing[i].1));
                assert(existing[i].0 == incoming[incoming.len() - 1].0);
            }
        }
        merge_step_keeps_the_index(before, key, site);
        assert forall|o: Seq<char>| #[trigger] table::has_key(
            st.sites,
            o,
        ) implies table::has_key(existing, o) || table::has_key(incoming, o) by {
            if o == key {
                assert(table::key_at(incoming, o, incoming.len() - 1));
            } else if table::has_key(rest, o) {
                let i = table::position(rest, o);
                assert(table::key_at(rest, o, i));
                assert(table::key_at(incoming, o, i));
            }
        }
        assert forall|o: Seq<char>| #[trigger] table::has_key(existing, o) implies table::has_key(
            st.sites,
            o,
        ) by {
            assert(table::has_key(before.sites, o));
        }
        assert forall|o: Seq<char>| table::has_key(existing, o) implies normalized(
            (#[trigger] table::lookup(existing, o))->0.url_main,
        ) == normalized(table::lookup(st.sites, o)->0.url_main) by {
            assert(table::has_key(before.sites, o));
            assert(normalized(table::lookup(before.sites, o)->0.url_main) == normalized(
                table::lookup(st.sites, o)->0.url_main,
            ));
        }
        assert forall|i: int| 0 <= i < incoming.len() implies (normalized(
            (#[trigger] incoming[i]).1.url_main,
        ) matches Some(d) ==> table::has_key(st.index, d)) by {
            if i < rest.len() {
                assert(rest[i] == incoming[i]);
                match normalized(incoming[i].1.url_main) {
                    Some(d) => {
                        let k = table::lookup(before.index, d)->0;
                        assert(table::has_key(before.index, d));
                        match normalized(site.url_main) {
                            Some(e) => {
                                table::put_changes_one_key(before.index, e, key);
                            },
                            None => {},
                        }
                    },
                    None => {},
                }
            }
        }
    }
}

/// Merging a list into another by domain: no domain is described twice, no site
/// that was there is lost, no key comes from elsewhere, and each domain of the
/// list that was merged in is described. It is asked that the first list tells
/// its domains apart, and that no key stands for two domains: a site would then
/// take the place of another.
pub proof fn merging_keeps_domains_apart(
    existing: Seq<(Seq<char>, SiteView)>,
    incoming: Seq<(Seq<char>, SiteView)>,
)
    requires
        table::distinct_keys(existing),
        table::distinct_keys(incoming),
        domains_differ(existing),
        keys_agree(existing, incoming),
    ensures
        ({
            let all = merged_into(existing, incoming);
            &&& table::distinct_keys(all)
            &&& domains_differ(all)
            &&& forall|o: Seq<char>| #[trigger]
                table::has_key(existing, o) ==> table::has_key(all, o)
            &&& forall|o: Seq<char>| #[trigger]
                table::has_key(all, o) ==> table::has_key(existing, o) || table::has_key(
                    incoming,
                    o,
                )
            &&& forall|i: int|
                0 <= i < incoming.len() && normalized(
                    (#[trigger] incoming[i]).1.url_main,
                ) is Some ==> exists|n: int|
                    0 <= n < all.len() && normalized((#[trigger] all[n]).1.url_main) == normalized(
                        incoming[i].1.url_main,
                    )
        }),
{
    merging_keeps_the_index(existing, incoming);
    let st = merge_all(MergeState { sites: existing, index: domain_index(existing) }, incoming);
    let all = st.sites;
    indexed_domains_differ(st);
    assert forall|i: int|
        0 <= i < incoming.len() && normalized(
            (#[trigger] incoming[i]).1.url_main,
        ) is Some implies exists|n: int|
        0 <= n < all.len() && normalized((#[trigger] all[n]).1.url_main) == normalized(
            incoming[i].1.url_main,
        ) by {
        let d = normalized(incoming[i].1.url_main)->0;
        assert(table::has_key(st.index, d));
        let k = table::lookup(st.index, d)->0;
        assert(leads_to(st.index, d, k));
        let n = table::position(all, k);
        assert(table::key_at(all, k, n));
        assert(normalized(all[n].1.url_main) == Some(d));
    }
}

/// Whether some site of a list is at the domain `d`.
pub open spec fn has_domain(t: Seq<(Seq<char>, SiteView)>, d: Seq<char>) -> bool {
    exists|i: int| 0 <= i < t.len() && normalized((#[trigger] t[i]).1.url_main) == Some(d)
}

/// A description with those of the same domain merged in, one after the other.
pub open spec fn merged_at(
    s: SiteView,
    d: Seq<char>,
    incoming: Seq<(Seq<char>, SiteView)>,
) -> SiteView
    decreases incoming.len(),
{
    if incoming.len() == 0 {
        s
    } else {
        let before = merged_at(s, d, incoming.drop_last());
        if normalized(incoming.last().1.url_main) == Some(d) {
            merged(before, incoming.last().1)
        } else {
            before
        }
    }
}

proof fn other_domains_merge_nothing(
    s: SiteView,
    d: Seq<char>,
    incoming: Seq<(Seq<char>, SiteView)>,
)
    ensures
        !has_domain(incoming, d) ==> merged_at(s, d, incoming) == s,
        has_domain(incoming, d) ==> merged_at(s, d, incoming).source == SiteSource::Merged,
    decreases incoming.len(),
{
    if incoming.len() > 0 {
        let rest = incoming.drop_last();
        other_domains_merge_nothing(s, d, rest);
        if has_domain(rest, d) {
            let i = choose|i: int|
                0 <= i < rest.len() && normalized((#[trigger] rest[i]).1.url_main) == Some(d);
            assert(normalized(incoming[i].1.url_main) == Some(d));
        }
        if normalized(incoming.last().1.url_main) == Some(d) {
            assert(normalized(incoming[incoming.len() - 1].1.url_main) == Some(d));
        } else if has_domain(incoming, d) {
            let i = choose|i: int|
                0 <= i < incoming.len() && normalized((#[trigger] incoming[i]).1.url_main) == Some(
                    d,
                );
            assert(normalized(rest[i].1.url_main) == Some(d));
        }
    }
}

proof fn has_domain_grows(t: Seq<(Seq<char>, SiteView)>, d: Seq<char>)
    requires
        t.len() > 0,
        has_domain(t.drop_last(), d) || normalized(t.last().1.url_main) == Some(d),
    ensures
        has_domain(t, d),
{
    if has_domain(t.drop_last(), d) {
        let i = choose|i: int|
            0 <= i < t.drop_last().len() && normalized((#[trigger] t.drop_last()[i]).1.url_main)
                == Some(d);
        assert(normalized(t[i].1.url_main) == Some(d));
    } else {
        assert(normalized(t[t.len() - 1].1.url_main) == Some(d));
    }
}

#[verifier::rlimit(40)]
proof fn merging_follows_domains(
    existing: Seq<(Seq<char>, SiteView)>,
    incoming: Seq<(Seq<char>, SiteView)>,
)
    requires
        table::distinct_keys(existing),
        table::distinct_keys(incoming),
        domains_differ(existing),
        keys_agree(existing, incoming),
    ensures
        ({
            let st = merge_all(
                MergeState { sites: existing, index: domain_index(existing) },
                incoming,
            );
            &&& forall|o: Seq<char>| #[trigger]
                table::has_key(existing, o) ==> match normalized(
                    table::lookup(existing, o)->0.url_main,
                ) {
                    Some(d) => table::lookup(st.sites, o) == Some(
                        merged_at(table::lookup(existing, o)->0, d, incoming),
                    ),
                    None => table::has_key(incoming, o) || table::lookup(st.sites, o)
                        == table::lookup(existing, o),
                }
            &&& forall|d: Seq<char>| #[trigger]
                table::has_key(st.index, d) ==> has_domain(existing, d) || has_domain(incoming, d)
        }),
    decreases incoming.len(),
{
    let start = MergeState { sites: existing, index: domain_index(existing) };
    domain_index_is_one(existing);
    merging_keeps_the_index(existing, incoming);
    if incoming.len() == 0 {
        assert forall|d: Seq<char>| #[trigger] table::has_key(start.index, d) implies has_domain(
            existing,
            d,
        ) by {
            let k = table::lookup(start.index, d)->0;
            assert(leads_to(start.index, d, k));
            let i = table::position(existing, k);
            assert(table::key_at(existing, k, i));
            assert(normalized(existing[i].1.url_main) == Some(d));
        }
    } else {
        let rest = incoming.drop_last();
        let (key, site) = incoming.last();
        let before = merge_all(start, rest);
        let st = merge_all(start, incoming);
        assert(table::distinct_keys(rest)) by {
            assert forall|i: int, j: int| 0 <= i < j < rest.len() implies (#[trigger] rest[i]).0
                != (#[trigger] rest[j]).0 by {
                assert(incoming[i].0 != incoming[j].0);
            }
        }
        assert(keys_agree(existing, rest)) by {
            assert forall|i: int, j: int|
                0 <= i < existing.len() && 0 <= j < rest.len() && (#[trigger] existing[i]).0 == (
                #[trigger] rest[j]).0 implies normalized(existing[i].1.url_main) == normalized(
                rest[j].1.url_main,
            ) by {
                assert(incoming[j] == rest[j]);
            }
        }
        merging_follows_domains(existing, rest);
        merging_keeps_the_index(existing, rest);
        let known = match normalized(site.url_main) {
            Some(e) => table::lookup(before.index, e),
            None => None,
        };
        let changed = match known {
            Some(k) => k,
            None => key,
        };
        assert forall|o: Seq<char>| #[trigger] table::has_key(existing, o) implies match normalized(
            table::lookup(existing, o)->0.url_main,
        ) {
            Some(d) => table::lookup(st.sites, o) == Some(
                merged_at(table::lookup(existing, o)->0, d, incoming),
            ),
            None => table::has_key(incoming, o) || table::lookup(st.sites, o) == table::lookup(
                existing,
                o,
            ),
        } by {
            let s = table::lookup(existing, o)->0;
            let prev = table::lookup(before.sites, o)->0;
            assert(table::has_key(before.sites, o));
            assert(table::lookup(existing, o) == Some(s));
            assert(normalized(prev.url_main) == normalized(s.url_main));
            if o == key {
                let i = table::position(existing, o);
                assert(table::key_at(existing, o, i));
                assert(existing[i].0 == incoming[incoming.len() - 1].0);
                assert(normalized(s.url_main) == normalized(site.url_main));
                assert(table::key_at(incoming, o, incoming.len() - 1));
            }
            if table::has_key(rest, o) {
                let i = table::position(rest, o);
                assert(table::key_at(rest, o, i));
                assert(table::key_at(incoming, o, i));
            }
            match normalized(s.url_main) {
                Some(d) => {
                    assert(leads_to(before.index, d, o));
                    if normalized(site.url_main) == Some(d) {
                        assert(known == Some(o));
                        table::put_changes_one_key(before.sites, o, merged(prev, site));
                    } else {
                        assert(changed != o) by {
                            if known is Some {
                                let e = normalized(site.url_main)->0;
                                assert(leads_to(before.index, e, changed));
                            }
                        }
                    }
                },
                None => {
                    if known is Some {
                        let e = normalized(site.url_main)->0;
                        assert(leads_to(before.index, e, changed));
                        assert(changed != o);
                    }
                },
            }
            if changed != o {
                match known {
                    Some(k) => {
                        let e = normalized(site.url_main)->0;
                        assert(leads_to(before.index, e, k));
                        table::put_changes_one_key(
                            before.sites,
                            k,
                            merged(table::lookup(before.sites, k)->0, site),
                        );
                    },
                    None => {
                        table::put_changes_one_key(before.sites, key, site);
                    },
                }
                assert(table::lookup(st.sites, o) == table::lookup(before.sites, o));
            }
        }
        assert forall|d: Seq<char>| #[trigger] table::has_key(st.index, d) implies has_domain(
            existing,
            d,
        ) || has_domain(incoming, d) by {
            if table::has_key(before.index, d) {
                if !has_domain(existing, d) {
                    has_domain_grows(incoming, d);
                }
            } else {
                let e = normalized(site.url_main)->0;
                table::put_changes_one_key(before.index, e, key);
                has_domain_grows(incoming, d);
            }
        }
    }
}

/// What becomes of each site in merging a list into another by domain: one that
/// was there has all descriptions of its domain merged in, one after the other;
/// so it is as it was where the list has none of its domain, and is marked as
/// merged where the list has one. One without a domain is as it was, unless the
/// list has its key. And every domain is from one of the two lists.
#[verifier::rlimit(40)]
pub proof fn merging_changes_only_shared_domains(
    existing: Seq<(Seq<char>, SiteView)>,
    incoming: Seq<(Seq<char>, SiteView)>,
)
    requires
        table::distinct_keys(existing),
        table::distinct_keys(incoming),
        domains_differ(existing),
        keys_agree(existing, incoming),
    ensures
        ({
            let all = merged_into(existing, incoming);
            &&& forall|o: Seq<char>, d: Seq<char>|
                table::has_key(existing, o) && normalized(table::lookup(existing, o)->0.url_main)
                    == Some(d) ==> {
                    &&& #[trigger] table::lookup(all, o) == Some(
                        #[trigger] merged_at(table::lookup(existing, o)->0, d, incoming),
                    )
                    &&& !has_domain(incoming, d) ==> table::lookup(all, o) == table::lookup(
                        existing,
                        o,
                    )
                    &&& has_domain(incoming, d) ==> table::lookup(all, o)->0.source
                        == SiteSource::Merged
                }
            &&& forall|o: Seq<char>|
                table::has_key(existing, o) && normalized(table::lookup(existing, o)->0.url_main)
                    is None && !table::has_key(incoming, o) ==> #[trigger] table::lookup(all, o)
                    == table::lookup(existing, o)
            &&& forall|i: int|
                0 <= i < all.len() ==> (normalized((#[trigger] all[i]).1.url_main) matches Some(d)
                    ==> has_domain(existing, d) || has_domain(incoming, d))
        }),
{
    merging_follows_domains(existing, incoming);
    merging_keeps_the_index(existing, incoming);
    let st = merge_all(MergeState { sites: existing, index: domain_index(existing) }, incoming);
    let all = st.sites;
    assert forall|o: Seq<char>, d: Seq<char>|
        table::has_key(existing, o) && normalized(table::lookup(existing, o)->0.url_main) == Some(
            d,
        ) implies {
        &&& #[trigger] table::lookup(all, o) == Some(
            #[trigger] merged_at(table::lookup(existing, o)->0, d, incoming),
        )
        &&& !has_domain(incoming, d) ==> table::lookup(all, o) == table::lookup(existing, o)
        &&& has_domain(incoming, d) ==> table::lookup(all, o)->0.source == SiteSource::Merged
    } by {
        other_domains_merge_nothing(table::lookup(existing, o)->0, d, incoming);
    }
    assert forall|i: int| 0 <= i < all.len() implies (normalized((#[trigger] all[i]).1.url_main)
        matches Some(d) ==> has_domain(existing, d) || has_domain(incoming, d)) by {
        if let Some(d) = normalized(all[i].1.url_main) {
            let k = all[i].0;
            assert(table::key_at(all, k, i));
            table::position_is_unique(all, k, i);
            assert(leads_to(st.index, d, k));
            assert(table::has_key(st.index, d));
        }
    }
}

/// What a domain is: not empty, without a slash, and without a capital letter.
pub proof fn domains_are_plain(url: Seq<char>)
    ensures
        normalized(url) matches Some(d) ==> d.len() > 0 && forall|i: int|
            0 <= i < d.len() ==> (#[trigger] d[i]) != '/' && !('A' <= d[i] <= 'Z'),
{
    let s = text::ascii_lower(text::trimmed(url));
    let after_scheme = if text::starts_with(s, "https://"@) {
        s.skip("https://"@.len() as int)
    } else {
        text::without_prefix(s, "http://"@)
    };
    let host = text::before(after_scheme, '/');
    let d = text::without_prefix(host, "www."@);
    text::before_is_a_prefix(after_scheme, '/');
    assert forall|i: int| 0 <= i < d.len() implies (#[trigger] d[i]) != '/' && !('A' <= d[i]
        <= 'Z') by {
        let j = if text::starts_with(host, "www."@) {
            i + "www."@.len() as int
        } else {
            i
        };
        assert(d[i] == host[j]);
        assert(host[j] == after_scheme[j]);
        let k = if text::starts_with(s, "https://"@) {
            j + "https://"@.len() as int
        } else if text::starts_with(s, "http://"@) {
            j + "http://"@.len() as int
        } else {
            j
        };
        assert(after_scheme[j] == s[k]);
        text::lower_is_no_capital(text::trimmed(url)[k]);
    }
}

/// A field may be filled just where it is one of these.
pub proof fn these_fields_may_be_filled(field: Seq<char>)
    ensures
        canonical_fields().contains(field) <==> field == "avatar_url"@ || field == "bio"@ || field
            == "display_name"@ || field == "full_name"@ || field == "location"@ || field
            == "signup_date"@ || field == "post_count"@ || field == "follower_count"@ || field
            == "following_count"@ || field == "verified"@ || field == "is_private"@ || field
            == "last_seen"@ || field == "external_links"@,
{
    let c = canonical_fields();
    if field == "avatar_url"@ {
        assert(c[0] == field);
    } else if field == "bio"@ {
        assert(c[1] == field);
    } else if field == "display_name"@ {
        assert(c[2] == field);
    } else if field == "full_name"@ {
        assert(c[3] == field);
    } else if field == "location"@ {
        assert(c[4] == field);
    } else if field == "signup_date"@ {
        assert(c[5] == field);
    } else if field == "post_count"@ {
        assert(c[6] == field);
    } else if field == "follower_count"@ {
        assert(c[7] == field);
    } else if field == "following_count"@ {
        assert(c[8] == field);
    } else if field == "verified"@ {
        assert(c[9] == field);
    } else if field == "is_private"@ {
        assert(c[10] == field);
    } else if field == "last_seen"@ {
        assert(c[11] == field);
    } else if field == "external_links"@ {
        assert(c[12] == field);
    }
}

/// A status is among those of a site just where the site names it; the texts of
/// a site are those that it names, one or more.
pub proof fn named_codes_and_texts_count(
    one: u16,
    codes: Seq<u16>,
    code: u16,
    text: Seq<char>,
    texts: Seq<Seq<char>>,
)
    ensures
        ErrorCodeView::Single(one).has(code) <==> one == code,
        ErrorCodeView::Multiple(codes).has(code) <==> exists|i: int|
            0 <= i < codes.len() && codes[i] == code,
        ErrorMsgView::Single(text).list() == seq![text],
        ErrorMsgView::Multiple(texts).list() == texts,
{
}

/// The username goes into a template wherever `{}` stands, as it is, and the
/// rest of the template stays.
pub proof fn usernames_go_into_every_place(a: Seq<char>, b: Seq<char>, username: Seq<char>)
    requires
        forall|i: int| 0 <= i < a.len() ==> a[i] != '{',
    ensures
        filled(a, username) == a,
        filled(a + seq!['{', '}'] + b, username) == a + username + filled(b, username),
{
    reveal_strlit("{}");
    let place = "{}"@;
    assert(place =~= seq!['{', '}']);
    let s = a + place + b;
    assert forall|i: int| 0 <= i < a.len() implies !#[trigger] text::occurs_at(s, place, i) by {
        if text::occurs_at(s, place, i) {
            assert(s.subrange(i, i + place.len())[0] == s[i]);
            assert(s[i] == a[i]);
        }
    }
    assert(!text::contains(a, place)) by {
        if text::contains(a, place) {
            let i = choose|i: int| text::occurs_at(a, place, i);
            assert(a.subrange(i, i + place.len())[0] == a[i]);
        }
    }
    text::replacing_goes_from_left_to_right(a, b, place, username);
}

/// The domain of a URL is its host, whatever scheme, `www.` and path stand
/// around it: all of the host, with port or anything else in it. A URL without a
/// host has no domain.
pub proof fn domain_of_a_url_is_its_host(
    scheme: Seq<char>,
    www: Seq<char>,
    host: Seq<char>,
    path: Seq<char>,
)
    requires
        scheme == "https://"@ || scheme == "http://"@ || (scheme.len() == 0 && !text::starts_with(
            text::ascii_lower(www + host + path),
            "https://"@,
        ) && !text::starts_with(text::ascii_lower(www + host + path), "http://"@)),
        www == "www."@ || (www.len() == 0 && !text::starts_with(host, "www."@)),
        forall|i: int|
            0 <= i < host.len() ==> host[i] != '/' && !('A' <= host[i] <= 'Z') && !text::is_space(
                host[i],
            ),
        path.len() == 0 || (path[0] == '/' && !text::is_space(path.last())),
    ensures
        host.len() > 0 ==> normalized(scheme + www + host + path) == Some(host),
        host.len() == 0 ==> normalized(scheme + www + host + path) is None,
{
    reveal_strlit("https://");
    reveal_strlit("http://");
    reveal_strlit("www.");
    let url = scheme + www + host + path;
    let rest = www + host + path;
    assert(url =~= scheme + rest);
    assert(!text::is_space('/') && !text::is_space('h') && !text::is_space('w') && !text::is_space(
        '.',
    ));
    assert(text::trimmed(url) == url) by {
        if url.len() > 0 {
            assert(!text::is_space(url[0])) by {
                if scheme.len() > 0 {
                    assert(url[0] == 'h');
                } else if www.len() > 0 {
                    assert(url[0] == 'w');
                } else if host.len() > 0 {
                    assert(url[0] == host[0]);
                } else {
                    assert(url[0] == path[0]);
                }
            }
            assert(!text::is_space(url.last())) by {
                if path.len() > 0 {
                    assert(url.last() == path.last());
                } else if host.len() > 0 {
                    assert(url.last() == host[host.len() - 1]);
                } else if www.len() > 0 {
                    assert(url.last() == '.');
                } else {
                    assert(url.last() == '/');
                }
            }
        }
    }
    let s = text::ascii_lower(url);
    let lower = text::ascii_lower(path);
    let named = www + host;
    assert(s =~= scheme + named + lower) by {
        assert forall|i: int| 0 <= i < s.len() implies s[i] == (scheme + named + lower)[i] by {
            if i < scheme.len() {
                assert(url[i] == scheme[i]);
            } else if i < scheme.len() + www.len() {
                assert(url[i] == www[i - scheme.len()]);
            } else if i < scheme.len() + www.len() + host.len() {
                assert(url[i] == host[i - scheme.len() - www.len()]);
            } else {
                assert(url[i] == path[i - scheme.len() - www.len() - host.len()]);
            }
        }
    }
    let after = named + lower;
    assert(text::ascii_lower(rest) =~= after) by {
        assert forall|i: int| 0 <= i < rest.len() implies text::ascii_lower(rest)[i]
            == after[i] by {
            assert(rest[i] == url[scheme.len() + i]);
            assert(s[scheme.len() + i] == after[i]);
        }
    }
    if scheme == "https://"@ {
        assert(s.subrange(0, 8) =~= "https://"@);
        assert(s.skip(8) =~= after);
    } else if scheme == "http://"@ {
        assert(s.subrange(0, 7) =~= "http://"@);
        assert(s.skip(7) =~= after);
        assert(!text::starts_with(s, "https://"@)) by {
            if text::starts_with(s, "https://"@) {
                assert(s.subrange(0, 8)[4] == s[4]);
                assert(s[4] == ':');
            }
        }
    } else {
        assert(s =~= after);
    }
    assert forall|i: int| 0 <= i < named.len() implies named[i] != '/' by {
        if i < www.len() {
            assert(named[i] == www[i]);
        } else {
            assert(named[i] == host[i - www.len()]);
        }
    }
    assert(text::before(after, '/') == named) by {
        if path.len() > 0 {
            assert(lower[0] == '/');
            assert(after =~= named + seq!['/'] + lower.skip(1));
            text::parts_at_a_separator(named, '/', lower.skip(1));
        } else {
            assert(after =~= named);
            text::parts_at_a_separator(named, '/', Seq::empty());
        }
    }
    if www == "www."@ {
        assert(named.subrange(0, 4) =~= www);
        assert(named.skip(4) =~= host);
    } else {
        assert(named =~= host);
    }
}

/// Blanks around a URL and the case of its letters do not matter to its domain.
pub proof fn case_and_blanks_are_no_matter_to_domains(a: Seq<char>, b: Seq<char>)
    requires
        text::ascii_lower(text::trimmed(a)) == text::ascii_lower(text::trimmed(b)),
    ensures
        normalized(a) == normalized(b),
{
}

/// Where each part of a merged description is from. What the request looks like
/// is the later one's where that has a detection rule, and else the earlier
/// one's; of the rest the earlier one's is kept where it has it, and else the
/// later one's.
pub proof fn each_part_of_a_merged_site_has_its_side(a: SiteView, b: SiteView)
    ensures
        ({
            let m = merged(a, b);
            &&& b.detection is Some ==> m.url == b.url && m.url_main == b.url_main
            &&& b.detection is None ==> m.url == a.url && m.url_main == a.url_main
            &&& b.detection is Some && b.headers is Some ==> m.headers == b.headers
            &&& b.detection is Some && b.headers is None ==> m.headers == a.headers
            &&& b.detection is None && a.headers is Some ==> m.headers == a.headers
            &&& b.detection is None && a.headers is None ==> m.headers == b.headers
            &&& b.detection is Some && b.request_method is Some ==> m.request_method
                == b.request_method
            &&& b.detection is Some && b.request_method is None ==> m.request_method
                == a.request_method
            &&& b.detection is None && a.request_method is Some ==> m.request_method
                == a.request_method
            &&& b.detection is None && a.request_method is None ==> m.request_method
                == b.request_method
            &&& b.detection is Some && b.request_payload is Some ==> m.request_payload
                == b.request_payload
            &&& b.detection is Some && b.request_payload is None ==> m.request_payload
                == a.request_payload
            &&& b.detection is None && a.request_payload is Some ==> m.request_payload
                == a.request_payload
            &&& b.detection is None && a.request_payload is None ==> m.request_payload
                == b.request_payload
            &&& a.error_msg is Some ==> m.error_msg == a.error_msg
            &&& a.error_msg is None ==> m.error_msg == b.error_msg
            &&& a.error_code is Some ==> m.error_code == a.error_code
            &&& a.error_code is None ==> m.error_code == b.error_code
            &&& a.error_url is Some ==> m.error_url == a.error_url
            &&& a.error_url is None ==> m.error_url == b.error_url
            &&& a.url_probe is Some ==> m.url_probe == a.url_probe
            &&& a.url_probe is None ==> m.url_probe == b.url_probe
            &&& a.username_claimed is Some ==> m.username_claimed == a.username_claimed
            &&& a.username_claimed is None ==> m.username_claimed == b.username_claimed
            &&& a.username_unclaimed is Some ==> m.username_unclaimed == a.username_unclaimed
            &&& a.username_unclaimed is None ==> m.username_unclaimed == b.username_unclaimed
            &&& a.regex_check is Some ==> m.regex_check == a.regex_check
            &&& a.regex_check is None ==> m.regex_check == b.regex_check
            &&& a.detection is Some || b.detection is Some ==> m.error_type == "dual_pattern"@
            &&& a.detection is None && b.detection is None && a.error_type.len() > 0
                ==> m.error_type == a.error_type
            &&& a.detection is None && b.detection is None && a.error_type.len() == 0
                ==> m.error_type == b.error_type
            &&& m.is_nsfw == Some(true) <==> a.is_nsfw == Some(true) || b.is_nsfw == Some(true)
            &&& m.is_nsfw is None <==> a.is_nsfw is None && b.is_nsfw is None
            &&& m.source == SiteSource::Merged
            &&& b.detection is Some ==> m.detection == b.detection
            &&& b.detection is None ==> m.detection == a.detection
            &&& m.extractors == union_by_field(a.extractors, b.extractors)
            &&& m.categories == union_stable(a.categories, b.categories)
            &&& m.compiled_regex is None && m.compiled_extractors.len() == 0
        }),
{
    assert(a.is_nsfw is Some ==> a.is_nsfw == Some(true) || a.is_nsfw == Some(false));
    assert(b.is_nsfw is Some ==> b.is_nsfw == Some(true) || b.is_nsfw == Some(false));
}

/// Categories that the later description adds come in its order: each is put at
/// the end, unless it is there.
pub proof fn categories_are_added_in_order(a: Seq<Seq<char>>, b: Seq<Seq<char>>, c: Seq<char>)
    ensures
        union_stable(a, Seq::empty()) == a,
        union_stable(a, b.push(c)) == if a.contains(c) || b.contains(c) {
            union_stable(a, b)
        } else {
            union_stable(a, b).push(c)
        },
{
    assert(b.push(c).drop_last() =~= b);
    categories_are_united(a, b);
}

proof fn merged_at_stays_at_its_domain(
    s: SiteView,
    d: Seq<char>,
    incoming: Seq<(Seq<char>, SiteView)>,
)
    requires
        normalized(s.url_main) == Some(d),
    ensures
        normalized(merged_at(s, d, incoming).url_main) == Some(d),
    decreases incoming.len(),
{
    if incoming.len() > 0 {
        merged_at_stays_at_its_domain(s, d, incoming.drop_last());
    }
}

/// A site that comes in and whose domain was not there becomes a site of its own
/// under its key, as it is, with what comes after it of the same domain merged
/// in; one without a domain is put there as it is.
pub proof fn new_sites_are_added_as_they_are(
    existing: Seq<(Seq<char>, SiteView)>,
    incoming: Seq<(Seq<char>, SiteView)>,
    i: int,
)
    requires
        table::distinct_keys(existing),
        table::distinct_keys(incoming),
        domains_differ(existing),
        keys_agree(existing, incoming),
        0 <= i < incoming.len(),
        normalized(incoming[i].1.url_main) matches Some(d) ==> !has_domain(existing, d)
            && !has_domain(incoming.take(i), d),
    ensures
        table::lookup(merged_into(existing, incoming), incoming[i].0) == Some(
            match normalized(incoming[i].1.url_main) {
                Some(d) => merged_at(incoming[i].1, d, incoming.skip(i + 1)),
                None => incoming[i].1,
            },
        ),
    decreases incoming.len(),
{
    let start = MergeState { sites: existing, index: domain_index(existing) };
    let rest = incoming.drop_last();
    let (key, site) = incoming.last();
    let before = merge_all(start, rest);
    let st = merge_all(start, incoming);
    let (name, new) = incoming[i];
    assert(table::distinct_keys(rest)) by {
        assert forall|x: int, y: int| 0 <= x < y < rest.len() implies (#[trigger] rest[x]).0 != (
        #[trigger] rest[y]).0 by {
            assert(incoming[x].0 != incoming[y].0);
        }
    }
    assert(keys_agree(existing, rest)) by {
        assert forall|x: int, y: int|
            0 <= x < existing.len() && 0 <= y < rest.len() && (#[trigger] existing[x]).0 == (
            #[trigger] rest[y]).0 implies normalized(existing[x].1.url_main) == normalized(
            rest[y].1.url_main,
        ) by {
            assert(incoming[y] == rest[y]);
        }
    }
    merging_keeps_the_index(existing, rest);
    merging_follows_domains(existing, rest);
    let known = match normalized(site.url_main) {
        Some(e) => table::lookup(before.index, e),
        None => None,
    };
    if i == incoming.len() - 1 {
        assert(rest =~= incoming.take(i));
        assert(incoming.skip(i + 1) =~= Seq::empty());
        assert(known is None) by {
            if known is Some {
                let d = normalized(site.url_main)->0;
                assert(table::has_key(before.index, d));
            }
        }
        table::put_changes_one_key(before.sites, key, site);
    } else {
        assert(rest[i] == incoming[i]);
        assert(rest.take(i) =~= incoming.take(i));
        new_sites_are_added_as_they_are(existing, rest, i);
        assert(incoming.skip(i + 1).drop_last() =~= rest.skip(i + 1));
        assert(incoming.skip(i + 1).last() == incoming.last());
        assert(incoming[i].0 != incoming[incoming.len() - 1].0);
        let held = table::lookup(before.sites, name)->0;
        match normalized(new.url_main) {
            Some(d) => {
                merged_at_stays_at_its_domain(new, d, rest.skip(i + 1));
                assert(leads_to(before.index, d, name));
                if normalized(site.url_main) == Some(d) {
                    assert(known == Some(name));
                    table::put_changes_one_key(before.sites, name, merged(held, site));
                }
            },
            None => {},
        }
        if normalized(new.url_main) is None || normalized(site.url_main) != normalized(
            new.url_main,
        ) {
            match known {
                Some(k) => {
                    let e = normalized(site.url_main)->0;
                    assert(leads_to(before.index, e, k));
                    assert(k != name);
                    table::put_changes_one_key(
                        before.sites,
                        k,
                        merged(table::lookup(before.sites, k)->0, site),
                    );
                },
                None => {
                    table::put_changes_one_key(before.sites, key, site);
                },
            }
            assert(table::lookup(st.sites, name) == table::lookup(before.sites, name));
        }
    }
}

proof fn index_keys_are_distinct(t: Seq<(Seq<char>, SiteView)>)
    ensures
        table::distinct_keys(domain_index(t)),
    decreases t.len(),
{
    if t.len() > 0 {
        index_keys_are_distinct(t.drop_last());
        match normalized(t.last().1.url_main) {
            Some(d) => table::put_changes_one_key(domain_index(t.drop_last()), d, t.last().0),
            None => {},
        }
    }
}

/// Where several sites of a list have one domain, the last of them stands for
/// it; a domain that none of them has stands for nothing.
pub proof fn the_last_site_stands_for_its_domain(
    t: Seq<(Seq<char>, SiteView)>,
    i: int,
    d: Seq<char>,
)
    requires
        0 <= i < t.len(),
        forall|j: int|
            i < j < t.len() ==> normalized((#[trigger] t[j]).1.url_main) != Some(d),
    ensures
        normalized(t[i].1.url_main) == Some(d) ==> table::lookup(domain_index(t), d) == Some(t[i].0),
        i == 0 && normalized(t[i].1.url_main) != Some(d) ==> table::lookup(domain_index(t), d)
            is None,
    decreases t.len(),
{
    let rest = t.drop_last();
    let index = domain_index(rest);
    index_keys_are_distinct(rest);
    match normalized(t.last().1.url_main) {
        Some(e) => table::put_changes_one_key(index, e, t.last().0),
        None => {},
    }
    if i < rest.len() {
        assert forall|j: int| i < j < rest.len() implies normalized(
            (#[trigger] rest[j]).1.url_main,
        ) != Some(d) by {
            assert(rest[j] == t[j]);
        }
        the_last_site_stands_for_its_domain(rest, i, d);
        assert(rest[i] == t[i]);
        assert(t[t.len() - 1] == t.last());
    } else if i == 0 {
        assert(rest.len() == 0);
        assert(!table::has_key(index, d)) by {
            assert(forall|n: int| !#[trigger] table::key_at(index, d, n));
        }
    }
}

/// One site that comes in is merged into the last site of its domain, which
/// keeps its key and its place, or is put under its own key where there is none.
pub proof fn one_site_is_merged_into_its_domain(
    existing: Seq<(Seq<char>, SiteView)>,
    key: Seq<char>,
    site: SiteView,
    i: int,
    d: Seq<char>,
)
    requires
        table::distinct_keys(existing),
        0 <= i < existing.len(),
        forall|j: int|
            i < j < existing.len() ==> normalized((#[trigger] existing[j]).1.url_main) != Some(d),
    ensures
        normalized(site.url_main) == Some(d) && normalized(existing[i].1.url_main) == Some(d)
            ==> merged_into(existing, seq![(key, site)]) == existing.update(
            i,
            (existing[i].0, merged(existing[i].1, site)),
        ),
        normalized(site.url_main) == Some(d) && i == 0 && normalized(existing[i].1.url_main)
            != Some(d) ==> merged_into(existing, seq![(key, site)]) == table::put(
            existing,
            key,
            site,
        ),
        normalized(site.url_main) is None ==> merged_into(existing, seq![(key, site)])
            == table::put(existing, key, site),
        merged_into(existing, Seq::empty()) == existing,
        merged_into(Seq::empty(), seq![(key, site)]) == seq![(key, site)],
{
    let one = seq![(key, site)];
    let start = MergeState { sites: existing, index: domain_index(existing) };
    let nothing = MergeState { sites: Seq::empty(), index: domain_index(Seq::empty()) };
    assert(one.drop_last() =~= Seq::empty());
    assert(merge_all(start, one.drop_last()) == start);
    assert(merge_all(start, one) == merge_step(start, key, site));
    assert(merge_all(nothing, one.drop_last()) == nothing);
    assert(merge_all(nothing, one) == merge_step(nothing, key, site));
    the_last_site_stands_for_its_domain(existing, i, d);
    assert(table::key_at(existing, existing[i].0, i));
    table::position_is_unique(existing, existing[i].0, i);
    assert(forall|k: Seq<char>, n: int| !#[trigger] table::key_at(nothing.index, k, n));
    assert(forall|k: Seq<char>, n: int| !#[trigger] table::key_at(nothing.sites, k, n));
    assert(merged_into(Seq::empty(), one) =~= one);
}

/// Merging goes site by site: what comes later is merged into what has come
/// before.
pub proof fn merging_goes_site_by_site(
    st: MergeState,
    a: Seq<(Seq<char>, SiteView)>,
    b: Seq<(Seq<char>, SiteView)>,
)
    ensures
        merge_all(st, a + b) == merge_all(merge_all(st, a), b),
    decreases b.len(),
{
    if b.len() == 0 {
        assert(a + b =~= a);
    } else {
        assert((a + b).drop_last() =~= a + b.drop_last());
        assert((a + b).last() == b.last());
        merging_goes_site_by_site(st, a, b.drop_last());
    }
}

} // verus!
