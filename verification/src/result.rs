//! What one check of a username on a site came to.

use vstd::prelude::*;

use crate::table;
use crate::table::Table;
use crate::text;

verus! {

/// Whether a profile with the username exists on a site.
#[derive(Debug, Clone, Copy, PartialEq, Eq, Hash, Structural)]
pub enum QueryStatus {
    /// The username was found on this platform.
    Claimed,
    /// The platform says that the username does not exist.
    Available,
    /// An unexpected error, a timeout, or a response that says neither.
    Unknown,
    /// The username does not fit the site's own format.
    Illegal,
    /// A web application firewall answered in the site's place.
    Waf,
    /// The exists-pattern and the missing-pattern both matched: one of the two
    /// rules is out of date, so the verdict is for a human to review.
    Tentative,
}

impl QueryStatus {
    /// The name under which the frontend and the vault know the status.
    pub open spec fn name(self) -> Seq<char> {
        match self {
            QueryStatus::Claimed => "claimed"@,
            QueryStatus::Available => "available"@,
            QueryStatus::Unknown => "unknown"@,
            QueryStatus::Illegal => "illegal"@,
            QueryStatus::Waf => "waf"@,
            QueryStatus::Tentative => "tentative"@,
        }
    }

    /// The name under which the frontend and the vault know the status.
    pub fn as_str(&self) -> (r: &'static str)
        ensures
            r@ == self.name(),
    {
        match self {
            QueryStatus::Claimed => "claimed",
            QueryStatus::Available => "available",
            QueryStatus::Unknown => "unknown",
            QueryStatus::Illegal => "illegal",
            QueryStatus::Waf => "waf",
            QueryStatus::Tentative => "tentative",
        }
    }
}

/// Different statuses have different names.
pub proof fn status_names_are_distinct(a: QueryStatus, b: QueryStatus)
    ensures
        a.name() == b.name() ==> a == b,
{
    reveal_strlit("claimed");
    reveal_strlit("available");
    reveal_strlit("unknown");
    reveal_strlit("illegal");
    reveal_strlit("waf");
    reveal_strlit("tentative");
    assert("claimed"@[0] == 'c');
    assert("available"@[0] == 'a');
    assert("unknown"@[0] == 'u');
    assert("illegal"@[0] == 'i');
    assert("waf"@[0] == 'w');
    assert("tentative"@[0] == 't');
}

/// The value of one extracted profile field: most fields are single values, a
/// few (`external_links`) are lists.
#[derive(Debug, Clone, PartialEq)]
pub enum ExtractedValue {
    One(String),
    Many(Vec<String>),
}

/// The view of an `ExtractedValue`.
pub enum ExtractedView {
    One(Seq<char>),
    Many(Seq<Seq<char>>),
}

impl View for ExtractedValue {
    type V = ExtractedView;

    open spec fn view(&self) -> ExtractedView {
        match self {
            ExtractedValue::One(s) => ExtractedView::One(s@),
            ExtractedValue::Many(v) => ExtractedView::Many(text::texts(v@)),
        }
    }
}

/// The outcome of checking one username on one site.
#[derive(Debug, Clone)]
pub struct QueryResult {
    /// The username that was checked.
    pub username: String,
    /// The display name of the platform.
    pub site_name: String,
    /// The platform's root page.
    pub url_main: String,
    /// The profile URL for this username.
    pub site_url: String,
    /// The verdict.
    pub status: QueryStatus,
    /// How long the request took, in milliseconds.
    pub response_time_ms: Option<u64>,
    /// What went wrong, where something did.
    pub context: Option<String>,
    /// Confidence in the verdict, from 0 to 100.
    pub confidence: u8,
    /// Profile fields read off a `Claimed` response; `None` where no extractor
    /// yielded anything or the verdict was another.
    pub extracted: Option<Table<ExtractedValue>>,
    /// SHA-256, in hexadecimal, of the first 64 KiB of the body; `None` where
    /// no body of the site itself was seen.
    pub body_sha256: Option<String>,
}

/// The view of a `QueryResult`.
#[verifier::ext_equal]
pub struct ResultView {
    pub username: Seq<char>,
    pub site_name: Seq<char>,
    pub url_main: Seq<char>,
    pub site_url: Seq<char>,
    pub status: QueryStatus,
    pub response_time_ms: Option<u64>,
    pub context: Option<Seq<char>>,
    pub confidence: u8,
    pub extracted: Option<Seq<(Seq<char>, ExtractedView)>>,
    pub body_sha256: Option<Seq<char>>,
}

/// The entries of an optional table of fields.
pub open spec fn fields_view(o: Option<Table<ExtractedValue>>) -> Option<
    Seq<(Seq<char>, ExtractedView)>,
> {
    match o {
        Some(t) => Some(table::viewed(t@)),
        None => None,
    }
}

impl View for QueryResult {
    type V = ResultView;

    open spec fn view(&self) -> ResultView {
        ResultView {
            username: self.username@,
            site_name: self.site_name@,
            url_main: self.url_main@,
            site_url: self.site_url@,
            status: self.status,
            response_time_ms: self.response_time_ms,
            context: text::opt_text(self.context),
            confidence: self.confidence,
            extracted: fields_view(self.extracted),
            body_sha256: text::opt_text(self.body_sha256),
        }
    }
}

/// The names of the statuses, in lower case, by which they are stored and shown.
pub proof fn statuses_have_these_names(s: QueryStatus)
    ensures
        s.name() == "claimed"@ <==> s == QueryStatus::Claimed,
        s.name() == "available"@ <==> s == QueryStatus::Available,
        s.name() == "unknown"@ <==> s == QueryStatus::Unknown,
        s.name() == "illegal"@ <==> s == QueryStatus::Illegal,
        s.name() == "waf"@ <==> s == QueryStatus::Waf,
        s.name() == "tentative"@ <==> s == QueryStatus::Tentative,
{
    status_names_are_distinct(s, QueryStatus::Claimed);
    status_names_are_distinct(s, QueryStatus::Available);
    status_names_are_distinct(s, QueryStatus::Unknown);
    status_names_are_distinct(s, QueryStatus::Illegal);
    status_names_are_distinct(s, QueryStatus::Waf);
    status_names_are_distinct(s, QueryStatus::Tentative);
}

} // verus!
