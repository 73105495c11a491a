//! Site lists in the formats of their sources, and the one list that is made
//! of them.

use vstd::prelude::*;
use vstd::string::*;

use crate::extract;
use crate::extract::compile_all;
use crate::outside;
use crate::outside::{json_string, regex_compiles};
use crate::sites;
use crate::sites::{
    is_canonical_field, merge_into, normalize_domain, Detection, DetectionView, Extractor,
    ExtractorView, SiteData, SiteSource, SiteView,
};
use crate::table;
use crate::table::Table;
use crate::text;
use crate::text::{join, replace, str_eq, str_starts_with};

verus! {

/// An entry of a list whose value may have been of another shape, and is then
/// missing.
pub type Entry<T> = (String, Option<T>);

/// The view of the entries of a list.
pub open spec fn entry_views<T: View>(raw: Seq<Entry<T>>) -> Seq<(Seq<char>, Option<T::V>)> {
    raw.map_values(|e: Entry<T>| (e.0@, sites::opt_view(e.1)))
}

/// The extractors whose field is canonical.
pub open spec fn canonical_only(exs: Seq<ExtractorView>) -> Seq<ExtractorView>
    decreases exs.len(),
{
    if exs.len() == 0 {
        Seq::empty()
    } else if sites::canonical_fields().contains(exs.last().field) {
        canonical_only(exs.drop_last()).push(exs.last())
    } else {
        canonical_only(exs.drop_last())
    }
}

/// The extractors whose field is canonical.
pub fn keep_canonical(exs: Vec<Extractor>) -> (r: Vec<Extractor>)
    ensures
        sites::views(r@) == canonical_only(sites::views(exs@)),
{
    let mut r: Vec<Extractor> = Vec::new();
    let ghost given = exs@;
    let ghost all = sites::views(given);
    assert(sites::views(r@) =~= canonical_only(all.take(0)));
    for ex in it: exs
        invariant
            it.seq() == given,
            all == sites::views(given),
            sites::views(r@) == canonical_only(all.take(it.index() as int)),
    {
        let ghost n = it.index() as int;
        assert(all.take(n + 1).drop_last() =~= all.take(n));
        if is_canonical_field(ex.field.as_str()) {
            let ghost before = r@;
            r.push(ex);
            assert(sites::views(r@) =~= sites::views(before).push(ex@));
        }
    }
    assert(all.take(all.len() as int) =~= all);
    r
}

/// A site with its rules checked: extractors for fields that are not canonical
/// are dropped, and the username format and the extractors that are well formed
/// are kept beside the sources.
pub open spec fn with_rules(site: SiteView) -> SiteView {
    SiteView {
        compiled_regex: match site.regex_check {
            Some(p) => if outside::regex_valid(p) {
                Some(p)
            } else {
                None
            },
            None => None,
        },
        extractors: canonical_only(site.extractors),
        compiled_extractors: extract::compiled_all(canonical_only(site.extractors)),
        ..site
    }
}

/// Checks the rules of a site.
pub fn compile_rules(site: SiteData) -> (r: SiteData)
    ensures
        r@ == with_rules(site@),
{
    let ghost given = site@;
    let mut r = site;
    r.compiled_regex =
    match &r.regex_check {
        Some(p) => if regex_compiles(p.as_str()) {
            Some(p.clone())
        } else {
            None
        },
        None => None,
    };
    r.extractors = keep_canonical(r.extractors);
    r.compiled_extractors = compile_all(&r.extractors);
    assert(r@ =~= with_rules(given));
    r
}

/// A list in the format of Sherlock's `data.json`: the entries that have the
/// right shape, without `$schema`.
pub open spec fn sherlock_list(raw: Seq<(Seq<char>, Option<SiteView>)>) -> Seq<
    (Seq<char>, SiteView),
>
    decreases raw.len(),
{
    if raw.len() == 0 {
        Seq::empty()
    } else {
        let before = sherlock_list(raw.drop_last());
        let (name, value) = raw.last();
        match value {
            Some(site) => if name != "$schema"@ {
                table::put(before, name, with_rules(site))
            } else {
                before
            },
            None => before,
        }
    }
}

/// Reads a list in the format of Sherlock's `data.json`.
pub fn parse_sherlock(raw: Vec<Entry<SiteData>>) -> (r: Table<SiteData>)
    ensures
        table::viewed(r@) == sherlock_list(entry_views(raw@)),
{
    let mut r: Table<SiteData> = Table::new();
    let ghost given = raw@;
    let ghost all = entry_views(given);
    assert(table::viewed(r@) =~= sherlock_list(all.take(0)));
    for e in it: raw
        invariant
            it.seq() == given,
            all == entry_views(given),
            table::viewed(r@) == sherlock_list(all.take(it.index() as int)),
    {
        let ghost n = it.index() as int;
        assert(all.take(n + 1).drop_last() =~= all.take(n));
        let (name, value) = e;
        let ghost key = name@;
        assert(all[n] == (key, sites::opt_view(value)));
        let ghost before = r@;
        match value {
            Some(site) => {
                if !str_eq(name.as_str(), "$schema") {
                    let compiled = compile_rules(site);
                    r.insert(name, compiled);
                    proof {
                        table::viewed_put(before, key, compiled);
                    }
                }
            },
            None => {},
        }
    }
    assert(all.take(all.len() as int) =~= all);
    r
}

/// A site in the format of WhatsMyName.
#[derive(Debug)]
pub struct WmnSite {
    pub name: String,
    pub uri_check: String,
    pub e_code: Option<u16>,
    pub e_string: Option<String>,
    pub m_code: Option<u16>,
    pub m_string: Option<String>,
    pub cat: Option<String>,
    pub post_body: Option<String>,
}

/// The view of a `WmnSite`.
pub struct WmnView {
    pub name: Seq<char>,
    pub uri_check: Seq<char>,
    pub e_code: Option<u16>,
    pub e_string: Option<Seq<char>>,
    pub m_code: Option<u16>,
    pub m_string: Option<Seq<char>>,
    pub cat: Option<Seq<char>>,
    pub post_body: Option<Seq<char>>,
}

impl View for WmnSite {
    type V = WmnView;

    open spec fn view(&self) -> WmnView {
        WmnView {
            name: self.name@,
            uri_check: self.uri_check@,
            e_code: self.e_code,
            e_string: text::opt_text(self.e_string),
            m_code: self.m_code,
            m_string: text::opt_text(self.m_string),
            cat: text::opt_text(self.cat),
            post_body: text::opt_text(self.post_body),
        }
    }
}

/// A site of which nothing is known but its URLs and where it came from.
pub open spec fn bare_site(url: Seq<char>, url_main: Seq<char>, source: SiteSource) -> SiteView {
    SiteView {
        error_msg: None,
        error_type: Seq::empty(),
        error_code: None,
        error_url: None,
        url,
        url_main,
        url_probe: None,
        username_claimed: None,
        username_unclaimed: None,
        regex_check: None,
        is_nsfw: None,
        headers: None,
        request_method: None,
        request_payload: None,
        compiled_regex: None,
        detection: None,
        extractors: Seq::empty(),
        categories: Seq::empty(),
        source,
        compiled_extractors: Seq::empty(),
    }
}

fn make_bare(url: String, url_main: String, source: SiteSource) -> (r: SiteData)
    ensures
        r@ == bare_site(url@, url_main@, source),
{
    let r = SiteData {
        error_msg: None,
        error_type: String::new(),
        error_code: None,
        error_url: None,
        url,
        url_main,
        url_probe: None,
        username_claimed: None,
        username_unclaimed: None,
        regex_check: None,
        is_nsfw: None,
        headers: None,
        request_method: None,
        request_payload: None,
        compiled_regex: None,
        detection: None,
        extractors: Vec::new(),
        categories: Vec::new(),
        source,
        compiled_extractors: Vec::new(),
    };
    assert(r@ =~= bare_site(url@, url_main@, source));
    r
}

/// The root page of the site that a URL leads to: its domain, or the URL itself
/// where it has none.
pub open spec fn root_of(url: Seq<char>) -> Seq<char> {
    match sites::normalized(url) {
        Some(d) => "https://"@ + d,
        None => url,
    }
}

/// A WhatsMyName site as a site description: the place of the username is
/// marked `{}`, the two patterns judge the response, and a body makes the
/// request a POST.
pub open spec fn wmn_site(w: WmnView) -> SiteView {
    let url = text::replace_all(w.uri_check, "{account}"@, "{}"@);
    SiteView {
        error_type: sites::dual_pattern(),
        request_method: if w.post_body is Some {
            Some("POST"@)
        } else {
            None
        },
        request_payload: match w.post_body {
            Some(b) => Some(outside::json_string_of(b)),
            None => None,
        },
        detection: Some(
            DetectionView {
                e_code: w.e_code,
                e_string: w.e_string,
                m_code: w.m_code,
                m_string: w.m_string,
            },
        ),
        categories: match w.cat {
            Some(c) => seq![c],
            None => Seq::empty(),
        },
        ..bare_site(url, root_of(url), SiteSource::Whatsmyname)
    }
}

/// A WhatsMyName site as a site description.
pub fn convert_wmn(w: WmnSite) -> (r: (String, SiteData))
    ensures
        r.0@ == w@.name,
        r.1@ == wmn_site(w@),
{
    proof {
        reveal_strlit("{account}");
    }
    let url = replace(w.uri_check.as_str(), "{account}", "{}");
    let url_main = match normalize_domain(url.as_str()) {
        Some(d) => {
            let mut s: String = "https://".to_string();
            s.append(d.as_str());
            s
        },
        None => url.clone(),
    };
    let mut site = make_bare(url, url_main, SiteSource::Whatsmyname);
    site.error_type = "dual_pattern".to_string();
    match w.post_body {
        Some(b) => {
            site.request_method = Some("POST".to_string());
            site.request_payload = Some(json_string(b.as_str()));
        },
        None => {},
    }
    site.detection =
    Some(
        Detection {
            e_code: w.e_code,
            e_string: w.e_string,
            m_code: w.m_code,
            m_string: w.m_string,
        },
    );
    match w.cat {
        Some(c) => {
            let mut v: Vec<String> = Vec::new();
            v.push(c);
            site.categories = v;
        },
        None => {},
    }
    assert(site@ =~= wmn_site(w@));
    (w.name, site)
}

/// A list in the format of WhatsMyName.
pub open spec fn wmn_list(raw: Seq<WmnView>) -> Seq<(Seq<char>, SiteView)>
    decreases raw.len(),
{
    if raw.len() == 0 {
        Seq::empty()
    } else {
        table::put(wmn_list(raw.drop_last()), raw.last().name, wmn_site(raw.last()))
    }
}

/// Reads a list in the format of WhatsMyName.
pub fn parse_wmn(raw: Vec<WmnSite>) -> (r: Table<SiteData>)
    ensures
        table::viewed(r@) == wmn_list(sites::views(raw@)),
{
    let mut r: Table<SiteData> = Table::new();
    let ghost given = raw@;
    let ghost all = sites::views(given);
    assert(table::viewed(r@) =~= wmn_list(all.take(0)));
    for w in it: raw
        invariant
            it.seq() == given,
            all == sites::views(given),
            table::viewed(r@) == wmn_list(all.take(it.index() as int)),
    {
        let ghost n = it.index() as int;
        assert(all.take(n + 1).drop_last() =~= all.take(n));
        let ghost before = r@;
        let (name, site) = convert_wmn(w);
        let ghost key = name@;
        r.insert(name, site);
        proof {
            table::viewed_put(before, key, site);
        }
    }
    assert(all.take(all.len() as int) =~= all);
    r
}

/// A site in the simplified format of Maigret.
#[derive(Debug)]
pub struct MaigretSiteEntry {
    pub url: String,
    pub url_main: String,
    pub categories: Vec<String>,
    pub detection: Option<Detection>,
    pub extractors: Vec<Extractor>,
}

/// The view of a `MaigretSiteEntry`.
pub struct MaigretView {
    pub url: Seq<char>,
    pub url_main: Seq<char>,
    pub categories: Seq<Seq<char>>,
    pub detection: Option<DetectionView>,
    pub extractors: Seq<ExtractorView>,
}

impl View for MaigretSiteEntry {
    type V = MaigretView;

    open spec fn view(&self) -> MaigretView {
        MaigretView {
            url: self.url@,
            url_main: self.url_main@,
            categories: text::texts(self.categories@),
            detection: sites::opt_view(self.detection),
            extractors: sites::views(self.extractors@),
        }
    }
}

/// A Maigret site as a site description, with canonical extractors only.
pub open spec fn maigret_site(m: MaigretView) -> SiteView {
    SiteView {
        error_type: if m.detection is Some {
            sites::dual_pattern()
        } else {
            "status_code"@
        },
        detection: m.detection,
        extractors: canonical_only(m.extractors),
        categories: m.categories,
        ..bare_site(m.url, m.url_main, SiteSource::Maigret)
    }
}

/// A Maigret site as a site description.
pub fn convert_maigret(m: MaigretSiteEntry) -> (r: SiteData)
    ensures
        r@ == maigret_site(m@),
{
    let mut site = make_bare(m.url, m.url_main, SiteSource::Maigret);
    site.error_type =
    (if m.detection.is_some() {
        "dual_pattern"
    } else {
        "status_code"
    }).to_string();
    site.detection = m.detection;
    site.extractors = keep_canonical(m.extractors);
    site.categories = m.categories;
    assert(site@ =~= maigret_site(m@));
    site
}

/// A list in the simplified format of Maigret: the entries that have the right
/// shape and whose name does not begin with an underscore.
pub open spec fn maigret_list(raw: Seq<(Seq<char>, Option<MaigretView>)>) -> Seq<
    (Seq<char>, SiteView),
>
    decreases raw.len(),
{
    if raw.len() == 0 {
        Seq::empty()
    } else {
        let before = maigret_list(raw.drop_last());
        let (name, value) = raw.last();
        match value {
            Some(m) => if !text::starts_with(name, "_"@) {
                table::put(before, name, maigret_site(m))
            } else {
                before
            },
            None => before,
        }
    }
}

/// Reads a list in the simplified format of Maigret.
pub fn parse_maigret(raw: Vec<Entry<MaigretSiteEntry>>) -> (r: Table<SiteData>)
    ensures
        table::viewed(r@) == maigret_list(entry_views(raw@)),
{
    let mut r: Table<SiteData> = Table::new();
    let ghost given = raw@;
    let ghost all = entry_views(given);
    assert(table::viewed(r@) =~= maigret_list(all.take(0)));
    for e in it: raw
        invariant
            it.seq() == given,
            all == entry_views(given),
            table::viewed(r@) == maigret_list(all.take(it.index() as int)),
    {
        let ghost n = it.index() as int;
        assert(all.take(n + 1).drop_last() =~= all.take(n));
        let (name, value) = e;
        let ghost key = name@;
        assert(all[n] == (key, sites::opt_view(value)));
        let ghost before = r@;
        match value {
            Some(m) => {
                if !str_starts_with(name.as_str(), "_") {
                    let site = convert_maigret(m);
                    r.insert(name, site);
                    proof {
                        table::viewed_put(before, key, site);
                    }
                }
            },
            None => {},
        }
    }
    assert(all.take(all.len() as int) =~= all);
    r
}

/// A list with the rules of each site checked.
pub open spec fn rules_checked(t: Seq<(Seq<char>, SiteView)>) -> Seq<(Seq<char>, SiteView)> {
    t.map_values(|e: (Seq<char>, SiteView)| (e.0, with_rules(e.1)))
}

/// A site of the built-in list: never shown unless adult sites are asked for.
pub open spec fn as_custom(site: SiteView) -> SiteView {
    SiteView { is_nsfw: Some(true), source: SiteSource::Custom, ..site }
}

/// The built-in list.
pub open spec fn custom_list(t: Seq<(Seq<char>, SiteView)>) -> Seq<(Seq<char>, SiteView)> {
    t.map_values(|e: (Seq<char>, SiteView)| (e.0, as_custom(e.1)))
}

/// Checks the rules of every site of a list.
pub fn compile_list(t: Table<SiteData>) -> (r: Table<SiteData>)
    ensures
        table::viewed(r@) == rules_checked(table::viewed(t@)),
{
    let n: usize = t.len();
    let ghost given = t@;
    let ghost all = table::viewed(given);
    let entries = t.into_entries();
    let ghost list = entries@;
    let mut r: Table<SiteData> = Table::new();
    assert(table::viewed(r@) =~= rules_checked(all.take(0)));
    for e in it: entries
        invariant
            it.seq() == list,
            list.len() == given.len(),
            all == table::viewed(given),
            table::distinct_keys(given),
            forall|i: int|
                0 <= i < list.len() ==> (#[trigger] list[i]).0@ == given[i].0 && list[i].1
                    == given[i].1,
            table::viewed(r@) == rules_checked(all.take(it.index() as int)),
    {
        let ghost i = it.index() as int;
        let ghost before = r@;
        let (name, site) = e;
        let ghost key = name@;
        assert(all[i] == (key, site@));
        let compiled = compile_rules(site);
        r.insert(name, compiled);
        proof {
            table::viewed_put(before, key, compiled);
            if table::has_key(before, key) {
                let j = table::position(before, key);
                assert(table::key_at(before, key, j));
                assert(table::viewed(before)[j] == rules_checked(all.take(i))[j]);
                assert(given[j].0 == given[i].0);
            }
            assert(table::viewed(r@) =~= rules_checked(all.take(i + 1)));
        }
    }
    assert(all.take(all.len() as int) =~= all);
    r
}

/// Marks the sites of the built-in list.
pub fn mark_custom(t: Table<SiteData>) -> (r: Table<SiteData>)
    ensures
        table::viewed(r@) == custom_list(table::viewed(t@)),
{
    let n: usize = t.len();
    let ghost given = t@;
    let ghost all = table::viewed(given);
    let entries = t.into_entries();
    let ghost list = entries@;
    let mut r: Table<SiteData> = Table::new();
    assert(table::viewed(r@) =~= custom_list(all.take(0)));
    for e in it: entries
        invariant
            it.seq() == list,
            list.len() == given.len(),
            all == table::viewed(given),
            table::distinct_keys(given),
            forall|i: int|
                0 <= i < list.len() ==> (#[trigger] list[i]).0@ == given[i].0 && list[i].1
                    == given[i].1,
            table::viewed(r@) == custom_list(all.take(it.index() as int)),
    {
        let ghost i = it.index() as int;
        let ghost before = r@;
        let (name, site) = e;
        let ghost key = name@;
        let ghost plain = site@;
        assert(all[i] == (key, plain));
        let mut custom = site;
        custom.is_nsfw = Some(true);
        custom.source = SiteSource::Custom;
        assert(custom@ =~= as_custom(plain));
        let ghost marked = custom;
        r.insert(name, custom);
        proof {
            table::viewed_put(before, key, marked);
            if table::has_key(before, key) {
                let j = table::position(before, key);
                assert(table::key_at(before, key, j));
                assert(table::viewed(before)[j] == custom_list(all.take(i))[j]);
                assert(given[j].0 == given[i].0);
            }
            assert(table::viewed(r@) =~= custom_list(all.take(i + 1)));
        }
    }
    assert(all.take(all.len() as int) =~= all);
    r
}

/// `base` with each entry of `list` put over it.
pub open spec fn overlaid(
    base: Seq<(Seq<char>, SiteView)>,
    list: Seq<(Seq<char>, SiteView)>,
) -> Seq<(Seq<char>, SiteView)>
    decreases list.len(),
{
    if list.len() == 0 {
        base
    } else {
        table::put(overlaid(base, list.drop_last()), list.last().0, list.last().1)
    }
}

/// `base` with the lists of the override files put over it, one after another.
pub open spec fn overridden(
    base: Seq<(Seq<char>, SiteView)>,
    files: Seq<Seq<(Seq<char>, Option<SiteView>)>>,
) -> Seq<(Seq<char>, SiteView)>
    decreases files.len(),
{
    if files.len() == 0 {
        base
    } else {
        overlaid(overridden(base, files.drop_last()), sherlock_list(files.last()))
    }
}

/// Puts each entry of `list` over `base`.
pub fn overlay(base: &mut Table<SiteData>, list: Table<SiteData>)
    ensures
        table::viewed(final(base)@) == overlaid(table::viewed(old(base)@), table::viewed(list@)),
{
    let ghost before = table::viewed(base@);
    let ghost given = list@;
    let ghost all = table::viewed(given);
    let entries = list.into_entries();
    let ghost seq = entries@;
    assert(table::viewed(base@) =~= overlaid(before, all.take(0)));
    for e in it: entries
        invariant
            it.seq() == seq,
            seq.len() == given.len(),
            all == table::viewed(given),
            forall|i: int|
                0 <= i < seq.len() ==> (#[trigger] seq[i]).0@ == given[i].0 && seq[i].1
                    == given[i].1,
            table::viewed(base@) == overlaid(before, all.take(it.index() as int)),
    {
        let ghost i = it.index() as int;
        let ghost prior = base@;
        let (name, site) = e;
        let ghost key = name@;
        assert(all[i] == (key, site@));
        assert(all.take(i + 1).drop_last() =~= all.take(i));
        base.insert(name, site);
        proof {
            table::viewed_put(prior, key, site);
        }
    }
    assert(all.take(all.len() as int) =~= all);
}

/// The views of the lists of the override files.
pub open spec fn file_views(files: Seq<Vec<Entry<SiteData>>>) -> Seq<
    Seq<(Seq<char>, Option<SiteView>)>,
> {
    files.map_values(|f: Vec<Entry<SiteData>>| entry_views(f@))
}

/// Puts the lists of the override files over `base`, one after another.
pub fn apply_overrides(base: &mut Table<SiteData>, files: Vec<Vec<Entry<SiteData>>>)
    ensures
        table::viewed(final(base)@) == overridden(
            table::viewed(old(base)@),
            file_views(files@),
        ),
{
    let ghost before = table::viewed(base@);
    let ghost given = files@;
    let ghost all = file_views(given);
    assert(table::viewed(base@) =~= overridden(before, all.take(0)));
    for f in it: files
        invariant
            it.seq() == given,
            all == file_views(given),
            table::viewed(base@) == overridden(before, all.take(it.index() as int)),
    {
        assert(all.take(it.index() + 1).drop_last() =~= all.take(it.index() as int));
        let list = parse_sherlock(f);
        overlay(base, list);
    }
    assert(all.take(all.len() as int) =~= all);
}

/// What came from each source: a list, or why there is none. A built-in list or
/// an override file that cannot be read is left out.
#[derive(Debug)]
pub struct Sources {
    pub sherlock: Result<Vec<Entry<SiteData>>, String>,
    pub whatsmyname: Result<Vec<WmnSite>, String>,
    pub maigret: Result<Vec<Entry<MaigretSiteEntry>>, String>,
    pub custom: Option<Vec<Entry<SiteData>>>,
    pub overrides: Vec<Vec<Entry<SiteData>>>,
}

/// The view of `Sources`.
pub struct SourcesView {
    pub sherlock: Result<Seq<(Seq<char>, Option<SiteView>)>, Seq<char>>,
    pub whatsmyname: Result<Seq<WmnView>, Seq<char>>,
    pub maigret: Result<Seq<(Seq<char>, Option<MaigretView>)>, Seq<char>>,
    pub custom: Option<Seq<(Seq<char>, Option<SiteView>)>>,
    pub overrides: Seq<Seq<(Seq<char>, Option<SiteView>)>>,
}

impl View for Sources {
    type V = SourcesView;

    open spec fn view(&self) -> SourcesView {
        SourcesView {
            sherlock: match self.sherlock {
                Ok(v) => Ok(entry_views(v@)),
                Err(e) => Err(e@),
            },
            whatsmyname: match self.whatsmyname {
                Ok(v) => Ok(sites::views(v@)),
                Err(e) => Err(e@),
            },
            maigret: match self.maigret {
                Ok(v) => Ok(entry_views(v@)),
                Err(e) => Err(e@),
            },
            custom: match self.custom {
                Some(v) => Some(entry_views(v@)),
                None => None,
            },
            overrides: file_views(self.overrides@),
        }
    }
}

/// The sites of the three upstream lists, one merged into the other.
pub open spec fn from_upstreams(s: SourcesView) -> Seq<(Seq<char>, SiteView)> {
    let first = match s.sherlock {
        Ok(raw) => sherlock_list(raw),
        Err(_) => Seq::empty(),
    };
    let second = match s.whatsmyname {
        Ok(raw) => sites::merged_into(first, wmn_list(raw)),
        Err(_) => first,
    };
    match s.maigret {
        Ok(raw) => sites::merged_into(second, maigret_list(raw)),
        Err(_) => second,
    }
}

/// All sites: those of the upstream lists, under the built-in ones, under those
/// of the override files.
pub open spec fn layered(s: SourcesView) -> Seq<(Seq<char>, SiteView)> {
    let base = from_upstreams(s);
    let with_custom = match s.custom {
        Some(raw) => overlaid(base, custom_list(sherlock_list(raw))),
        None => base,
    };
    overridden(with_custom, s.overrides)
}

/// What an upstream list that could not be had adds to the errors.
pub open spec fn source_error<T>(name: Seq<char>, r: Result<T, Seq<char>>) -> Seq<Seq<char>> {
    match r {
        Ok(_) => Seq::empty(),
        Err(e) => seq![name + ": "@ + e],
    }
}

/// Why upstream lists are missing.
pub open spec fn source_errors(s: SourcesView) -> Seq<Seq<char>> {
    source_error("sherlock"@, s.sherlock) + source_error("whatsmyname"@, s.whatsmyname)
        + source_error("maigret"@, s.maigret)
}

/// How many sites an upstream list brought.
pub open spec fn source_counts(s: SourcesView) -> (nat, nat, nat) {
    (
        match s.sherlock {
            Ok(raw) => sherlock_list(raw).len(),
            Err(_) => 0,
        },
        match s.whatsmyname {
            Ok(raw) => wmn_list(raw).len(),
            Err(_) => 0,
        },
        match s.maigret {
            Ok(raw) => maigret_list(raw).len(),
            Err(_) => 0,
        },
    )
}

/// The site list, and what is noted of how it came about.
#[derive(Debug)]
pub struct Assembled {
    pub sites: Table<SiteData>,
    pub sherlock_count: usize,
    pub wmn_count: usize,
    pub maigret_count: usize,
    pub errors: Vec<String>,
}

fn note_error(errors: &mut Vec<String>, name: &str, error: &String)
    ensures
        text::texts(final(errors)@) == text::texts(old(errors)@).push(name@ + ": "@ + error@),
{
    let ghost before = errors@;
    let mut e: String = name.to_string();
    e.append(": ");
    e.append(error.as_str());
    errors.push(e);
    assert(text::texts(errors@) =~= text::texts(before).push(name@ + ": "@ + error@));
}

/// What is reported where no source brought a site.
pub open spec fn nothing_loaded(errors: Seq<Seq<char>>) -> Seq<char> {
    "no sites loaded from any source; errors: ["@ + text::joined(errors, "; "@) + "]"@
}

/// The site list that is made of all sources, or why there is none.
pub open spec fn assembled_of(s: SourcesView) -> Result<Seq<(Seq<char>, SiteView)>, Seq<char>> {
    if layered(s).len() > 0 {
        Ok(rules_checked(layered(s)))
    } else {
        Err(nothing_loaded(source_errors(s)))
    }
}

/// Makes one list of all sources. An upstream list that could not be had is
/// noted and passed over; only where no site is left is that an error.
pub fn assemble(sources: Sources) -> (r: Result<Assembled, String>)
    ensures
        match r {
            Ok(a) => {
                &&& layered(sources@).len() > 0
                &&& table::viewed(a.sites@) == rules_checked(layered(sources@))
                &&& (a.sherlock_count as nat, a.wmn_count as nat, a.maigret_count as nat)
                    == source_counts(sources@)
                &&& text::texts(a.errors@) == source_errors(sources@)
            },
            Err(e) => {
                &&& layered(sources@).len() == 0
                &&& e@ == nothing_loaded(source_errors(sources@))
            },
        },
        assembled_of(sources@) == match r {
            Ok(a) => Ok(table::viewed(a.sites@)),
            Err(e) => Err(e@),
        },
{
    let ghost given = sources@;
    let mut sherlock_count: usize = 0;
    let mut wmn_count: usize = 0;
    let mut maigret_count: usize = 0;
    let mut errors: Vec<String> = Vec::new();
    let mut list: Table<SiteData> = Table::new();
    assert(table::viewed(list@) =~= Seq::<(Seq<char>, SiteView)>::empty());
    assert(text::texts(errors@) =~= Seq::<Seq<char>>::empty());
    match sources.sherlock {
        Ok(raw) => {
            list = parse_sherlock(raw);
            sherlock_count = list.len();
        },
        Err(e) => note_error(&mut errors, "sherlock", &e),
    }
    assert(text::texts(errors@) =~= source_error("sherlock"@, given.sherlock));
    match sources.whatsmyname {
        Ok(raw) => {
            let incoming = parse_wmn(raw);
            wmn_count = incoming.len();
            merge_into(&mut list, incoming);
        },
        Err(e) => note_error(&mut errors, "whatsmyname", &e),
    }
    assert(text::texts(errors@) =~= source_error("sherlock"@, given.sherlock) + source_error(
        "whatsmyname"@,
        given.whatsmyname,
    ));
    match sources.maigret {
        Ok(raw) => {
            let incoming = parse_maigret(raw);
            maigret_count = incoming.len();
            merge_into(&mut list, incoming);
        },
        Err(e) => note_error(&mut errors, "maigret", &e),
    }
    assert(text::texts(errors@) =~= source_errors(given));
    assert(table::viewed(list@) == from_upstreams(given));
    match sources.custom {
        Some(raw) => {
            let plain = parse_sherlock(raw);
            let custom = mark_custom(plain);
            overlay(&mut list, custom);
        },
        None => {},
    }
    apply_overrides(&mut list, sources.overrides);
    assert(table::viewed(list@) == layered(given));
    if list.is_empty() {
        let mut e: String = "no sites loaded from any source; errors: [".to_string();
        let reasons = join(&errors, "; ");
        e.append(reasons.as_str());
        e.append("]");
        return Err(e);
    }
    let compiled = compile_list(list);
    Ok(Assembled { sites: compiled, sherlock_count, wmn_count, maigret_count, errors })
}

/// Where the site list comes from at start.
#[derive(Debug, Clone, Copy, PartialEq, Eq, Structural)]
pub enum LoadPlan {
    /// From the cache of the assembled list.
    Merged,
    /// From the older cache, while the assembled list is fetched for the next
    /// start.
    LegacyAndRefresh,
    /// From the sources.
    Download,
}

/// Where the site list comes from, given which caches there are.
pub open spec fn load_plan_of(merged_exists: bool, legacy_exists: bool) -> LoadPlan {
    if merged_exists {
        LoadPlan::Merged
    } else if legacy_exists {
        LoadPlan::LegacyAndRefresh
    } else {
        LoadPlan::Download
    }
}

/// What a reply to a list download comes to.
pub open spec fn fetch_error_of(status_code: u16, shown: Seq<char>, url: Seq<char>) -> Option<
    Seq<char>,
> {
    if 200 <= status_code < 300 {
        None
    } else {
        Some("HTTP "@ + shown + " from "@ + url)
    }
}

/// Where the site list comes from, given which caches there are.
pub fn plan_load(merged_exists: bool, legacy_exists: bool) -> (r: LoadPlan)
    ensures
        merged_exists ==> r == LoadPlan::Merged,
        !merged_exists && legacy_exists ==> r == LoadPlan::LegacyAndRefresh,
        !merged_exists && !legacy_exists ==> r == LoadPlan::Download,
        r == load_plan_of(merged_exists, legacy_exists),
{
    if merged_exists {
        LoadPlan::Merged
    } else if legacy_exists {
        LoadPlan::LegacyAndRefresh
    } else {
        LoadPlan::Download
    }
}

/// Reads a cached list and puts the override files over it.
pub fn load_cached(raw: Vec<Entry<SiteData>>, overrides: Vec<Vec<Entry<SiteData>>>) -> (r: Table<
    SiteData,
>)
    ensures
        table::viewed(r@) == overridden(
            sherlock_list(entry_views(raw@)),
            file_views(overrides@),
        ),
{
    let mut r = parse_sherlock(raw);
    apply_overrides(&mut r, overrides);
    r
}

/// What a reply to a list download comes to: nothing to object to, or the error
/// to report. `shown` is the status as it is printed.
pub fn fetch_error(status_code: u16, shown: &str, url: &str) -> (r: Option<String>)
    ensures
        match r {
            None => 200 <= status_code < 300,
            Some(e) => !(200 <= status_code < 300) && e@ == "HTTP "@ + shown@ + " from "@ + url@,
        },
        text::opt_text(r) == fetch_error_of(status_code, shown@, url@),
{
    if 200 <= status_code && status_code < 300 {
        None
    } else {
        let mut e: String = "HTTP ".to_string();
        e.append(shown);
        e.append(" from ");
        e.append(url);
        Some(e)
    }
}

proof fn nothing_is_in_an_empty_list<V>(t: Seq<(Seq<char>, V)>)
    requires
        t.len() == 0,
    ensures
        table::distinct_keys(t),
        forall|k: Seq<char>| !#[trigger] table::has_key(t, k),
{
    assert forall|k: Seq<char>| !#[trigger] table::has_key(t, k) by {
        assert(forall|i: int| !#[trigger] table::key_at(t, k, i));
    }
}

/// Checking the rules of a site again changes nothing: what was kept beside the
/// sources need not be stored.
pub proof fn rules_are_checked_once(site: SiteView)
    ensures
        with_rules(with_rules(site)) == with_rules(site),
        with_rules(SiteView { compiled_regex: None, compiled_extractors: Seq::empty(), ..site })
            == with_rules(site),
{
    only_canonical_are_kept(site.extractors);
    canonical_are_all_kept(canonical_only(site.extractors));
}

/// A list in the format of Sherlock's `data.json` names each site once, and does
/// not hold `$schema`; the rules of each of its sites are checked.
pub proof fn schema_is_no_site(raw: Seq<(Seq<char>, Option<SiteView>)>)
    ensures
        table::distinct_keys(sherlock_list(raw)),
        !table::has_key(sherlock_list(raw), "$schema"@),
        forall|k: Seq<char>|
            table::has_key(sherlock_list(raw), k) ==> exists|i: int|
                0 <= i < raw.len() && (#[trigger] raw[i]).0 == k && raw[i].1 is Some && (
                #[trigger] table::lookup(sherlock_list(raw), k)) == Some(with_rules(raw[i].1->0)),
    decreases raw.len(),
{
    if raw.len() == 0 {
        nothing_is_in_an_empty_list(sherlock_list(raw));
    } else {
        let rest = raw.drop_last();
        let before = sherlock_list(rest);
        let now = sherlock_list(raw);
        let (name, value) = raw.last();
        schema_is_no_site(rest);
        if value is Some && name != "$schema"@ {
            table::put_changes_one_key(before, name, with_rules(value->0));
        }
        assert forall|k: Seq<char>| table::has_key(now, k) implies exists|i: int|
            0 <= i < raw.len() && (#[trigger] raw[i]).0 == k && raw[i].1 is Some && (
            #[trigger] table::lookup(now, k)) == Some(with_rules(raw[i].1->0)) by {
            if value is Some && name != "$schema"@ && k == name {
                assert(raw[raw.len() - 1].0 == k);
            } else {
                assert(table::has_key(before, k));
                assert(table::lookup(now, k) == table::lookup(before, k));
                let i = choose|i: int|
                    0 <= i < rest.len() && (#[trigger] rest[i]).0 == k && rest[i].1 is Some && (
                    #[trigger] table::lookup(before, k)) == Some(with_rules(rest[i].1->0));
                assert(raw[i] == rest[i]);
            }
        }
    }
}

/// Every site of a WhatsMyName list is judged by a detection rule.
pub proof fn whatsmyname_sites_have_detection(raw: Seq<WmnView>)
    ensures
        table::distinct_keys(wmn_list(raw)),
        forall|i: int|
            0 <= i < wmn_list(raw).len() ==> {
                let s = (#[trigger] wmn_list(raw)[i]).1;
                s.detection is Some && s.error_type == sites::dual_pattern() && s.source
                    == SiteSource::Whatsmyname
            },
    decreases raw.len(),
{
    if raw.len() > 0 {
        let before = wmn_list(raw.drop_last());
        let now = wmn_list(raw);
        whatsmyname_sites_have_detection(raw.drop_last());
        table::put_changes_one_key(before, raw.last().name, wmn_site(raw.last()));
        assert forall|i: int| 0 <= i < now.len() implies {
            let s = (#[trigger] now[i]).1;
            s.detection is Some && s.error_type == sites::dual_pattern() && s.source
                == SiteSource::Whatsmyname
        } by {
            if table::has_key(before, raw.last().name) {
                let at = table::position(before, raw.last().name);
                assert(table::key_at(before, raw.last().name, at));
                if i != at {
                    assert(now[i] == before[i]);
                }
            } else if i < before.len() {
                assert(now[i] == before[i]);
            }
        }
    }
}

proof fn only_canonical_are_kept(exs: Seq<ExtractorView>)
    ensures
        forall|i: int|
            0 <= i < canonical_only(exs).len() ==> sites::canonical_fields().contains(
                (#[trigger] canonical_only(exs)[i]).field,
            ),
    decreases exs.len(),
{
    if exs.len() > 0 {
        only_canonical_are_kept(exs.drop_last());
        let before = canonical_only(exs.drop_last());
        let now = canonical_only(exs);
        assert forall|i: int| 0 <= i < now.len() implies sites::canonical_fields().contains(
            (#[trigger] now[i]).field,
        ) by {
            if i < before.len() {
                assert(now[i] == before[i]);
            }
        }
    }
}

proof fn canonical_are_all_kept(exs: Seq<ExtractorView>)
    requires
        forall|i: int|
            0 <= i < exs.len() ==> sites::canonical_fields().contains((#[trigger] exs[i]).field),
    ensures
        canonical_only(exs) == exs,
    decreases exs.len(),
{
    if exs.len() > 0 {
        let rest = exs.drop_last();
        assert forall|i: int| 0 <= i < rest.len() implies sites::canonical_fields().contains(
            (#[trigger] rest[i]).field,
        ) by {
            assert(rest[i] == exs[i]);
        }
        canonical_are_all_kept(rest);
        assert(exs[exs.len() - 1] == exs.last());
        assert(rest.push(exs.last()) =~= exs);
    } else {
        assert(canonical_only(exs) =~= exs);
    }
}

/// Whether of a page of the site only canonical fields can be extracted.
pub open spec fn yields_canonical_fields(site: SiteView) -> bool {
    forall|body: Seq<char>, k: Seq<char>| #[trigger]
        table::has_key(extract::extracted(body, site.compiled_extractors), k)
            ==> sites::canonical_fields().contains(k)
}

/// Of a page of a site whose rules were checked only canonical fields are ever
/// extracted, whatever fields its rules name and whichever list it is from.
pub proof fn only_canonical_fields_are_ever_extracted(site: SiteView)
    ensures
        forall|body: Seq<char>, k: Seq<char>| #[trigger]
            table::has_key(extract::extracted(body, with_rules(site).compiled_extractors), k)
                ==> sites::canonical_fields().contains(k),
        yields_canonical_fields(with_rules(site)),
{
    only_canonical_are_kept(site.extractors);
    assert forall|body: Seq<char>, k: Seq<char>| #[trigger]
        table::has_key(
            extract::extracted(body, with_rules(site).compiled_extractors),
            k,
        ) implies sites::canonical_fields().contains(k) by {
        extract::only_canonical_fields_are_extracted(body, canonical_only(site.extractors));
    }
}

/// Whether of a page of any site of the list only canonical fields can be
/// extracted.
pub open spec fn all_yield_canonical_fields(t: Seq<(Seq<char>, SiteView)>) -> bool {
    forall|i: int| 0 <= i < t.len() ==> yields_canonical_fields((#[trigger] t[i]).1)
}

proof fn put_keeps_fields_canonical(t: Seq<(Seq<char>, SiteView)>, k: Seq<char>, site: SiteView)
    requires
        all_yield_canonical_fields(t),
        yields_canonical_fields(site),
    ensures
        all_yield_canonical_fields(table::put(t, k, site)),
{
    let now = table::put(t, k, site);
    assert forall|i: int| 0 <= i < now.len() implies yields_canonical_fields(
        (#[trigger] now[i]).1,
    ) by {
        if table::has_key(t, k) {
            let at = table::position(t, k);
            assert(table::key_at(t, k, at));
            if i != at {
                assert(now[i] == t[i]);
            }
        } else if i < t.len() {
            assert(now[i] == t[i]);
        }
    }
}

proof fn sherlock_lists_yield_canonical_fields(raw: Seq<(Seq<char>, Option<SiteView>)>)
    ensures
        all_yield_canonical_fields(sherlock_list(raw)),
    decreases raw.len(),
{
    if raw.len() > 0 {
        let (name, value) = raw.last();
        sherlock_lists_yield_canonical_fields(raw.drop_last());
        if value is Some && name != "$schema"@ {
            only_canonical_fields_are_ever_extracted(value->0);
            put_keeps_fields_canonical(
                sherlock_list(raw.drop_last()),
                name,
                with_rules(value->0),
            );
        }
    }
}

proof fn overlaid_lists_yield_canonical_fields(
    base: Seq<(Seq<char>, SiteView)>,
    list: Seq<(Seq<char>, SiteView)>,
)
    requires
        all_yield_canonical_fields(base),
        all_yield_canonical_fields(list),
    ensures
        all_yield_canonical_fields(overlaid(base, list)),
    decreases list.len(),
{
    if list.len() > 0 {
        let rest = list.drop_last();
        assert(all_yield_canonical_fields(rest)) by {
            assert forall|i: int| 0 <= i < rest.len() implies yields_canonical_fields(
                (#[trigger] rest[i]).1,
            ) by {
                assert(rest[i] == list[i]);
            }
        }
        overlaid_lists_yield_canonical_fields(base, rest);
        assert(yields_canonical_fields(list[list.len() - 1].1));
        put_keeps_fields_canonical(overlaid(base, rest), list.last().0, list.last().1);
    }
}

/// Of a page of a site that was loaded from a cache, override files included,
/// only canonical fields are ever extracted.
pub proof fn cached_sites_yield_canonical_fields(
    raw: Seq<(Seq<char>, Option<SiteView>)>,
    files: Seq<Seq<(Seq<char>, Option<SiteView>)>>,
)
    ensures
        all_yield_canonical_fields(overridden(sherlock_list(raw), files)),
    decreases files.len(),
{
    if files.len() == 0 {
        sherlock_lists_yield_canonical_fields(raw);
    } else {
        cached_sites_yield_canonical_fields(raw, files.drop_last());
        sherlock_lists_yield_canonical_fields(files.last());
        overlaid_lists_yield_canonical_fields(
            overridden(sherlock_list(raw), files.drop_last()),
            sherlock_list(files.last()),
        );
    }
}

/// Of a page of a site of the assembled list, whatever source it is from, only
/// canonical fields are ever extracted.
pub proof fn assembled_sites_yield_canonical_fields(s: SourcesView)
    ensures
        all_yield_canonical_fields(rules_checked(layered(s))),
{
    let list = layered(s);
    let now = rules_checked(list);
    assert forall|i: int| 0 <= i < now.len() implies yields_canonical_fields(
        (#[trigger] now[i]).1,
    ) by {
        only_canonical_fields_are_ever_extracted(list[i].1);
        assert(now[i].1 == with_rules(list[i].1));
    }
}

/// A Maigret list names each site once, and none whose name begins with an
/// underscore.
pub proof fn underscored_names_are_no_sites(raw: Seq<(Seq<char>, Option<MaigretView>)>)
    ensures
        table::distinct_keys(maigret_list(raw)),
        forall|k: Seq<char>| #[trigger]
            table::has_key(maigret_list(raw), k) ==> !text::starts_with(k, "_"@),
    decreases raw.len(),
{
    if raw.len() == 0 {
        nothing_is_in_an_empty_list(maigret_list(raw));
    } else {
        let (name, value) = raw.last();
        underscored_names_are_no_sites(raw.drop_last());
        if value is Some && !text::starts_with(name, "_"@) {
            table::put_changes_one_key(
                maigret_list(raw.drop_last()),
                name,
                maigret_site(value->0),
            );
        }
    }
}

/// Of two lists of which one is put over the other, the upper one counts
/// wherever it has a site.
pub proof fn upper_list_counts(
    base: Seq<(Seq<char>, SiteView)>,
    list: Seq<(Seq<char>, SiteView)>,
)
    requires
        table::distinct_keys(base),
        table::distinct_keys(list),
    ensures
        table::distinct_keys(overlaid(base, list)),
        forall|k: Seq<char>| #[trigger]
            table::lookup(overlaid(base, list), k) == if table::has_key(list, k) {
                table::lookup(list, k)
            } else {
                table::lookup(base, k)
            },
    decreases list.len(),
{
    if list.len() == 0 {
        nothing_is_in_an_empty_list(list);
    } else {
        let rest = list.drop_last();
        let (name, site) = list.last();
        let before = overlaid(base, rest);
        let now = overlaid(base, list);
        assert(table::distinct_keys(rest)) by {
            assert forall|i: int, j: int| 0 <= i < j < rest.len() implies (#[trigger] rest[i]).0
                != (#[trigger] rest[j]).0 by {
                assert(list[i].0 != list[j].0);
            }
        }
        upper_list_counts(base, rest);
        table::put_changes_one_key(before, name, site);
        assert(table::key_at(list, name, list.len() - 1));
        table::position_is_unique(list, name, list.len() - 1);
        assert forall|k: Seq<char>| #[trigger] table::lookup(now, k) == if table::has_key(list, k) {
            table::lookup(list, k)
        } else {
            table::lookup(base, k)
        } by {
            if k != name {
                assert(table::lookup(now, k) == table::lookup(before, k));
                if table::has_key(rest, k) {
                    let i = table::position(rest, k);
                    assert(table::key_at(rest, k, i));
                    assert(table::key_at(list, k, i));
                    table::position_is_unique(list, k, i);
                } else if table::has_key(list, k) {
                    let i = table::position(list, k);
                    assert(table::key_at(list, k, i));
                    assert(table::key_at(rest, k, i));
                }
            }
        }
    }
}

/// A site of the built-in list is marked as one for adults, and stands in the
/// assembled list as it is, unless an override file names it.
pub proof fn built_in_sites_are_for_adults(
    base: Seq<(Seq<char>, SiteView)>,
    list: Seq<(Seq<char>, SiteView)>,
    k: Seq<char>,
)
    requires
        table::distinct_keys(base),
        table::distinct_keys(list),
        table::has_key(list, k),
    ensures
        table::lookup(overlaid(base, custom_list(list)), k) == Some(
            as_custom(table::lookup(list, k)->0),
        ),
        as_custom(table::lookup(list, k)->0).is_nsfw == Some(true),
{
    let marked = custom_list(list);
    assert(table::distinct_keys(marked)) by {
        assert forall|i: int, j: int| 0 <= i < j < marked.len() implies (#[trigger] marked[i]).0 != (
        #[trigger] marked[j]).0 by {
            assert(list[i].0 != list[j].0);
        }
    }
    let i = table::position(list, k);
    assert(table::key_at(list, k, i));
    assert(table::key_at(marked, k, i));
    table::position_is_unique(marked, k, i);
    upper_list_counts(base, marked);
}

/// A WhatsMyName site is filed under the domain of the URL that it is checked
/// at. Left out are domains that begin with `www.` a second time or end in
/// white space: what is said of their root page would lose that.
pub proof fn whatsmyname_sites_keep_their_domain(w: WmnView, d: Seq<char>)
    requires
        sites::normalized(text::replace_all(w.uri_check, "{account}"@, "{}"@)) == Some(d),
        !text::starts_with(d, "www."@),
        !text::is_space(d.last()),
    ensures
        sites::normalized(wmn_site(w).url_main) == Some(d),
{
    let url = text::replace_all(w.uri_check, "{account}"@, "{}"@);
    let root = "https://"@ + d;
    assert(wmn_site(w).url_main == root);
    sites::domains_are_plain(url);
    reveal_strlit("https://");
    reveal_strlit("www.");
    assert(!text::is_space(root[0]));
    assert(root.last() == d.last());
    assert(text::trimmed(root) == root);
    let lower = text::ascii_lower(root);
    assert(lower =~= root) by {
        assert forall|i: int| 0 <= i < root.len() implies #[trigger] lower[i] == root[i] by {
            if i >= 8 {
                assert(root[i] == d[i - 8]);
            }
        }
    }
    assert(root.subrange(0, 8) =~= "https://"@);
    assert(text::starts_with(root, "https://"@));
    assert(root.skip(8) =~= d);
    text::all_is_before(d, '/');
}

/// What becomes of a WhatsMyName entry, part by part: the four parts of its rule
/// are carried over as they are, the place of the username is marked `{}`, a body
/// is sent by POST as JSON text, and the category is kept. Nothing else is known
/// of the site.
pub proof fn whatsmyname_entries_are_carried_over(w: WmnView)
    ensures
        ({
            let s = wmn_site(w);
            &&& s.detection matches Some(d) && d.e_code == w.e_code && d.e_string == w.e_string
                && d.m_code == w.m_code && d.m_string == w.m_string
            &&& s.error_type == "dual_pattern"@
            &&& s.url == text::replace_all(w.uri_check, "{account}"@, "{}"@)
            &&& s.url_main == root_of(s.url)
            &&& w.post_body is Some ==> s.request_method == Some("POST"@) && s.request_payload
                == Some(outside::json_string_of(w.post_body->0))
            &&& w.post_body is None ==> s.request_method is None && s.request_payload is None
            &&& w.cat is Some ==> s.categories == seq![w.cat->0]
            &&& w.cat is None ==> s.categories.len() == 0
            &&& s.source == SiteSource::Whatsmyname
            &&& s.error_msg is None && s.error_code is None && s.error_url is None
            &&& s.url_probe is None && s.headers is None && s.is_nsfw is None
            &&& s.username_claimed is None && s.username_unclaimed is None
            &&& s.regex_check is None && s.compiled_regex is None
            &&& s.extractors.len() == 0 && s.compiled_extractors.len() == 0
        }),
{
}

/// The root page of a site: its domain over HTTPS.
pub proof fn root_pages_are_over_https(url: Seq<char>, d: Seq<char>)
    ensures
        sites::normalized(url) == Some(d) ==> root_of(url) == "https://"@ + d,
        sites::normalized(url) is None ==> root_of(url) == url,
{
}

/// What becomes of a Maigret entry, part by part: its URLs, categories and rule
/// are carried over as they are, and of its extractors those of canonical fields;
/// without a rule the site is judged by the status.
pub proof fn maigret_entries_are_carried_over(m: MaigretView)
    ensures
        ({
            let s = maigret_site(m);
            &&& s.url == m.url && s.url_main == m.url_main
            &&& s.categories == m.categories
            &&& s.detection == m.detection
            &&& m.detection is Some ==> s.error_type == "dual_pattern"@
            &&& m.detection is None ==> s.error_type == "status_code"@
            &&& s.extractors == canonical_only(m.extractors)
            &&& s.source == SiteSource::Maigret
            &&& s.error_msg is None && s.error_code is None && s.error_url is None
            &&& s.url_probe is None && s.headers is None && s.is_nsfw is None
            &&& s.username_claimed is None && s.username_unclaimed is None
            &&& s.request_method is None && s.request_payload is None
            &&& s.regex_check is None && s.compiled_regex is None
            &&& s.compiled_extractors.len() == 0
        }),
{
}

proof fn canonical_adds_up(a: Seq<ExtractorView>, b: Seq<ExtractorView>)
    ensures
        canonical_only(a + b) == canonical_only(a) + canonical_only(b),
    decreases b.len(),
{
    if b.len() == 0 {
        assert(a + b =~= a);
        assert(canonical_only(a) + canonical_only(b) =~= canonical_only(a));
    } else {
        assert((a + b).drop_last() =~= a + b.drop_last());
        canonical_adds_up(a, b.drop_last());
        assert(canonical_only(a + b) =~= canonical_only(a) + canonical_only(b));
    }
}

/// Each extractor of a canonical field stays, as it is and in its place; each
/// other goes.
pub proof fn extractors_stay_by_their_field(
    a: Seq<ExtractorView>,
    ex: ExtractorView,
    b: Seq<ExtractorView>,
)
    ensures
        canonical_only(Seq::empty()).len() == 0,
        sites::canonical_fields().contains(ex.field) ==> canonical_only(a + seq![ex] + b)
            == canonical_only(a) + seq![ex] + canonical_only(b),
        !sites::canonical_fields().contains(ex.field) ==> canonical_only(a + seq![ex] + b)
            == canonical_only(a) + canonical_only(b),
{
    let one = seq![ex];
    canonical_adds_up(a + one, b);
    canonical_adds_up(a, one);
    assert(one.drop_last() =~= Seq::empty());
    assert(canonical_only(one.drop_last()) =~= Seq::empty());
    if sites::canonical_fields().contains(ex.field) {
        assert(canonical_only(one) =~= one);
    } else {
        assert(canonical_only(a) + canonical_only(one) =~= canonical_only(a));
    }
}

/// Checking the rules of a site touches its extractors and what is kept beside
/// the sources, and nothing else of it.
pub proof fn checking_rules_keeps_the_rest(site: SiteView, pattern: Seq<char>)
    ensures
        ({
            let r = with_rules(site);
            &&& r == (SiteView {
                compiled_regex: r.compiled_regex,
                extractors: r.extractors,
                compiled_extractors: r.compiled_extractors,
                ..site
            })
            &&& r.extractors == canonical_only(site.extractors)
            &&& r.compiled_extractors == extract::compiled_all(r.extractors)
            &&& site.regex_check is None ==> r.compiled_regex is None
            &&& site.regex_check == Some(pattern) && outside::regex_valid(pattern)
                ==> r.compiled_regex == Some(pattern)
            &&& site.regex_check == Some(pattern) && !outside::regex_valid(pattern)
                ==> r.compiled_regex is None
        }),
{
}

/// A site of the built-in list differs from its description by two marks.
pub proof fn built_in_sites_differ_by_two_marks(
    site: SiteView,
    t: Seq<(Seq<char>, SiteView)>,
    i: int,
)
    requires
        0 <= i < t.len(),
    ensures
        as_custom(site).is_nsfw == Some(true),
        as_custom(site).source == SiteSource::Custom,
        as_custom(site) == (SiteView {
            is_nsfw: as_custom(site).is_nsfw,
            source: as_custom(site).source,
            ..site
        }),
        custom_list(t).len() == t.len(),
        custom_list(t)[i] == (t[i].0, as_custom(t[i].1)),
        rules_checked(t).len() == t.len(),
        rules_checked(t)[i] == (t[i].0, with_rules(t[i].1)),
{
}

/// Every entry of a list in the format of Sherlock's `data.json` that has the
/// right shape is in the list under its name, unless its name is `$schema` or a
/// later entry of the right shape has the same name.
pub proof fn every_sherlock_entry_is_there(raw: Seq<(Seq<char>, Option<SiteView>)>, i: int)
    requires
        0 <= i < raw.len(),
        raw[i].1 is Some,
        raw[i].0 != "$schema"@,
        forall|j: int| i < j < raw.len() ==> (#[trigger] raw[j]).0 != raw[i].0 || raw[j].1 is None,
    ensures
        table::lookup(sherlock_list(raw), raw[i].0) == Some(with_rules(raw[i].1->0)),
    decreases raw.len(),
{
    let rest = raw.drop_last();
    let (name, value) = raw.last();
    schema_is_no_site(rest);
    if value is Some && name != "$schema"@ {
        table::put_changes_one_key(sherlock_list(rest), name, with_rules(value->0));
    }
    if i < rest.len() {
        assert(raw[raw.len() - 1] == raw.last());
        assert forall|j: int| i < j < rest.len() implies (#[trigger] rest[j]).0 != rest[i].0
            || rest[j].1 is None by {
            assert(raw[j] == rest[j]);
        }
        every_sherlock_entry_is_there(rest, i);
        assert(rest[i] == raw[i]);
    }
}

/// Every entry of a WhatsMyName list is in the list under its name, unless a
/// later one has the same name; and the list holds no other names.
pub proof fn every_whatsmyname_entry_is_there(raw: Seq<WmnView>, i: int, k: Seq<char>)
    requires
        0 <= i < raw.len(),
        forall|j: int| i < j < raw.len() ==> (#[trigger] raw[j]).name != raw[i].name,
    ensures
        table::lookup(wmn_list(raw), raw[i].name) == Some(wmn_site(raw[i])),
        table::has_key(wmn_list(raw), k) ==> exists|j: int|
            0 <= j < raw.len() && (#[trigger] raw[j]).name == k,
    decreases raw.len(),
{
    let rest = raw.drop_last();
    let last = raw.last();
    whatsmyname_sites_have_detection(rest);
    table::put_changes_one_key(wmn_list(rest), last.name, wmn_site(last));
    if i < rest.len() {
        assert(raw[raw.len() - 1] == last);
        assert forall|j: int| i < j < rest.len() implies (#[trigger] rest[j]).name
            != rest[i].name by {
            assert(raw[j] == rest[j]);
        }
        every_whatsmyname_entry_is_there(rest, i, k);
        assert(rest[i] == raw[i]);
    }
    names_of_a_whatsmyname_list(raw, k);
}

proof fn names_of_a_whatsmyname_list(raw: Seq<WmnView>, k: Seq<char>)
    ensures
        table::has_key(wmn_list(raw), k) ==> exists|j: int|
            0 <= j < raw.len() && (#[trigger] raw[j]).name == k,
    decreases raw.len(),
{
    if raw.len() == 0 {
        nothing_is_in_an_empty_list(wmn_list(raw));
    } else {
        let rest = raw.drop_last();
        whatsmyname_sites_have_detection(rest);
        table::put_changes_one_key(wmn_list(rest), raw.last().name, wmn_site(raw.last()));
        names_of_a_whatsmyname_list(rest, k);
        if table::has_key(wmn_list(raw), k) {
            if k == raw.last().name {
                assert(raw[raw.len() - 1].name == k);
            } else {
                let j = choose|j: int| 0 <= j < rest.len() && (#[trigger] rest[j]).name == k;
                assert(raw[j].name == k);
            }
        }
    }
}

/// Every entry of a Maigret list that has the right shape is in the list under
/// its name, unless its name begins with an underscore or a later entry of the
/// right shape has the same name; and the list holds no other names.
pub proof fn every_maigret_entry_is_there(
    raw: Seq<(Seq<char>, Option<MaigretView>)>,
    i: int,
    k: Seq<char>,
)
    requires
        0 <= i < raw.len(),
        raw[i].1 is Some,
        raw[i].0.len() == 0 || raw[i].0[0] != '_',
        forall|j: int| i < j < raw.len() ==> (#[trigger] raw[j]).0 != raw[i].0 || raw[j].1 is None,
    ensures
        table::lookup(maigret_list(raw), raw[i].0) == Some(maigret_site(raw[i].1->0)),
        table::has_key(maigret_list(raw), k) ==> exists|j: int|
            0 <= j < raw.len() && (#[trigger] raw[j]).0 == k && raw[j].1 is Some,
    decreases raw.len(),
{
    reveal_strlit("_");
    let rest = raw.drop_last();
    let (name, value) = raw.last();
    underscored_names_are_no_sites(rest);
    if value is Some && !text::starts_with(name, "_"@) {
        table::put_changes_one_key(maigret_list(rest), name, maigret_site(value->0));
    }
    if i < rest.len() {
        assert(raw[raw.len() - 1] == raw.last());
        assert forall|j: int| i < j < rest.len() implies (#[trigger] rest[j]).0 != rest[i].0
            || rest[j].1 is None by {
            assert(raw[j] == rest[j]);
        }
        every_maigret_entry_is_there(rest, i, k);
        assert(rest[i] == raw[i]);
    } else {
        assert(!text::starts_with(name, "_"@)) by {
            if text::starts_with(name, "_"@) {
                assert(name.subrange(0, 1)[0] == name[0]);
            }
        }
    }
    names_of_a_maigret_list(raw, k);
}

proof fn names_of_a_maigret_list(raw: Seq<(Seq<char>, Option<MaigretView>)>, k: Seq<char>)
    ensures
        table::has_key(maigret_list(raw), k) ==> exists|j: int|
            0 <= j < raw.len() && (#[trigger] raw[j]).0 == k && raw[j].1 is Some,
    decreases raw.len(),
{
    if raw.len() == 0 {
        nothing_is_in_an_empty_list(maigret_list(raw));
    } else {
        let rest = raw.drop_last();
        let (name, value) = raw.last();
        underscored_names_are_no_sites(rest);
        if value is Some && !text::starts_with(name, "_"@) {
            table::put_changes_one_key(maigret_list(rest), name, maigret_site(value->0));
        }
        names_of_a_maigret_list(rest, k);
        if table::has_key(maigret_list(raw), k) {
            if value is Some && !text::starts_with(name, "_"@) && k == name {
                assert(raw[raw.len() - 1].0 == k);
            } else {
                assert(table::has_key(maigret_list(rest), k));
                let j = choose|j: int|
                    0 <= j < rest.len() && (#[trigger] rest[j]).0 == k && rest[j].1 is Some;
                assert(raw[j] == rest[j]);
            }
        }
    }
}

proof fn overridden_lists_name_each_site_once(
    base: Seq<(Seq<char>, SiteView)>,
    files: Seq<Seq<(Seq<char>, Option<SiteView>)>>,
)
    requires
        table::distinct_keys(base),
    ensures
        table::distinct_keys(overridden(base, files)),
    decreases files.len(),
{
    if files.len() > 0 {
        overridden_lists_name_each_site_once(base, files.drop_last());
        schema_is_no_site(files.last());
        upper_list_counts(overridden(base, files.drop_last()), sherlock_list(files.last()));
    }
}

/// Of the override files the last that names a site counts; a site that none of
/// them names stays as it was.
pub proof fn the_last_override_counts(
    base: Seq<(Seq<char>, SiteView)>,
    files: Seq<Seq<(Seq<char>, Option<SiteView>)>>,
    n: int,
    k: Seq<char>,
)
    requires
        table::distinct_keys(base),
        0 <= n <= files.len(),
        forall|j: int|
            n <= j < files.len() ==> !table::has_key(sherlock_list(#[trigger] files[j]), k),
    ensures
        n == 0 ==> table::lookup(overridden(base, files), k) == table::lookup(base, k),
        n > 0 && table::has_key(sherlock_list(files[n - 1]), k) ==> table::lookup(
            overridden(base, files),
            k,
        ) == table::lookup(sherlock_list(files[n - 1]), k),
    decreases files.len(),
{
    if files.len() > 0 {
        let rest = files.drop_last();
        overridden_lists_name_each_site_once(base, rest);
        schema_is_no_site(files.last());
        upper_list_counts(overridden(base, rest), sherlock_list(files.last()));
        assert(files[files.len() - 1] == files.last());
        if n < files.len() {
            assert forall|j: int| n <= j < rest.len() implies !table::has_key(
                sherlock_list(#[trigger] rest[j]),
                k,
            ) by {
                assert(files[j] == rest[j]);
            }
            the_last_override_counts(base, rest, n, k);
            assert(n > 0 ==> rest[n - 1] == files[n - 1]);
        }
    }
}

/// A source that could not be had counts as one that has no site, and is noted
/// with its name; Sherlock's sites come first, WhatsMyName's are merged into
/// them, and then Maigret's; over these stand the built-in sites, and over all
/// the override files.
pub proof fn sources_are_stacked_in_order(
    s: SourcesView,
    sherlock: Seq<(Seq<char>, Option<SiteView>)>,
    whatsmyname: Seq<WmnView>,
    maigret: Seq<(Seq<char>, Option<MaigretView>)>,
    custom: Seq<(Seq<char>, Option<SiteView>)>,
)
    ensures
        s.sherlock == Ok::<_, Seq<char>>(sherlock) && s.whatsmyname == Ok::<_, Seq<char>>(
            whatsmyname,
        ) && s.maigret == Ok::<_, Seq<char>>(maigret) ==> from_upstreams(s) == sites::merged_into(
            sites::merged_into(sherlock_list(sherlock), wmn_list(whatsmyname)),
            maigret_list(maigret),
        ),
        s.sherlock is Err ==> from_upstreams(s) == from_upstreams(
            SourcesView { sherlock: Ok(Seq::empty()), ..s },
        ),
        s.whatsmyname is Err ==> from_upstreams(s) == from_upstreams(
            SourcesView { whatsmyname: Ok(Seq::empty()), ..s },
        ),
        s.maigret is Err ==> from_upstreams(s) == from_upstreams(
            SourcesView { maigret: Ok(Seq::empty()), ..s },
        ),
        s.custom is None ==> layered(s) == overridden(from_upstreams(s), s.overrides),
        s.custom == Some(custom) ==> layered(s) == overridden(
            overlaid(from_upstreams(s), custom_list(sherlock_list(custom))),
            s.overrides,
        ),
        s.overrides.len() == 0 && s.custom is None ==> layered(s) == from_upstreams(s),
{
    assert(wmn_list(Seq::empty()) =~= Seq::empty());
    assert(maigret_list(Seq::empty()) =~= Seq::empty());
    assert(sherlock_list(Seq::empty()) =~= Seq::empty());
}

/// What is noted of the sources: for each that could not be had, in order, its
/// name and why; for each that was had, how many sites it brought.
pub proof fn missing_sources_are_noted(s: SourcesView, a: Seq<char>, b: Seq<char>, c: Seq<char>)
    ensures
        source_error::<Seq<WmnView>>(a, Err(b)) == seq![a + ": "@ + b],
        source_error(a, s.whatsmyname).len() == 0 <==> s.whatsmyname is Ok,
        s.sherlock is Ok && s.whatsmyname is Ok && s.maigret is Ok ==> source_errors(s).len() == 0,
        s.sherlock == Err::<Seq<(Seq<char>, Option<SiteView>)>, _>(a) && s.whatsmyname == Err::<
            Seq<WmnView>,
            _,
        >(b) && s.maigret == Err::<Seq<(Seq<char>, Option<MaigretView>)>, _>(c) ==> source_errors(s)
            == seq![
            "sherlock"@ + ": "@ + a,
            "whatsmyname"@ + ": "@ + b,
            "maigret"@ + ": "@ + c,
        ],
        s.sherlock is Ok && s.whatsmyname == Err::<Seq<WmnView>, _>(b) && s.maigret is Ok
            ==> source_errors(s) == seq!["whatsmyname"@ + ": "@ + b],
        s.sherlock is Err ==> source_counts(s).0 == 0,
        s.whatsmyname is Err ==> source_counts(s).1 == 0,
        s.maigret is Err ==> source_counts(s).2 == 0,
        s.sherlock is Ok ==> source_counts(s).0 == sherlock_list(s.sherlock->Ok_0).len(),
        s.whatsmyname is Ok ==> source_counts(s).1 == wmn_list(s.whatsmyname->Ok_0).len(),
        s.maigret is Ok ==> source_counts(s).2 == maigret_list(s.maigret->Ok_0).len(),
        nothing_loaded(seq![a, b]) == "no sites loaded from any source; errors: ["@ + (a + "; "@
            + b) + "]"@,
        nothing_loaded(Seq::empty()) == "no sites loaded from any source; errors: ["@ + "]"@,
{
    assert(s.sherlock is Err && s.whatsmyname is Err && s.maigret is Err ==> source_errors(s) =~= seq![
        "sherlock"@ + ": "@ + s.sherlock->Err_0,
        "whatsmyname"@ + ": "@ + s.whatsmyname->Err_0,
        "maigret"@ + ": "@ + s.maigret->Err_0,
    ]);
    assert(s.sherlock is Ok && s.whatsmyname is Err && s.maigret is Ok ==> source_errors(s) =~= seq![
        "whatsmyname"@ + ": "@ + s.whatsmyname->Err_0,
    ]);
    reveal_with_fuel(text::joined, 3);
    assert(seq![a, b].drop_last() =~= seq![a]);
    assert(seq![a].drop_last() =~= Seq::empty());
    assert(nothing_loaded(seq![a, b]) =~= "no sites loaded from any source; errors: ["@ + (a
        + "; "@ + b) + "]"@);
    assert(nothing_loaded(Seq::empty()) =~= "no sites loaded from any source; errors: ["@ + "]"@);
}

/// Where the list comes from at start; what is said of a download that failed;
/// and that a list is there just where some source brought a site.
pub proof fn lists_are_loaded_so(
    s: SourcesView,
    legacy_exists: bool,
    status_code: u16,
    shown: Seq<char>,
    url: Seq<char>,
)
    ensures
        load_plan_of(true, legacy_exists) == LoadPlan::Merged,
        load_plan_of(false, true) == LoadPlan::LegacyAndRefresh,
        load_plan_of(false, false) == LoadPlan::Download,
        fetch_error_of(status_code, shown, url) is None <==> 199 < status_code && status_code
            <= 299,
        fetch_error_of(status_code, shown, url) is Some ==> fetch_error_of(status_code, shown, url)
            == Some("HTTP "@ + shown + " from "@ + url),
        assembled_of(s) is Ok <==> layered(s).len() > 0,
        assembled_of(s) is Ok ==> assembled_of(s)->Ok_0 == rules_checked(layered(s)),
        assembled_of(s) is Err ==> assembled_of(s)->Err_0 == nothing_loaded(source_errors(s)),
{
}

} // verus!
