//! What to do with what was found of a person: whether it goes to a known
//! profile, links two, or makes a new one, and whether at once or after review.

use vstd::prelude::*;
use vstd::string::*;

use crate::catalog;
use crate::extract;
use crate::result::{ExtractedValue, ExtractedView};
use crate::sites;
use crate::sites::SiteView;
use crate::table;
use crate::table::Table;
use crate::text;
use crate::text::{decimal_u64, str_eq};

verus! {

/// The whole, in the parts that thresholds are counted in.
pub const WHOLE: u64 = 1_000_000;

/// The score from which a proposal may be applied without review, in parts per
/// million.
pub const AUTO_ACCEPT_THRESHOLD: u64 = 800_000;

/// The least threshold that may be asked for.
pub const MIN_THRESHOLD: u64 = 500_000;

/// The greatest threshold that may be asked for.
pub const MAX_THRESHOLD: u64 = 950_000;

/// The threshold that counts, given what was asked for.
pub open spec fn threshold_of(requested: Option<u64>) -> u64 {
    match requested {
        None => AUTO_ACCEPT_THRESHOLD,
        Some(t) => if t < MIN_THRESHOLD {
            MIN_THRESHOLD
        } else if t > MAX_THRESHOLD {
            MAX_THRESHOLD
        } else {
            t
        },
    }
}

/// The threshold that counts, given what was asked for.
pub fn effective_threshold(requested: Option<u64>) -> (r: u64)
    ensures
        r == threshold_of(requested),
        MIN_THRESHOLD <= r <= MAX_THRESHOLD,
{
    match requested {
        None => AUTO_ACCEPT_THRESHOLD,
        Some(t) => if t < MIN_THRESHOLD {
            MIN_THRESHOLD
        } else if t > MAX_THRESHOLD {
            MAX_THRESHOLD
        } else {
            t
        },
    }
}

/// How sure a proposal is: `num` out of `den`.
#[derive(Debug, Clone, Copy, PartialEq, Eq, Structural)]
pub struct Score {
    pub num: u64,
    pub den: u64,
}

impl Score {
    /// Whether the score is at least `threshold` parts per million.
    pub open spec fn is_at_least(self, threshold: u64) -> bool {
        self.num * WHOLE >= threshold * self.den
    }

    /// Whether the score is at least `threshold` parts per million.
    pub fn reaches(&self, threshold: u64) -> (r: bool)
        ensures
            r == self.is_at_least(threshold),
    {
        proof {
            assert(self.num * WHOLE <= 0xffff_ffff_ffff_ffff * 0xffff_ffff_ffff_ffff)
                by (nonlinear_arith)
                requires
                    0 <= self.num <= 0xffff_ffff_ffff_ffff,
                    WHOLE == 1_000_000,
            ;
            assert(threshold * self.den <= 0xffff_ffff_ffff_ffff * 0xffff_ffff_ffff_ffff)
                by (nonlinear_arith)
                requires
                    0 <= threshold <= 0xffff_ffff_ffff_ffff,
                    0 <= self.den <= 0xffff_ffff_ffff_ffff,
            ;
            assert(0 <= threshold * self.den) by (nonlinear_arith)
                requires
                    0 <= threshold,
                    0 <= self.den,
            ;
        }
        self.num as u128 * WHOLE as u128 >= threshold as u128 * self.den as u128
    }
}

/// One thing that is known of a profile.
#[derive(Debug, Clone)]
pub struct EvidenceRow {
    pub field: String,
    pub value: String,
    pub confidence: u8,
}

/// The view of an `EvidenceRow`.
#[verifier::ext_equal]
pub struct EvidenceView {
    pub field: Seq<char>,
    pub value: Seq<char>,
    pub confidence: u8,
}

impl View for EvidenceRow {
    type V = EvidenceView;

    open spec fn view(&self) -> EvidenceView {
        EvidenceView { field: self.field@, value: self.value@, confidence: self.confidence }
    }
}

/// A row for each value of a field that is not empty.
pub open spec fn rows_of_values(
    field: Seq<char>,
    values: Seq<Seq<char>>,
    confidence: u8,
) -> Seq<EvidenceView>
    decreases values.len(),
{
    if values.len() == 0 {
        Seq::empty()
    } else {
        let before = rows_of_values(field, values.drop_last(), confidence);
        if values.last().len() > 0 {
            before.push(EvidenceView { field, value: values.last(), confidence })
        } else {
            before
        }
    }
}

/// The values of an extracted field.
pub open spec fn values_of(v: ExtractedView) -> Seq<Seq<char>> {
    match v {
        ExtractedView::One(s) => seq![s],
        ExtractedView::Many(list) => list,
    }
}

/// A row for each value, not empty, of each field.
pub open spec fn evidence_of(
    fields: Seq<(Seq<char>, ExtractedView)>,
    confidence: u8,
) -> Seq<EvidenceView>
    decreases fields.len(),
{
    if fields.len() == 0 {
        Seq::empty()
    } else {
        evidence_of(fields.drop_last(), confidence) + rows_of_values(
            fields.last().0,
            values_of(fields.last().1),
            confidence,
        )
    }
}

fn add_row(out: &mut Vec<EvidenceRow>, field: &String, value: &String, confidence: u8)
    ensures
        sites::views(final(out)@) == if value@.len() > 0 {
            sites::views(old(out)@).push(
                EvidenceView { field: field@, value: value@, confidence },
            )
        } else {
            sites::views(old(out)@)
        },
{
    if value.as_str().unicode_len() > 0 {
        let ghost before = out@;
        out.push(EvidenceRow { field: field.clone(), value: value.clone(), confidence });
        assert(sites::views(out@) =~= sites::views(before).push(
            EvidenceView { field: field@, value: value@, confidence },
        ));
    }
}

fn add_rows(out: &mut Vec<EvidenceRow>, field: &String, values: &Vec<String>, confidence: u8)
    ensures
        sites::views(final(out)@) == sites::views(old(out)@) + rows_of_values(
            field@,
            text::texts(values@),
            confidence,
        ),
{
    let ghost before = sites::views(out@);
    let ghost all = text::texts(values@);
    let mut i: usize = 0;
    assert(sites::views(out@) =~= before + rows_of_values(field@, all.take(0), confidence));
    while i < values.len()
        invariant
            i <= values@.len(),
            all == text::texts(values@),
            sites::views(out@) == before + rows_of_values(field@, all.take(i as int), confidence),
        decreases values@.len() - i,
    {
        add_row(out, field, &values[i], confidence);
        proof {
            assert(all.take(i + 1).drop_last() =~= all.take(i as int));
            assert(sites::views(out@) =~= before + rows_of_values(
                field@,
                all.take(i + 1),
                confidence,
            ));
        }
        i = i + 1;
    }
    assert(all.take(all.len() as int) =~= all);
}

/// A row for each value, not empty, of each extracted field.
pub fn evidence_rows_from_extracted(extracted: &Table<ExtractedValue>, confidence: u8) -> (r: Vec<
    EvidenceRow,
>)
    ensures
        sites::views(r@) == evidence_of(table::viewed(extracted@), confidence),
{
    let mut out: Vec<EvidenceRow> = Vec::new();
    let ghost all = table::viewed(extracted@);
    let n: usize = extracted.len();
    let mut i: usize = 0;
    assert(sites::views(out@) =~= evidence_of(all.take(0), confidence));
    while i < n
        invariant
            i <= n,
            n == extracted@.len(),
            all == table::viewed(extracted@),
            sites::views(out@) == evidence_of(all.take(i as int), confidence),
        decreases n - i,
    {
        let ghost before = sites::views(out@);
        let field = extracted.key(i);
        assert(all.take(i + 1).drop_last() =~= all.take(i as int));
        match extracted.value(i) {
            ExtractedValue::One(s) => {
                add_row(&mut out, field, s, confidence);
                proof {
                    let one = seq![s@];
                    assert(one.drop_last() =~= Seq::<Seq<char>>::empty());
                    assert(rows_of_values(field@, one.drop_last(), confidence) =~= Seq::<
                        EvidenceView,
                    >::empty());
                    assert(sites::views(out@) =~= before + rows_of_values(
                        field@,
                        one,
                        confidence,
                    ));
                }
            },
            ExtractedValue::Many(vs) => {
                add_rows(&mut out, field, vs, confidence);
            },
        }
        i = i + 1;
    }
    assert(all.take(all.len() as int) =~= all);
    out
}

/// No row is of an empty value, and all have the confidence of the hit.
pub proof fn evidence_is_never_empty(fields: Seq<(Seq<char>, ExtractedView)>, confidence: u8)
    ensures
        forall|i: int|
            0 <= i < evidence_of(fields, confidence).len() ==> {
                let e = #[trigger] evidence_of(fields, confidence)[i];
                e.value.len() > 0 && e.confidence == confidence && table::has_key(fields, e.field)
            },
    decreases fields.len(),
{
    if fields.len() > 0 {
        let rest = fields.drop_last();
        let last = fields.last();
        let before = evidence_of(rest, confidence);
        let rows = rows_of_values(last.0, values_of(last.1), confidence);
        evidence_is_never_empty(rest, confidence);
        rows_are_never_empty(last.0, values_of(last.1), confidence);
        assert forall|i: int| 0 <= i < evidence_of(fields, confidence).len() implies {
            let e = #[trigger] evidence_of(fields, confidence)[i];
            e.value.len() > 0 && e.confidence == confidence && table::has_key(fields, e.field)
        } by {
            let e = evidence_of(fields, confidence)[i];
            if i < before.len() {
                assert(e == before[i]);
                let k = table::position(rest, e.field);
                assert(table::key_at(rest, e.field, k));
                assert(table::key_at(fields, e.field, k));
            } else {
                assert(e == rows[i - before.len()]);
                assert(table::key_at(fields, last.0, fields.len() - 1));
            }
        }
    }
}

/// What is offered to the vault of a page is of canonical fields only, where the
/// rules of the site were checked when it was loaded.
pub proof fn only_canonical_fields_reach_the_vault(site: SiteView, body: Seq<char>, confidence: u8)
    ensures
        forall|i: int|
            0 <= i < evidence_of(
                extract::extracted(body, catalog::with_rules(site).compiled_extractors),
                confidence,
            ).len() ==> sites::canonical_fields().contains(
                (#[trigger] evidence_of(
                    extract::extracted(body, catalog::with_rules(site).compiled_extractors),
                    confidence,
                )[i]).field,
            ),
{
    let fields = extract::extracted(body, catalog::with_rules(site).compiled_extractors);
    evidence_is_never_empty(fields, confidence);
    catalog::only_canonical_fields_are_ever_extracted(site);
}

proof fn rows_are_never_empty(field: Seq<char>, values: Seq<Seq<char>>, confidence: u8)
    ensures
        forall|i: int|
            0 <= i < rows_of_values(field, values, confidence).len() ==> {
                let e = #[trigger] rows_of_values(field, values, confidence)[i];
                e.value.len() > 0 && e.confidence == confidence && e.field == field
            },
    decreases values.len(),
{
    if values.len() > 0 {
        let before = rows_of_values(field, values.drop_last(), confidence);
        let rows = rows_of_values(field, values, confidence);
        rows_are_never_empty(field, values.drop_last(), confidence);
        assert forall|i: int| 0 <= i < rows.len() implies {
            let e = #[trigger] rows[i];
            e.value.len() > 0 && e.confidence == confidence && e.field == field
        } by {
            if i < before.len() {
                assert(rows[i] == before[i]);
            }
        }
    }
}

/// The fields that two people rarely share.
pub open spec fn high_signal_fields() -> Seq<Seq<char>> {
    seq!["avatar_url"@, "full_name"@, "display_name"@]
}

/// Whether a field is one that two people rarely share.
pub fn is_high_signal(field: &str) -> (r: bool)
    ensures
        r == high_signal_fields().contains(field@),
        r == (field@ == "avatar_url"@ || field@ == "full_name"@ || field@ == "display_name"@),
{
    let ghost list = high_signal_fields();
    let r = str_eq(field, "avatar_url") || str_eq(field, "full_name") || str_eq(
        field,
        "display_name",
    );
    proof {
        if r {
            assert(list[0] == field@ || list[1] == field@ || list[2] == field@);
        }
    }
    r
}

/// The fields and values of the rows whose field two people rarely share.
pub open spec fn high_signal_of(evidence: Seq<EvidenceView>) -> Seq<(Seq<char>, Seq<char>)>
    decreases evidence.len(),
{
    if evidence.len() == 0 {
        Seq::empty()
    } else {
        let before = high_signal_of(evidence.drop_last());
        let last = evidence.last();
        if high_signal_fields().contains(last.field) {
            before.push((last.field, last.value))
        } else {
            before
        }
    }
}

/// The fields and values by which a profile is looked for.
pub fn high_signal_pairs(evidence: &Vec<EvidenceRow>) -> (r: Vec<(String, String)>)
    ensures
        text::pair_texts(r@) == high_signal_of(sites::views(evidence@)),
{
    let mut r: Vec<(String, String)> = Vec::new();
    let ghost all = sites::views(evidence@);
    let mut i: usize = 0;
    assert(text::pair_texts(r@) =~= high_signal_of(all.take(0)));
    while i < evidence.len()
        invariant
            i <= evidence@.len(),
            all == sites::views(evidence@),
            text::pair_texts(r@) == high_signal_of(all.take(i as int)),
        decreases evidence@.len() - i,
    {
        let ghost before = r@;
        let row = &evidence[i];
        assert(all.take(i + 1).drop_last() =~= all.take(i as int));
        if is_high_signal(row.field.as_str()) {
            r.push((row.field.clone(), row.value.clone()));
            assert(text::pair_texts(r@) =~= text::pair_texts(before).push((row.field@, row.value@)));
        }
        i = i + 1;
    }
    assert(all.take(all.len() as int) =~= all);
    r
}

/// Where something was found.
#[derive(Debug)]
pub struct Hit {
    pub scan_id: String,
    pub username: String,
    pub site_name: String,
    pub site_url: String,
}

/// The view of a `Hit`.
pub struct HitView {
    pub scan_id: Seq<char>,
    pub username: Seq<char>,
    pub site_name: Seq<char>,
    pub site_url: Seq<char>,
}

impl View for Hit {
    type V = HitView;

    open spec fn view(&self) -> HitView {
        HitView {
            scan_id: self.scan_id@,
            username: self.username@,
            site_name: self.site_name@,
            site_url: self.site_url@,
        }
    }
}

/// What is proposed to be done with evidence.
#[derive(Debug)]
pub struct Proposal {
    /// `new_profile`, `accumulate` or `cross_site_correlation`.
    pub kind: String,
    pub scan_id: String,
    pub username: String,
    pub site_name: String,
    pub site_url: String,
    /// The profile that the evidence goes to; `None` where a new one is to be
    /// made.
    pub target_profile_id: Option<String>,
    /// The label of a new profile.
    pub new_label: Option<String>,
    pub evidence: Vec<EvidenceRow>,
    /// Why, for the person who reviews it.
    pub rationale: String,
    pub score: Score,
}

/// The view of a `Proposal`.
#[verifier::ext_equal]
pub struct ProposalView {
    pub kind: Seq<char>,
    pub scan_id: Seq<char>,
    pub username: Seq<char>,
    pub site_name: Seq<char>,
    pub site_url: Seq<char>,
    pub target_profile_id: Option<Seq<char>>,
    pub new_label: Option<Seq<char>>,
    pub evidence: Seq<EvidenceView>,
    pub rationale: Seq<char>,
    pub score: Score,
}

impl View for Proposal {
    type V = ProposalView;

    open spec fn view(&self) -> ProposalView {
        ProposalView {
            kind: self.kind@,
            scan_id: self.scan_id@,
            username: self.username@,
            site_name: self.site_name@,
            site_url: self.site_url@,
            target_profile_id: text::opt_text(self.target_profile_id),
            new_label: text::opt_text(self.new_label),
            evidence: sites::views(self.evidence@),
            rationale: self.rationale@,
            score: self.score,
        }
    }
}

/// What a search for profiles by each of the high-signal values found.
pub open spec fn lookups_view(v: Seq<Vec<String>>) -> Seq<Seq<Seq<char>>> {
    v.map_values(|l: Vec<String>| text::texts(l@))
}

/// How many of the searches found something.
pub open spec fn matched(lookups: Seq<Seq<Seq<char>>>) -> nat
    decreases lookups.len(),
{
    if lookups.len() == 0 {
        0
    } else {
        matched(lookups.drop_last()) + if lookups.last().len() > 0 {
            1nat
        } else {
            0
        }
    }
}

/// The profile that was found first.
pub open spec fn first_match(lookups: Seq<Seq<Seq<char>>>) -> Option<Seq<char>>
    decreases lookups.len(),
{
    if lookups.len() == 0 {
        None
    } else {
        match first_match(lookups.drop_last()) {
            Some(p) => Some(p),
            None => if lookups.last().len() > 0 {
                Some(lookups.last()[0])
            } else {
                None
            },
        }
    }
}

/// The proposal for evidence from a hit: to the profile that has the username,
/// else to one that shares a high-signal value, else to a new one.
pub open spec fn proposal_for(
    hit: HitView,
    evidence: Seq<EvidenceView>,
    username_match: Option<Seq<char>>,
    lookups: Seq<Seq<Seq<char>>>,
) -> ProposalView {
    let plain = ProposalView {
        kind: "new_profile"@,
        scan_id: hit.scan_id,
        username: hit.username,
        site_name: hit.site_name,
        site_url: hit.site_url,
        target_profile_id: None,
        new_label: Some(hit.username),
        evidence,
        rationale: "No prior profile for '"@ + hit.username + "'; suggesting a new profile."@,
        score: Score { num: 1, den: 1 },
    };
    match (username_match, first_match(lookups)) {
        (Some(id), _) => ProposalView {
            kind: "accumulate"@,
            target_profile_id: Some(id),
            new_label: None,
            rationale: "Username '"@ + hit.username
                + "' already attached to this profile; appending evidence from "@ + hit.site_name
                + "."@,
            score: Score { num: 90, den: 100 },
            ..plain
        },
        (None, Some(id)) => ProposalView {
            kind: "cross_site_correlation"@,
            target_profile_id: Some(id),
            new_label: None,
            rationale: text::decimal(matched(lookups)) + "/"@ + text::decimal(lookups.len())
                + " high-signal fields (avatar_url / full_name / display_name) match an existing profile."@,
            score: Score { num: matched(lookups) as u64, den: lookups.len() as u64 },
            ..plain
        },
        (None, None) => plain,
    }
}

/// Some search found a profile, if and only if a profile was found first; and
/// no more searches found one than were made.
pub proof fn matches_are_counted(lookups: Seq<Seq<Seq<char>>>)
    ensures
        matched(lookups) <= lookups.len(),
        matched(lookups) > 0 <==> first_match(lookups) is Some,
    decreases lookups.len(),
{
    if lookups.len() > 0 {
        matches_are_counted(lookups.drop_last());
    }
}

/// What a proposal is: evidence goes to a known profile or to a new one, never
/// to both; a known username decides before anything else; the score is a
/// fraction, whole for a new profile, nine tenths for a known username, and for
/// a link by shared values the part of the high-signal values that some profile
/// shares.
pub proof fn proposals_are_of_three_kinds(
    hit: HitView,
    evidence: Seq<EvidenceView>,
    username_match: Option<Seq<char>>,
    lookups: Seq<Seq<Seq<char>>>,
)
    requires
        lookups.len() == high_signal_of(evidence).len(),
        lookups.len() <= u64::MAX,
    ensures
        ({
            let p = proposal_for(hit, evidence, username_match, lookups);
            &&& p.evidence == evidence
            &&& p.target_profile_id is Some <==> p.new_label is None
            &&& 0 < p.score.num <= p.score.den
            &&& username_match is Some ==> p.kind == "accumulate"@ && p.target_profile_id
                == username_match && p.score == (Score { num: 90, den: 100 })
            &&& username_match is None && matched(lookups) > 0 ==> p.kind
                == "cross_site_correlation"@ && p.score.num == matched(lookups) && p.score.den
                == high_signal_of(evidence).len()
            &&& username_match is None && matched(lookups) == 0 ==> p.kind == "new_profile"@
                && p.target_profile_id is None && p.new_label == Some(hit.username)
                && p.score.num == p.score.den
        }),
{
    matches_are_counted(lookups);
}

/// Without consent nothing is applied; with it a new profile always is, and the
/// threshold is never under a half nor over nineteen twentieths.
pub proof fn consent_decides(score: Score, requested: Option<u64>)
    ensures
        !may_apply(score, false, threshold_of(requested)),
        MIN_THRESHOLD <= threshold_of(requested) <= MAX_THRESHOLD,
        score.num == score.den ==> may_apply(score, true, threshold_of(requested)),
        requested is None && score == (Score { num: 90, den: 100 }) ==> may_apply(
            score,
            true,
            threshold_of(requested),
        ),
{
    let t = threshold_of(requested);
    assert(score.den * WHOLE >= t * score.den) by (nonlinear_arith)
        requires
            0 <= score.den,
            0 <= t <= WHOLE,
    ;
    if requested is None && score == (Score { num: 90, den: 100 }) {
        assert(score.num * WHOLE >= t * score.den) by (nonlinear_arith)
            requires
                score.num == 90,
                score.den == 100,
                t == 800_000,
                WHOLE == 1_000_000,
        ;
    }
}

fn count_matches(lookups: &Vec<Vec<String>>) -> (r: (u64, Option<String>))
    ensures
        r.0 == matched(lookups_view(lookups@)),
        text::opt_text(r.1) == first_match(lookups_view(lookups@)),
{
    let mut n: u64 = 0;
    let mut first: Option<String> = None;
    let ghost all = lookups_view(lookups@);
    let mut i: usize = 0;
    while i < lookups.len()
        invariant
            i <= lookups@.len(),
            all == lookups_view(lookups@),
            n <= i,
            n == matched(all.take(i as int)),
            text::opt_text(first) == first_match(all.take(i as int)),
        decreases lookups@.len() - i,
    {
        let found = &lookups[i];
        proof {
            assert(all.take(i + 1).drop_last() =~= all.take(i as int));
            assert(all[i as int] == text::texts(found@));
        }
        if found.len() > 0 {
            n = n + 1;
            if first.is_none() {
                first = Some(found[0].clone());
            }
        }
        i = i + 1;
    }
    assert(all.take(all.len() as int) =~= all);
    (n, first)
}

/// The proposal for evidence from a hit. `username_match` is a profile that has
/// the username; `lookups` holds, for each of the high-signal values, the
/// profiles that share it.
pub fn decide_proposal(
    hit: Hit,
    evidence: Vec<EvidenceRow>,
    username_match: Option<String>,
    lookups: &Vec<Vec<String>>,
) -> (r: Proposal)
    requires
        lookups@.len() == high_signal_of(sites::views(evidence@)).len(),
    ensures
        r@ == proposal_for(
            hit@,
            sites::views(evidence@),
            text::opt_text(username_match),
            lookups_view(lookups@),
        ),
{
    let ghost hv = hit@;
    let ghost ev = sites::views(evidence@);
    let ghost um = text::opt_text(username_match);
    let ghost lv = lookups_view(lookups@);
    let (found, first) = count_matches(lookups);
    if let Some(id) = username_match {
        let mut rationale: String = "Username '".to_string();
        rationale.append(hit.username.as_str());
        rationale.append("' already attached to this profile; appending evidence from ");
        rationale.append(hit.site_name.as_str());
        rationale.append(".");
        let r = Proposal {
            kind: "accumulate".to_string(),
            scan_id: hit.scan_id,
            username: hit.username,
            site_name: hit.site_name,
            site_url: hit.site_url,
            target_profile_id: Some(id),
            new_label: None,
            evidence,
            rationale,
            score: Score { num: 90, den: 100 },
        };
        assert(r@ =~= proposal_for(hv, ev, um, lv));
        return r;
    }
    if let Some(id) = first {
        let total: usize = lookups.len();
        let mut rationale = decimal_u64(found);
        rationale.append("/");
        let shown = decimal_u64(total as u64);
        rationale.append(shown.as_str());
        rationale.append(
            " high-signal fields (avatar_url / full_name / display_name) match an existing profile.",
        );
        let r = Proposal {
            kind: "cross_site_correlation".to_string(),
            scan_id: hit.scan_id,
            username: hit.username,
            site_name: hit.site_name,
            site_url: hit.site_url,
            target_profile_id: Some(id),
            new_label: None,
            evidence,
            rationale,
            score: Score { num: found, den: total as u64 },
        };
        assert(lv.len() == total);
        assert(r@ =~= proposal_for(hv, ev, um, lv));
        return r;
    }
    let mut rationale: String = "No prior profile for '".to_string();
    rationale.append(hit.username.as_str());
    rationale.append("'; suggesting a new profile.");
    let label = hit.username.clone();
    let r = Proposal {
        kind: "new_profile".to_string(),
        scan_id: hit.scan_id,
        username: hit.username,
        site_name: hit.site_name,
        site_url: hit.site_url,
        target_profile_id: None,
        new_label: Some(label),
        evidence,
        rationale,
        score: Score { num: 1, den: 1 },
    };
    assert(r@ =~= proposal_for(hv, ev, um, lv));
    r
}

/// What came of evidence.
#[derive(Debug)]
pub enum ProposalOutcome {
    NoEvidence,
    Queued { pending_id: i64 },
    Applied { profile_id: String },
}

/// What to do with evidence.
#[derive(Debug)]
pub enum ProposalPlan {
    /// Nothing: there is none.
    NoEvidence,
    /// Put it away for review.
    Queue(Proposal),
    /// Apply it now.
    Apply(Proposal),
}

/// Whether a proposal may be applied without review.
pub open spec fn may_apply(score: Score, auto_accept: bool, threshold: u64) -> bool {
    auto_accept && score.is_at_least(threshold)
}

/// What to do with evidence from a hit. It is applied without review only where
/// that was asked for and the proposal is sure enough. `lookups` holds, for each
/// of the high-signal values, the profiles that share it.
pub fn propose_or_apply(
    hit: Hit,
    evidence: Vec<EvidenceRow>,
    username_match: Option<String>,
    lookups: &Vec<Vec<String>>,
    auto_accept: bool,
    threshold: Option<u64>,
) -> (r: ProposalPlan)
    requires
        lookups@.len() == high_signal_of(sites::views(evidence@)).len(),
    ensures
        ({
            let p = proposal_for(
                hit@,
                sites::views(evidence@),
                text::opt_text(username_match),
                lookups_view(lookups@),
            );
            match r {
                ProposalPlan::NoEvidence => evidence@.len() == 0,
                ProposalPlan::Queue(q) => evidence@.len() > 0 && q@ == p && !may_apply(
                    p.score,
                    auto_accept,
                    threshold_of(threshold),
                ),
                ProposalPlan::Apply(q) => evidence@.len() > 0 && q@ == p && may_apply(
                    p.score,
                    auto_accept,
                    threshold_of(threshold),
                ),
            }
        }),
        plan_for(
            proposal_for(
                hit@,
                sites::views(evidence@),
                text::opt_text(username_match),
                lookups_view(lookups@),
            ),
            auto_accept,
            threshold,
        ) == match r {
            ProposalPlan::NoEvidence => PlanView::NoEvidence,
            ProposalPlan::Queue(q) => PlanView::Queue(q@),
            ProposalPlan::Apply(q) => PlanView::Apply(q@),
        },
{
    if evidence.len() == 0 {
        return ProposalPlan::NoEvidence;
    }
    let p = decide_proposal(hit, evidence, username_match, lookups);
    let t = effective_threshold(threshold);
    if auto_accept && p.score.reaches(t) {
        ProposalPlan::Apply(p)
    } else {
        ProposalPlan::Queue(p)
    }
}

/// What the audit log says of a proposal that was applied without review.
pub open spec fn auto_accept_text(shown: Seq<char>, kind: Seq<char>, site_name: Seq<char>) -> Seq<
    char,
> {
    "auto_accept score="@ + shown + " kind="@ + kind + " site="@ + site_name
}

/// What is done with evidence: nothing where there is none; else it is applied
/// at once, or put away.
pub enum PlanView {
    NoEvidence,
    Queue(ProposalView),
    Apply(ProposalView),
}

/// What is done with a proposal, given whether consent was given and which
/// threshold was asked for.
pub open spec fn plan_for(p: ProposalView, auto_accept: bool, threshold: Option<u64>) -> PlanView {
    if p.evidence.len() == 0 {
        PlanView::NoEvidence
    } else if may_apply(p.score, auto_accept, threshold_of(threshold)) {
        PlanView::Apply(p)
    } else {
        PlanView::Queue(p)
    }
}

/// What the audit log says of a proposal that was applied without review.
/// `shown` is its score as it is printed.
pub fn auto_accept_detail(shown: &str, kind: &str, site_name: &str) -> (r: String)
    ensures
        r@ == auto_accept_text(shown@, kind@, site_name@),
        r@ == "auto_accept score="@ + shown@ + " kind="@ + kind@ + " site="@ + site_name@,
{
    let mut r: String = "auto_accept score=".to_string();
    r.append(shown);
    r.append(" kind=");
    r.append(kind);
    r.append(" site=");
    r.append(site_name);
    r
}

/// Profiles are looked for by three fields and no others: the address of the
/// picture, the full name and the name that is shown.
pub proof fn profiles_are_looked_for_by_three_fields(field: Seq<char>)
    ensures
        high_signal_fields().contains(field) <==> (field == "avatar_url"@ || field
            == "full_name"@ || field == "display_name"@),
{
    let list = high_signal_fields();
    if field == "avatar_url"@ {
        assert(list[0] == field);
    } else if field == "full_name"@ {
        assert(list[1] == field);
    } else if field == "display_name"@ {
        assert(list[2] == field);
    }
}

proof fn high_signals_add_up(a: Seq<EvidenceView>, b: Seq<EvidenceView>)
    ensures
        high_signal_of(a + b) == high_signal_of(a) + high_signal_of(b),
    decreases b.len(),
{
    if b.len() == 0 {
        assert(a + b =~= a);
        assert(high_signal_of(a) + high_signal_of(b) =~= high_signal_of(a));
    } else {
        assert((a + b).drop_last() =~= a + b.drop_last());
        high_signals_add_up(a, b.drop_last());
        assert(high_signal_of(a + b) =~= high_signal_of(a) + high_signal_of(b));
    }
}

/// A row of evidence is looked up, by its field and its value and in its place
/// among the others, where its field is one of the three; else it is passed over.
pub proof fn rows_of_three_fields_are_looked_up(
    a: Seq<EvidenceView>,
    row: EvidenceView,
    b: Seq<EvidenceView>,
)
    ensures
        high_signal_of(Seq::empty()).len() == 0,
        row.field == "avatar_url"@ || row.field == "full_name"@ || row.field == "display_name"@
            ==> high_signal_of(a + seq![row] + b) == high_signal_of(a) + seq![
            (row.field, row.value),
        ] + high_signal_of(b),
        row.field != "avatar_url"@ && row.field != "full_name"@ && row.field != "display_name"@
            ==> high_signal_of(a + seq![row] + b) == high_signal_of(a) + high_signal_of(b),
{
    let one = seq![row];
    profiles_are_looked_for_by_three_fields(row.field);
    high_signals_add_up(a + one, b);
    high_signals_add_up(a, one);
    assert(one.drop_last() =~= Seq::empty());
    assert(high_signal_of(one.drop_last()) =~= Seq::empty());
    if high_signal_fields().contains(row.field) {
        assert(high_signal_of(one) =~= seq![(row.field, row.value)]);
    } else {
        assert(high_signal_of(a) + high_signal_of(one) =~= high_signal_of(a));
    }
}

/// Evidence that has none of the three fields links to nobody: under a username
/// that no profile has, it always makes a new profile.
pub proof fn without_the_three_fields_a_profile_is_new(
    hit: HitView,
    evidence: Seq<EvidenceView>,
    lookups: Seq<Seq<Seq<char>>>,
)
    requires
        forall|i: int|
            0 <= i < evidence.len() ==> (#[trigger] evidence[i]).field != "avatar_url"@
                && evidence[i].field != "full_name"@ && evidence[i].field != "display_name"@,
        lookups.len() == high_signal_of(evidence).len(),
    ensures
        high_signal_of(evidence).len() == 0,
        ({
            let p = proposal_for(hit, evidence, None, lookups);
            &&& p.kind == "new_profile"@
            &&& p.target_profile_id is None
            &&& p.new_label == Some(hit.username)
            &&& p.score == (Score { num: 1, den: 1 })
        }),
    decreases evidence.len(),
{
    if evidence.len() > 0 {
        let rest = evidence.drop_last();
        assert forall|i: int| 0 <= i < rest.len() implies (#[trigger] rest[i]).field
            != "avatar_url"@ && rest[i].field != "full_name"@ && rest[i].field
            != "display_name"@ by {
            assert(evidence[i] == rest[i]);
        }
        assert(evidence.last() == evidence[evidence.len() - 1]);
        profiles_are_looked_for_by_three_fields(evidence.last().field);
        assert(high_signal_of(evidence) == high_signal_of(rest));
        without_the_three_fields_a_profile_is_new(hit, rest, lookups);
    }
}

proof fn evidence_adds_up(
    a: Seq<(Seq<char>, ExtractedView)>,
    b: Seq<(Seq<char>, ExtractedView)>,
    confidence: u8,
)
    ensures
        evidence_of(a + b, confidence) == evidence_of(a, confidence) + evidence_of(b, confidence),
    decreases b.len(),
{
    let both = evidence_of(a, confidence) + evidence_of(b, confidence);
    if b.len() == 0 {
        assert(a + b =~= a);
        assert(both =~= evidence_of(a, confidence));
    } else {
        assert((a + b).drop_last() =~= a + b.drop_last());
        evidence_adds_up(a, b.drop_last(), confidence);
        assert(evidence_of(a + b, confidence) =~= both);
    }
}

proof fn rows_add_up(field: Seq<char>, a: Seq<Seq<char>>, b: Seq<Seq<char>>, confidence: u8)
    ensures
        rows_of_values(field, a + b, confidence) == rows_of_values(field, a, confidence)
            + rows_of_values(field, b, confidence),
    decreases b.len(),
{
    let both = rows_of_values(field, a, confidence) + rows_of_values(field, b, confidence);
    if b.len() == 0 {
        assert(a + b =~= a);
        assert(both =~= rows_of_values(field, a, confidence));
    } else {
        assert((a + b).drop_last() =~= a + b.drop_last());
        rows_add_up(field, a, b.drop_last(), confidence);
        assert(rows_of_values(field, a + b, confidence) =~= both);
    }
}

proof fn evidence_of_one_field(field: Seq<char>, v: ExtractedView, confidence: u8)
    ensures
        evidence_of(seq![(field, v)], confidence) == rows_of_values(
            field,
            values_of(v),
            confidence,
        ),
{
    let one = seq![(field, v)];
    assert(one.drop_last() =~= Seq::empty());
    assert(evidence_of(one.drop_last(), confidence) =~= Seq::empty());
    assert(evidence_of(one, confidence) =~= rows_of_values(field, values_of(v), confidence));
}

/// All that was read off a page becomes evidence: each value of each field, in
/// order, under its field and with the confidence of the hit, unless it is empty.
pub proof fn every_value_becomes_evidence(
    a: Seq<(Seq<char>, ExtractedView)>,
    b: Seq<(Seq<char>, ExtractedView)>,
    field: Seq<char>,
    x: Seq<Seq<char>>,
    y: Seq<Seq<char>>,
    value: Seq<char>,
    confidence: u8,
)
    ensures
        evidence_of(a + b, confidence) == evidence_of(a, confidence) + evidence_of(b, confidence),
        evidence_of(seq![(field, ExtractedView::One(value))], confidence) == if value.len() > 0 {
            seq![EvidenceView { field, value, confidence }]
        } else {
            Seq::empty()
        },
        evidence_of(seq![(field, ExtractedView::Many(Seq::empty()))], confidence).len() == 0,
        evidence_of(seq![(field, ExtractedView::Many(seq![value]))], confidence) == if value.len()
            > 0 {
            seq![EvidenceView { field, value, confidence }]
        } else {
            Seq::empty()
        },
        evidence_of(seq![(field, ExtractedView::Many(x + y))], confidence) == evidence_of(
            seq![(field, ExtractedView::Many(x))],
            confidence,
        ) + evidence_of(seq![(field, ExtractedView::Many(y))], confidence),
{
    evidence_adds_up(a, b, confidence);
    rows_add_up(field, x, y, confidence);
    evidence_of_one_field(field, ExtractedView::One(value), confidence);
    evidence_of_one_field(field, ExtractedView::Many(Seq::empty()), confidence);
    evidence_of_one_field(field, ExtractedView::Many(seq![value]), confidence);
    evidence_of_one_field(field, ExtractedView::Many(x + y), confidence);
    evidence_of_one_field(field, ExtractedView::Many(x), confidence);
    evidence_of_one_field(field, ExtractedView::Many(y), confidence);
    let one = seq![value];
    assert(one.drop_last() =~= Seq::empty());
    assert(rows_of_values(field, one.drop_last(), confidence) =~= Seq::empty());
    if value.len() > 0 {
        assert(rows_of_values(field, one, confidence) =~= seq![
            EvidenceView { field, value, confidence },
        ]);
    }
}

/// The profile that a link goes to: the first that was found by the first search
/// that found any. Where no search found one there is none.
pub proof fn the_first_search_that_finds_decides(
    a: Seq<Seq<Seq<char>>>,
    found: Seq<Seq<char>>,
    b: Seq<Seq<Seq<char>>>,
)
    requires
        forall|i: int| 0 <= i < a.len() ==> (#[trigger] a[i]).len() == 0,
    ensures
        first_match(a) is None,
        matched(a) == 0,
        found.len() > 0 ==> first_match(a + seq![found] + b) == Some(found[0]),
    decreases a.len() + b.len(),
{
    let one = seq![found];
    let all = a + one + b;
    if b.len() > 0 {
        assert(all.drop_last() =~= a + one + b.drop_last());
        the_first_search_that_finds_decides(a, found, b.drop_last());
    } else if a.len() > 0 {
        let rest = a.drop_last();
        assert forall|i: int| 0 <= i < rest.len() implies (#[trigger] rest[i]).len() == 0 by {
            assert(a[i] == rest[i]);
        }
        the_first_search_that_finds_decides(rest, found, b);
        assert(a.last() == a[a.len() - 1]);
        assert(all.drop_last() =~= a);
        assert(all.last() == found);
    } else {
        assert(all.drop_last() =~= a);
        assert(all.last() == found);
    }
}

/// The searches that found a profile are counted, each once.
pub proof fn searches_that_find_are_counted(
    a: Seq<Seq<Seq<char>>>,
    found: Seq<Seq<char>>,
    b: Seq<Seq<Seq<char>>>,
)
    ensures
        matched(a + seq![found] + b) == matched(a) + matched(b) + if found.len() > 0 {
            1int
        } else {
            0int
        },
    decreases b.len(),
{
    let one = seq![found];
    let all = a + one + b;
    if b.len() == 0 {
        assert(all.drop_last() =~= a);
        assert(all.last() == found);
    } else {
        assert(all.drop_last() =~= a + one + b.drop_last());
        searches_that_find_are_counted(a, found, b.drop_last());
    }
}

/// A proposal says where the evidence is from and why it is made.
pub proof fn proposals_say_whence_and_why(
    hit: HitView,
    evidence: Seq<EvidenceView>,
    id: Seq<char>,
    lookups: Seq<Seq<Seq<char>>>,
    username_match: Option<Seq<char>>,
)
    requires
        lookups.len() == high_signal_of(evidence).len(),
        lookups.len() <= u64::MAX,
    ensures
        ({
            let p = proposal_for(hit, evidence, username_match, lookups);
            p.scan_id == hit.scan_id && p.username == hit.username && p.site_name == hit.site_name
                && p.site_url == hit.site_url && p.evidence == evidence
        }),
        proposal_for(hit, evidence, Some(id), lookups).rationale == "Username '"@ + hit.username
            + "' already attached to this profile; appending evidence from "@ + hit.site_name
            + "."@,
        ({
            let p = proposal_for(hit, evidence, None, lookups);
            &&& matched(lookups) == 0 ==> p.rationale == "No prior profile for '"@ + hit.username
                + "'; suggesting a new profile."@
            &&& matched(lookups) > 0 ==> p.target_profile_id == first_match(lookups)
                && p.rationale == text::decimal(matched(lookups)) + "/"@ + text::decimal(
                high_signal_of(evidence).len(),
            )
                + " high-signal fields (avatar_url / full_name / display_name) match an existing profile."@
        }),
{
    matches_are_counted(lookups);
}

/// Which thresholds count: four fifths where none is asked for, and never under
/// a half nor over nineteen twentieths. A score reaches one just where its part
/// of the whole is at least that many millionths, and then, with consent, what is
/// proposed is applied.
pub proof fn thresholds_are_in_millionths(
    score: Score,
    auto_accept: bool,
    requested: u64,
    threshold: u64,
)
    ensures
        threshold_of(None) == 800_000,
        requested < 500_000 ==> threshold_of(Some(requested)) == 500_000,
        500_000 <= requested <= 950_000 ==> threshold_of(Some(requested)) == requested,
        requested > 950_000 ==> threshold_of(Some(requested)) == 950_000,
        score.is_at_least(threshold) <==> score.num * 1_000_000 >= threshold * score.den,
        may_apply(score, auto_accept, threshold) <==> auto_accept && score.num * 1_000_000
            >= threshold * score.den,
{
}

/// Evidence is never lost and never applied unasked: where there is some, the
/// proposal is either applied or put away, and it is applied just where that was
/// asked for and its score reaches the threshold.
pub proof fn evidence_is_applied_or_put_away(
    p: ProposalView,
    auto_accept: bool,
    threshold: Option<u64>,
    shown: Seq<char>,
    kind: Seq<char>,
    site_name: Seq<char>,
)
    ensures
        p.evidence.len() == 0 <==> plan_for(p, auto_accept, threshold) == PlanView::NoEvidence,
        p.evidence.len() > 0 && !auto_accept ==> plan_for(p, auto_accept, threshold)
            == PlanView::Queue(p),
        p.evidence.len() > 0 && auto_accept && p.score.num * 1_000_000 >= threshold_of(threshold)
            * p.score.den ==> plan_for(p, auto_accept, threshold) == PlanView::Apply(p),
        p.evidence.len() > 0 && auto_accept && p.score.num * 1_000_000 < threshold_of(threshold)
            * p.score.den ==> plan_for(p, auto_accept, threshold) == PlanView::Queue(p),
        auto_accept_text(shown, kind, site_name) == "auto_accept score="@ + shown + " kind="@ + kind
            + " site="@ + site_name,
{
}

} // verus!
