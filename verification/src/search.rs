//! A search: what was asked for, and how it goes from username to username and
//! from result to result.

use vstd::prelude::*;
use vstd::string::*;

use crate::checker;
use crate::checker::{count_covered, CheckConfig};
use crate::ledger;
use crate::ledger::{record_scan_finish, record_scan_start, ResultRow, Statement};
use crate::outside;
use crate::outside::json_string;
use crate::proposal::{Hit, ProposalOutcome};
use crate::result::{ExtractedValue, ExtractedView, QueryResult, QueryStatus, ResultView};
use crate::sites::{list_contains, SiteData};
use crate::table;
use crate::table::Table;
use crate::text;
use crate::text::{decimal_u64, join, str_starts_with, trim};

verus! {

/// How many usernames a search takes.
pub const MAX_USERNAMES: usize = 10;

/// Seconds that a request may take where nothing is asked for.
pub const DEFAULT_TIMEOUT_SECS: u64 = 30;

/// The fewest seconds that a request may be given.
pub const MIN_TIMEOUT_SECS: u64 = 5;

/// The largest avatar that is kept, in bytes: two mebibytes.
pub const MAX_AVATAR_BYTES: usize = 2_097_152;

/// A character between two usernames.
pub open spec fn is_separator(c: char) -> bool {
    c == ',' || c == '\n' || c == ';'
}

/// The pieces of a text between separators.
pub open spec fn pieces(s: Seq<char>) -> Seq<Seq<char>>
    decreases s.len(),
{
    if s.len() == 0 {
        seq![Seq::empty()]
    } else {
        let before = pieces(s.drop_last());
        if is_separator(s.last()) {
            before.push(Seq::empty())
        } else {
            before.drop_last().push(before.last().push(s.last()))
        }
    }
}

/// The texts of a list without the blanks around them, those that are not
/// empty, each once.
pub open spec fn distinct_names(list: Seq<Seq<char>>) -> Seq<Seq<char>>
    decreases list.len(),
{
    if list.len() == 0 {
        Seq::empty()
    } else {
        let before = distinct_names(list.drop_last());
        let name = text::trimmed(list.last());
        if name.len() > 0 && !before.contains(name) {
            before.push(name)
        } else {
            before
        }
    }
}

/// The usernames that a text holds.
pub open spec fn usernames_of(raw: Seq<char>) -> Seq<Seq<char>> {
    let all = distinct_names(pieces(raw));
    if all.len() <= MAX_USERNAMES {
        all
    } else {
        all.take(MAX_USERNAMES as int)
    }
}

/// The pieces of a text between separators.
pub fn split_pieces(raw: &str) -> (r: Vec<String>)
    ensures
        text::texts(r@) == pieces(raw@),
{
    let mut done: Vec<String> = Vec::new();
    let mut current: String = String::new();
    let ghost all = raw@;
    assert(text::texts(done@).push(current@) =~= pieces(all.take(0)));
    for c in it: raw.chars()
        invariant
            it.seq() == all,
            text::texts(done@).push(current@) == pieces(all.take(it.index() as int)),
    {
        let ghost n = it.index() as int;
        let ghost before = text::texts(done@);
        let ghost open = current@;
        assert(all.take(n + 1).drop_last() =~= all.take(n));
        assert(before.push(open).drop_last() =~= before);
        if c == ',' || c == '\n' || c == ';' {
            let mut full: String = String::new();
            std::mem::swap(&mut full, &mut current);
            done.push(full);
            assert(text::texts(done@) =~= before.push(open));
            assert(current@ =~= Seq::<char>::empty());
        } else {
            current.push(c);
        }
        assert(text::texts(done@).push(current@) =~= pieces(all.take(n + 1)));
    }
    assert(all.take(all.len() as int) =~= all);
    let ghost before = text::texts(done@);
    done.push(current);
    assert(text::texts(done@) =~= before.push(current@));
    done
}

/// The usernames that a text holds: separated by commas, semicolons or line
/// feeds, without the blanks around them, each once, in order, and no more than
/// the first ten.
pub fn parse_usernames(raw: &str) -> (r: Vec<String>)
    ensures
        text::texts(r@) == usernames_of(raw@),
        r@.len() <= MAX_USERNAMES,
{
    let list = split_pieces(raw);
    let ghost all = text::texts(list@);
    let mut r: Vec<String> = Vec::new();
    let mut i: usize = 0;
    assert(text::texts(r@) =~= distinct_names(all.take(0)));
    while i < list.len() && r.len() < MAX_USERNAMES
        invariant
            i <= list@.len(),
            all == text::texts(list@),
            r@.len() <= MAX_USERNAMES,
            text::texts(r@) == distinct_names(all.take(i as int)),
        decreases list@.len() - i,
    {
        let ghost before = r@;
        let name = trim(list[i].as_str());
        assert(all.take(i + 1).drop_last() =~= all.take(i as int));
        if !name.as_str().is_empty() && !list_contains(&r, name.as_str()) {
            let ghost named = name@;
            r.push(name);
            assert(text::texts(r@) =~= text::texts(before).push(named));
        }
        i = i + 1;
    }
    proof {
        let whole = distinct_names(all);
        assert(all.take(all.len() as int) =~= all);
        names_only_grow(all, i as int);
        assert(whole.take(r@.len() as int) =~= text::texts(r@));
        if i < list@.len() {
            assert(r@.len() == MAX_USERNAMES);
            if whole.len() == MAX_USERNAMES {
                assert(whole.take(MAX_USERNAMES as int) =~= whole);
            }
        } else {
            assert(whole =~= text::texts(r@));
        }
    }
    r
}

proof fn names_only_grow(list: Seq<Seq<char>>, i: int)
    requires
        0 <= i <= list.len(),
    ensures
        distinct_names(list.take(i)).len() <= distinct_names(list).len(),
        distinct_names(list).take(distinct_names(list.take(i)).len() as int) == distinct_names(
            list.take(i),
        ),
    decreases list.len() - i,
{
    let few = distinct_names(list.take(i));
    if i < list.len() {
        names_only_grow(list, i + 1);
        let more = distinct_names(list.take(i + 1));
        let whole = distinct_names(list);
        assert(list.take(i + 1).drop_last() =~= list.take(i));
        assert(more.take(few.len() as int) =~= few);
        assert(whole.take(few.len() as int) =~= whole.take(more.len() as int).take(
            few.len() as int,
        ));
    } else {
        assert(list.take(i) =~= list);
        assert(few.take(few.len() as int) =~= few);
    }
}

/// The usernames of a search are never empty, never have blanks around them,
/// are all different, and are no more than ten.
pub proof fn usernames_are_distinct(raw: Seq<char>)
    ensures
        usernames_of(raw).len() <= MAX_USERNAMES,
        usernames_of(raw).no_duplicates(),
        forall|i: int|
            0 <= i < usernames_of(raw).len() ==> (#[trigger] usernames_of(raw)[i]).len() > 0
                && exists|j: int|
                0 <= j < pieces(raw).len() && usernames_of(raw)[i] == text::trimmed(
                    #[trigger] pieces(raw)[j],
                ),
{
    let list = pieces(raw);
    names_are_distinct(list);
    let all = distinct_names(list);
    assert forall|i: int| 0 <= i < usernames_of(raw).len() implies (#[trigger] usernames_of(
        raw,
    )[i]).len() > 0 && exists|j: int|
        0 <= j < list.len() && usernames_of(raw)[i] == text::trimmed(#[trigger] list[j]) by {
        assert(usernames_of(raw)[i] == all[i]);
    }
}

proof fn names_are_distinct(list: Seq<Seq<char>>)
    ensures
        distinct_names(list).no_duplicates(),
        forall|i: int|
            0 <= i < distinct_names(list).len() ==> (#[trigger] distinct_names(list)[i]).len() > 0
                && exists|j: int|
                0 <= j < list.len() && distinct_names(list)[i] == text::trimmed(
                    #[trigger] list[j],
                ),
    decreases list.len(),
{
    if list.len() > 0 {
        let rest = list.drop_last();
        let before = distinct_names(rest);
        let now = distinct_names(list);
        names_are_distinct(rest);
        assert forall|i: int| 0 <= i < now.len() implies (#[trigger] now[i]).len() > 0 && exists|
            j: int,
        |
            0 <= j < list.len() && now[i] == text::trimmed(#[trigger] list[j]) by {
            if i < before.len() {
                assert(now[i] == before[i]);
                let j = choose|j: int|
                    0 <= j < rest.len() && before[i] == text::trimmed(#[trigger] rest[j]);
                assert(list[j] == rest[j]);
            } else {
                assert(now[i] == text::trimmed(list[list.len() - 1]));
            }
        }
    }
}

/// A list of texts as JSON.
pub open spec fn json_list_of(list: Seq<Seq<char>>) -> Seq<char> {
    "["@ + text::joined(list.map_values(|s: Seq<char>| outside::json_string_of(s)), ","@) + "]"@
}

/// A list of texts as JSON.
pub fn json_list(list: &Vec<String>) -> (r: String)
    ensures
        r@ == json_list_of(text::texts(list@)),
{
    let mut parts: Vec<String> = Vec::new();
    let mut i: usize = 0;
    while i < list.len()
        invariant
            i <= list@.len(),
            parts@.len() == i,
            forall|j: int|
                0 <= j < i ==> (#[trigger] parts@[j])@ == outside::json_string_of(list@[j]@),
        decreases list@.len() - i,
    {
        parts.push(json_string(list[i].as_str()));
        i = i + 1;
    }
    assert(text::texts(parts@) =~= text::texts(list@).map_values(
        |s: Seq<char>| outside::json_string_of(s),
    ));
    let mut r: String = "[".to_string();
    let inner = join(&parts, ",");
    r.append(inner.as_str());
    r.append("]");
    r
}

/// What was asked for.
#[derive(Debug)]
pub struct SearchParams {
    /// The usernames, in one text.
    pub usernames: String,
    pub timeout: Option<u64>,
    pub nsfw: Option<bool>,
    pub proxy: Option<String>,
    /// Keep what is found in the vault; ignored while it is locked.
    pub save_evidence: bool,
    /// Apply sure proposals without review.
    pub auto_accept: bool,
    /// How sure, in parts per million.
    pub auto_accept_threshold: Option<u64>,
    /// Fetch avatars for the profiles that evidence was applied to.
    pub download_media: bool,
}

/// What is kept of a search in the vault.
#[derive(Debug, Clone, Copy, PartialEq, Eq, Structural)]
pub struct VaultScan {
    pub auto_accept: bool,
    pub auto_accept_threshold: Option<u64>,
    pub download_media: bool,
}

/// A search that is to be made.
#[derive(Debug)]
pub struct SearchPlan {
    pub usernames: Vec<String>,
    /// How many sites are covered for each username.
    pub total: usize,
    pub config: CheckConfig,
    pub vault: Option<VaultScan>,
}

/// The seconds that a request is given.
pub open spec fn timeout_of(requested: Option<u64>) -> u64 {
    match requested {
        None => DEFAULT_TIMEOUT_SECS,
        Some(t) => if t < MIN_TIMEOUT_SECS {
            MIN_TIMEOUT_SECS
        } else {
            t
        },
    }
}

/// What is kept of a search: nothing unless it was asked for and the vault is
/// unlocked.
pub open spec fn vault_scan_of(params: SearchParams, locked: bool) -> Option<VaultScan> {
    if params.save_evidence && !locked {
        Some(
            VaultScan {
                auto_accept: params.auto_accept,
                auto_accept_threshold: params.auto_accept_threshold,
                download_media: params.download_media,
            },
        )
    } else {
        None
    }
}

/// Whether adult sites were asked for.
pub open spec fn wants_nsfw(params: SearchParams) -> bool {
    params.nsfw == Some(true)
}

/// Turns what was asked for into a search over `list`; nothing where no
/// username was given.
pub fn plan_search(params: SearchParams, list: &Table<SiteData>, locked: bool) -> (r: Option<
    SearchPlan,
>)
    ensures
        match r {
            None => usernames_of(params.usernames@).len() == 0,
            Some(p) => {
                &&& p.usernames@.len() > 0
                &&& text::texts(p.usernames@) == usernames_of(params.usernames@)
                &&& p.total == checker::covered(
                    table::viewed(list@),
                    wants_nsfw(params),
                    list@.len() as int,
                )
                &&& p.config.timeout_secs == timeout_of(params.timeout)
                &&& p.config.include_nsfw == wants_nsfw(params)
                &&& p.config.proxy == params.proxy
                &&& p.vault == vault_scan_of(params, locked)
            },
        },
{
    let usernames = parse_usernames(params.usernames.as_str());
    assert(text::texts(usernames@).len() == usernames@.len());
    if usernames.len() == 0 {
        return None;
    }
    let include_nsfw = match params.nsfw {
        Some(b) => b,
        None => false,
    };
    let total: usize = count_covered(list, include_nsfw);
    let timeout_secs: u64 = match params.timeout {
        None => DEFAULT_TIMEOUT_SECS,
        Some(t) => if t < MIN_TIMEOUT_SECS {
            MIN_TIMEOUT_SECS
        } else {
            t
        },
    };
    let vault = if params.save_evidence && !locked {
        Some(
            VaultScan {
                auto_accept: params.auto_accept,
                auto_accept_threshold: params.auto_accept_threshold,
                download_media: params.download_media,
            },
        )
    } else {
        None
    };
    Some(
        SearchPlan {
            usernames,
            total,
            config: CheckConfig { timeout_secs, include_nsfw, proxy: params.proxy },
            vault,
        },
    )
}

/// The id and the row of the scan, where it is kept in the vault.
pub fn open_scan(plan: &SearchPlan) -> (r: Option<(String, Statement)>)
    ensures
        match r {
            None => plan.vault is None,
            Some((id, s)) => plan.vault is Some && outside::uuid_shaped(id@) && exists|
                now: Seq<char>,
            |
                s@ == #[trigger] ledger::scan_start_of(
                    id@,
                    now,
                    json_list_of(text::texts(plan.usernames@)),
                    plan.total,
                ),
        },
{
    match plan.vault {
        None => None,
        Some(_) => {
            let names = json_list(&plan.usernames);
            Some(record_scan_start(names.as_str(), plan.total))
        },
    }
}

/// What a search is to do next. The number is that of the username.
#[derive(Debug, Clone, Copy, PartialEq, Eq, Structural)]
pub enum ScanStep {
    /// Announce the username, and begin to check it.
    SendStart(usize),
    /// Wait for the next result.
    AwaitResult(usize),
    /// Pass the result on.
    SendResult(usize),
    /// Announce that the username is done.
    SendDone(usize),
    /// Close the scan, and announce that all is done.
    Finish,
    /// Nothing any more.
    Stop,
}

/// What has come of a step.
#[derive(Debug, Clone, Copy, PartialEq, Eq, Structural)]
pub enum ScanSignal {
    /// What was to be sent was sent.
    Sent,
    /// Nobody listens any more.
    Unheard,
    /// A result has come.
    Result,
    /// No more results will come.
    NoMoreResults,
}

/// The step that follows.
pub open spec fn step_after(step: ScanStep, signal: ScanSignal, users: nat) -> ScanStep {
    match (step, signal) {
        (ScanStep::SendStart(i), ScanSignal::Sent) => ScanStep::AwaitResult(i),
        (ScanStep::AwaitResult(i), ScanSignal::Result) => ScanStep::SendResult(i),
        (ScanStep::AwaitResult(i), ScanSignal::NoMoreResults) => ScanStep::SendDone(i),
        (ScanStep::SendResult(i), ScanSignal::Sent) => ScanStep::AwaitResult(i),
        (ScanStep::SendDone(i), ScanSignal::Sent) => if i + 1 < users {
            ScanStep::SendStart((i + 1) as usize)
        } else {
            ScanStep::Finish
        },
        _ => ScanStep::Stop,
    }
}

/// The first step of a search.
pub fn first_step(users: usize) -> (r: ScanStep)
    ensures
        r == if users > 0 {
            ScanStep::SendStart(0)
        } else {
            ScanStep::Finish
        },
        r == begun(users as nat).step,
{
    if users > 0 {
        ScanStep::SendStart(0)
    } else {
        ScanStep::Finish
    }
}

/// The step that follows. The usernames are taken one after another; the search
/// stops as soon as nobody listens.
pub fn next_step(step: ScanStep, signal: ScanSignal, users: usize) -> (r: ScanStep)
    ensures
        r == step_after(step, signal, users as nat),
{
    match (step, signal) {
        (ScanStep::SendStart(i), ScanSignal::Sent) => ScanStep::AwaitResult(i),
        (ScanStep::AwaitResult(i), ScanSignal::Result) => ScanStep::SendResult(i),
        (ScanStep::AwaitResult(i), ScanSignal::NoMoreResults) => ScanStep::SendDone(i),
        (ScanStep::SendResult(i), ScanSignal::Sent) => ScanStep::AwaitResult(i),
        (ScanStep::SendDone(i), ScanSignal::Sent) => if i < users && i + 1 < users {
            ScanStep::SendStart(i + 1)
        } else {
            ScanStep::Finish
        },
        _ => ScanStep::Stop,
    }
}

/// Where a search of so many usernames stands after these signals.
pub open spec fn scan_path(users: nat, signals: Seq<ScanSignal>) -> ScanStep
    decreases signals.len(),
{
    if signals.len() == 0 {
        if users > 0 {
            ScanStep::SendStart(0)
        } else {
            ScanStep::Finish
        }
    } else {
        step_after(scan_path(users, signals.drop_last()), signals.last(), users)
    }
}

/// How many usernames were announced as done.
pub open spec fn users_done(users: nat, signals: Seq<ScanSignal>) -> nat
    decreases signals.len(),
{
    if signals.len() == 0 {
        0
    } else {
        let rest = signals.drop_last();
        users_done(users, rest) + if scan_path(users, rest) is SendDone && signals.last()
            == ScanSignal::Sent {
            1nat
        } else {
            0
        }
    }
}

/// A search takes its usernames one after another: while it is at the username
/// with number `i`, just those before it are done; it closes the scan only when
/// all are; and once it has stopped it does nothing more.
pub proof fn usernames_are_taken_in_order(users: nat, signals: Seq<ScanSignal>)
    requires
        users <= usize::MAX,
    ensures
        match scan_path(users, signals) {
            ScanStep::SendStart(i) => i < users && users_done(users, signals) == i,
            ScanStep::AwaitResult(i) => i < users && users_done(users, signals) == i,
            ScanStep::SendResult(i) => i < users && users_done(users, signals) == i,
            ScanStep::SendDone(i) => i < users && users_done(users, signals) == i,
            ScanStep::Finish => users_done(users, signals) == users,
            ScanStep::Stop => users_done(users, signals) <= users,
        },
    decreases signals.len(),
{
    if signals.len() > 0 {
        usernames_are_taken_in_order(users, signals.drop_last());
    }
}

/// Where nobody listens any more, a search stops, and stays so.
pub proof fn unheard_search_stops(step: ScanStep, signal: ScanSignal, users: nat)
    ensures
        step_after(step, ScanSignal::Unheard, users) == ScanStep::Stop,
        step_after(ScanStep::Stop, signal, users) == ScanStep::Stop,
{
}

/// What has been counted: results and finds of this username, and over all
/// usernames finds, proposals that were applied and proposals that wait.
#[derive(Debug, Clone, Copy, PartialEq, Eq, Structural)]
pub struct Tally {
    pub checked: usize,
    pub found: usize,
    pub total_hits: usize,
    pub auto_accepted: usize,
    pub queued: usize,
}

/// One more, as far as the type goes.
pub open spec fn one_more(n: usize) -> usize {
    if n < usize::MAX {
        (n + 1) as usize
    } else {
        n
    }
}

fn count_up(n: usize) -> (r: usize)
    ensures
        r == one_more(n),
{
    if n < usize::MAX {
        n + 1
    } else {
        n
    }
}

/// A tally with one more result.
pub open spec fn with_result(t: Tally, status: QueryStatus) -> Tally {
    if status == QueryStatus::Claimed {
        Tally {
            checked: one_more(t.checked),
            found: one_more(t.found),
            total_hits: one_more(t.total_hits),
            ..t
        }
    } else {
        Tally { checked: one_more(t.checked), ..t }
    }
}

/// What came of a proposal, as far as it is counted.
pub open spec fn with_outcome(t: Tally, outcome: Option<ProposalOutcome>) -> Tally {
    match outcome {
        Some(ProposalOutcome::Applied { .. }) => Tally {
            auto_accepted: one_more(t.auto_accepted),
            ..t
        },
        Some(ProposalOutcome::Queued { .. }) => Tally { queued: one_more(t.queued), ..t },
        _ => t,
    }
}

impl Tally {
    /// Nothing counted yet.
    pub fn new() -> (t: Tally)
        ensures
            t == (Tally { checked: 0, found: 0, total_hits: 0, auto_accepted: 0, queued: 0 }),
    {
        Tally { checked: 0, found: 0, total_hits: 0, auto_accepted: 0, queued: 0 }
    }

    /// Begins to count for the next username.
    pub fn next_user(&mut self)
        ensures
            *final(self) == (Tally { checked: 0, found: 0, ..*old(self) }),
    {
        self.checked = 0;
        self.found = 0;
    }

    /// Counts a result.
    pub fn count_result(&mut self, status: QueryStatus)
        ensures
            *final(self) == with_result(*old(self), status),
    {
        self.checked = count_up(self.checked);
        if status == QueryStatus::Claimed {
            self.found = count_up(self.found);
            self.total_hits = count_up(self.total_hits);
        }
    }

    /// Counts what came of a proposal; `None` where it failed.
    pub fn count_outcome(&mut self, outcome: &Option<ProposalOutcome>)
        ensures
            *final(self) == with_outcome(*old(self), *outcome),
    {
        match outcome {
            Some(ProposalOutcome::Applied { .. }) => {
                self.auto_accepted = count_up(self.auto_accepted);
            },
            Some(ProposalOutcome::Queued { .. }) => {
                self.queued = count_up(self.queued);
            },
            _ => {},
        }
    }
}

/// A tally with the results of these verdicts.
pub open spec fn with_results(t: Tally, verdicts: Seq<QueryStatus>) -> Tally
    decreases verdicts.len(),
{
    if verdicts.len() == 0 {
        t
    } else {
        with_result(with_results(t, verdicts.drop_last()), verdicts.last())
    }
}

/// How many of the verdicts are finds.
pub open spec fn finds(verdicts: Seq<QueryStatus>) -> nat
    decreases verdicts.len(),
{
    if verdicts.len() == 0 {
        0
    } else {
        finds(verdicts.drop_last()) + if verdicts.last() == QueryStatus::Claimed {
            1nat
        } else {
            0
        }
    }
}

/// The tally counts every result once, and every find once, for the username
/// and for the scan.
pub proof fn tally_counts_every_result(t: Tally, verdicts: Seq<QueryStatus>)
    requires
        t.checked + verdicts.len() <= usize::MAX,
        t.found + verdicts.len() <= usize::MAX,
        t.total_hits + verdicts.len() <= usize::MAX,
    ensures
        with_results(t, verdicts).checked == t.checked + verdicts.len(),
        with_results(t, verdicts).found == t.found + finds(verdicts),
        with_results(t, verdicts).total_hits == t.total_hits + finds(verdicts),
        finds(verdicts) <= verdicts.len(),
        with_results(t, verdicts).auto_accepted == t.auto_accepted,
        with_results(t, verdicts).queued == t.queued,
    decreases verdicts.len(),
{
    if verdicts.len() > 0 {
        tally_counts_every_result(t, verdicts.drop_last());
    }
}

/// What is kept of a result.
pub fn result_row(scan_id: &str, username: &str, result: &QueryResult) -> (r: ResultRow)
    ensures
        r.scan_id@ == scan_id@,
        r.username@ == username@,
        r.site_name@ == result@.site_name,
        r.site_url@ == result@.site_url,
        r.status@ == result@.status.name(),
        r.confidence == result@.confidence,
        r.response_time_ms == result@.response_time_ms,
        text::opt_text(r.body_sha256) == result@.body_sha256,
{
    ResultRow {
        scan_id: scan_id.to_string(),
        username: username.to_string(),
        site_name: result.site_name.clone(),
        site_url: result.site_url.clone(),
        status: result.status.as_str().to_string(),
        confidence: result.confidence,
        response_time_ms: result.response_time_ms,
        body_sha256: match &result.body_sha256 {
            Some(s) => Some(s.clone()),
            None => None,
        },
    }
}

/// The fields of a result from which a proposal is to be made.
pub open spec fn fields_offered(result: ResultView) -> Option<Seq<(Seq<char>, ExtractedView)>> {
    if result.status == QueryStatus::Claimed {
        result.extracted
    } else {
        None
    }
}

/// The fields of a result from which a proposal is to be made: those of an
/// account that was found, where there are any.
pub fn fields_to_propose(result: &QueryResult) -> (r: Option<&Table<ExtractedValue>>)
    ensures
        match r {
            Some(t) => result@.status == QueryStatus::Claimed && result@.extracted == Some(
                table::viewed(t@),
            ),
            None => result@.status != QueryStatus::Claimed || result@.extracted is None,
        },
        fields_offered(result@) == match r {
            Some(t) => Some(table::viewed(t@)),
            None => None,
        },
{
    if result.status == QueryStatus::Claimed {
        match &result.extracted {
            Some(t) => Some(t),
            None => None,
        }
    } else {
        None
    }
}

/// The avatar among extracted fields.
pub open spec fn avatar_of(fields: Seq<(Seq<char>, ExtractedView)>) -> Option<Seq<char>> {
    match table::lookup(fields, "avatar_url"@) {
        Some(ExtractedView::One(url)) => Some(url),
        _ => None,
    }
}

/// The profile that a proposal was applied to.
pub open spec fn profile_applied_to(outcome: Option<ProposalOutcome>) -> Option<String> {
    match outcome {
        Some(ProposalOutcome::Applied { profile_id }) => Some(profile_id),
        _ => None,
    }
}

/// Whether an avatar is to be fetched.
pub open spec fn fetches_avatar(
    outcome: Option<ProposalOutcome>,
    download_media: bool,
    fields: Seq<(Seq<char>, ExtractedView)>,
) -> bool {
    download_media && profile_applied_to(outcome) is Some && avatar_of(fields) is Some
}

/// The avatar to fetch, and the profile that it belongs to. One is fetched only
/// where that was asked for and the proposal was applied at once.
pub fn avatar_to_fetch(
    outcome: &Option<ProposalOutcome>,
    download_media: bool,
    fields: &Table<ExtractedValue>,
) -> (r: Option<(String, String)>)
    ensures
        match r {
            Some((profile, url)) => download_media && (*outcome matches Some(
                ProposalOutcome::Applied { profile_id },
            ) && profile == profile_id) && avatar_of(table::viewed(fields@)) == Some(url@),
            None => !download_media || !(*outcome matches Some(ProposalOutcome::Applied { .. }))
                || avatar_of(table::viewed(fields@)) is None,
        },
        r is Some <==> fetches_avatar(*outcome, download_media, table::viewed(fields@)),
        r matches Some((profile, _)) ==> profile_applied_to(*outcome) == Some(profile),
{
    if !download_media {
        return None;
    }
    match outcome {
        Some(ProposalOutcome::Applied { profile_id }) => {
            let found = fields.get("avatar_url");
            proof {
                table::viewed_get(fields@, "avatar_url"@);
            }
            match found {
                Some(ExtractedValue::One(url)) => Some((profile_id.clone(), url.clone())),
                _ => None,
            }
        },
        _ => None,
    }
}

/// What an avatar is taken to be where its type is not said.
pub open spec fn mime_of(content_type: Option<Seq<char>>) -> Seq<char> {
    match content_type {
        Some(t) => t,
        None => "application/octet-stream"@,
    }
}

/// The type of an avatar, from the head of the reply, or why it is refused.
pub open spec fn avatar_type_of(
    status_code: u16,
    shown: Seq<char>,
    content_type: Option<Seq<char>>,
) -> Result<Seq<char>, Seq<char>> {
    if !checker::is_success(status_code) {
        Err("avatar fetch HTTP "@ + shown)
    } else if text::starts_with(mime_of(content_type), "image/"@) {
        Ok(mime_of(content_type))
    } else {
        Err("non-image content-type "@ + mime_of(content_type))
    }
}

/// The type of an avatar, from the head of the reply; an error where the reply
/// is none of success or the type none of an image. `shown` is the status as it
/// is printed.
pub fn check_avatar_head(status_code: u16, shown: &str, content_type: Option<String>) -> (r: Result<
    String,
    String,
>)
    ensures
        match r {
            Ok(m) => avatar_type_of(status_code, shown@, text::opt_text(content_type)) == Ok::<
                _,
                Seq<char>,
            >(m@),
            Err(e) => avatar_type_of(status_code, shown@, text::opt_text(content_type)) == Err::<
                Seq<char>,
                _,
            >(e@),
        },
        ({
            let mime = mime_of(text::opt_text(content_type));
            match r {
                Ok(m) => checker::is_success(status_code) && text::starts_with(mime, "image/"@)
                    && m@ == mime,
                Err(e) => if !checker::is_success(status_code) {
                    e@ == "avatar fetch HTTP "@ + shown@
                } else {
                    !text::starts_with(mime, "image/"@) && e@ == "non-image content-type "@ + mime
                },
            }
        }),
{
    if !(200 <= status_code && status_code < 300) {
        let mut e: String = "avatar fetch HTTP ".to_string();
        e.append(shown);
        return Err(e);
    }
    let mime = match content_type {
        Some(t) => t,
        None => "application/octet-stream".to_string(),
    };
    if str_starts_with(mime.as_str(), "image/") {
        Ok(mime)
    } else {
        let mut e: String = "non-image content-type ".to_string();
        e.append(mime.as_str());
        Err(e)
    }
}

/// Why an avatar of so many bytes is refused, if it is.
pub open spec fn avatar_size_refusal(bytes: nat) -> Option<Seq<char>> {
    if bytes > MAX_AVATAR_BYTES {
        Some("avatar too large ("@ + text::decimal(bytes) + " bytes)"@)
    } else {
        None
    }
}

/// Refuses an avatar that is too large.
pub fn check_avatar_size(bytes: usize) -> (r: Result<(), String>)
    ensures
        match r {
            Ok(()) => avatar_size_refusal(bytes as nat) is None,
            Err(e) => avatar_size_refusal(bytes as nat) == Some(e@),
        },
        match r {
            Ok(()) => bytes <= MAX_AVATAR_BYTES,
            Err(e) => bytes > MAX_AVATAR_BYTES && e@ == "avatar too large ("@ + text::decimal(
                bytes as nat,
            ) + " bytes)"@,
        },
{
    if bytes > MAX_AVATAR_BYTES {
        let mut e: String = "avatar too large (".to_string();
        let n = decimal_u64(bytes as u64);
        e.append(n.as_str());
        e.append(" bytes)");
        Err(e)
    } else {
        Ok(())
    }
}

/// What is told of a result.
#[derive(Debug)]
pub struct ResultEvent {
    pub username: String,
    pub site_name: String,
    pub url_main: String,
    pub site_url: String,
    pub status: String,
    pub response_time_ms: Option<u64>,
    pub checked: usize,
    pub total: usize,
    pub confidence: u8,
    pub extracted: Option<Table<ExtractedValue>>,
}

/// What is told of the vault at the end of a search.
#[derive(Debug)]
pub struct VaultSummary {
    pub scan_id: String,
    pub auto_accepted: usize,
    pub queued: usize,
}

/// The end of the scan's row and what is told of the vault, where the scan is
/// kept there.
pub fn close_scan(scan_id: Option<String>, tally: &Tally) -> (r: Option<(Statement, VaultSummary)>)
    ensures
        match r {
            None => scan_id is None,
            Some((s, v)) => scan_id == Some(v.scan_id) && v.auto_accepted == tally.auto_accepted
                && v.queued == tally.queued && exists|now: Seq<char>|
                s@ == #[trigger] ledger::scan_finish_of(v.scan_id@, now, tally.total_hits),
        },
{
    match scan_id {
        None => None,
        Some(id) => {
            let s = record_scan_finish(id.as_str(), tally.total_hits);
            Some(
                (
                    s,
                    VaultSummary {
                        scan_id: id,
                        auto_accepted: tally.auto_accepted,
                        queued: tally.queued,
                    },
                ),
            )
        },
    }
}

/// What is told of a username before its results.
#[derive(Debug)]
pub struct StartEvent {
    pub username: String,
    pub total: usize,
}

/// What is told of a username after its results.
#[derive(Debug)]
pub struct DoneEvent {
    pub username: String,
    pub found: usize,
    pub checked: usize,
}

/// What the vault is to do about a result.
#[derive(Debug)]
pub struct ResultPlan {
    /// The row to keep.
    pub row: Option<ResultRow>,
    /// Whether a proposal is to be made of the extracted fields.
    pub propose: bool,
}

/// The number of the username that a step is about.
pub open spec fn user_at(step: ScanStep) -> Option<int> {
    match step {
        ScanStep::SendStart(i) => Some(i as int),
        ScanStep::AwaitResult(i) => Some(i as int),
        ScanStep::SendResult(i) => Some(i as int),
        ScanStep::SendDone(i) => Some(i as int),
        _ => None,
    }
}

/// Where a search stands: its next step, and what has been counted.
pub struct RunView {
    pub step: ScanStep,
    pub tally: Tally,
}

/// Where a search of so many usernames begins.
pub open spec fn begun(users: nat) -> RunView {
    RunView {
        step: scan_path(users, Seq::empty()),
        tally: Tally { checked: 0, found: 0, total_hits: 0, auto_accepted: 0, queued: 0 },
    }
}

/// Where a search goes on; for the next username the count begins anew.
pub open spec fn advanced(r: RunView, signal: ScanSignal, users: nat) -> RunView {
    let step = step_after(r.step, signal, users);
    RunView {
        step,
        tally: if step is SendStart {
            Tally { checked: 0, found: 0, ..r.tally }
        } else {
            r.tally
        },
    }
}

/// A search that is under way.
#[derive(Debug)]
pub struct ScanRun {
    pub plan: SearchPlan,
    /// The scan's row in the vault, where there is one.
    pub scan_id: Option<String>,
    pub step: ScanStep,
    pub tally: Tally,
}

impl ScanRun {
    /// The step is about a username that there is.
    pub open spec fn well_formed(self) -> bool {
        user_at(self.step) matches Some(i) ==> 0 <= i < self.plan.usernames@.len()
    }

    /// What the search tells where it stands, `status` being the verdict of the
    /// result that it is at.
    pub open spec fn tells(self, status: QueryStatus) -> EventView {
        told_at(text::texts(self.plan.usernames@), self.plan.total, self.state(), status)
    }

    /// Where the search stands.
    pub open spec fn state(self) -> RunView {
        RunView { step: self.step, tally: self.tally }
    }

    /// The username that the search is at.
    pub open spec fn username(self) -> Option<Seq<char>> {
        match user_at(self.step) {
            Some(i) => Some(self.plan.usernames@[i]@),
            None => None,
        }
    }

    /// Whether results are kept in the vault.
    pub open spec fn is_kept(self) -> bool {
        self.plan.vault is Some && self.scan_id is Some && self.username() is Some
    }

    /// Begins a search.
    pub fn begin(plan: SearchPlan, scan_id: Option<String>) -> (r: ScanRun)
        ensures
            r.well_formed(),
            r.plan == plan,
            r.scan_id == scan_id,
            r.state() == begun(plan.usernames@.len()),
    {
        let step = first_step(plan.usernames.len());
        ScanRun { plan, scan_id, step, tally: Tally::new() }
    }

    /// Goes on to the step that follows; for the next username the count begins
    /// anew.
    pub fn advance(&mut self, signal: ScanSignal)
        requires
            old(self).well_formed(),
        ensures
            final(self).well_formed(),
            final(self).plan == old(self).plan,
            final(self).scan_id == old(self).scan_id,
            final(self).state() == advanced(
                old(self).state(),
                signal,
                old(self).plan.usernames@.len(),
            ),
    {
        let step = next_step(self.step, signal, self.plan.usernames.len());
        self.step = step;
        if let ScanStep::SendStart(_) = step {
            self.tally.next_user();
        }
    }

    fn current(&self) -> (r: Option<&String>)
        requires
            self.well_formed(),
        ensures
            match r {
                Some(u) => self.username() == Some(u@),
                None => self.username() is None,
            },
    {
        match self.step {
            ScanStep::SendStart(i) => Some(&self.plan.usernames[i]),
            ScanStep::AwaitResult(i) => Some(&self.plan.usernames[i]),
            ScanStep::SendResult(i) => Some(&self.plan.usernames[i]),
            ScanStep::SendDone(i) => Some(&self.plan.usernames[i]),
            _ => None,
        }
    }

    /// What is told of the username before its results.
    pub fn start_event(&self) -> (r: Option<StartEvent>)
        requires
            self.well_formed(),
        ensures
            match r {
                Some(e) => self.username() == Some(e.username@) && e.total == self.plan.total,
                None => self.username() is None,
            },
            self.step is SendStart ==> r is Some && self.tells(QueryStatus::Unknown) == (
            EventView::Start { username: r->0.username@, total: r->0.total }),
    {
        match self.current() {
            Some(u) => Some(StartEvent { username: u.clone(), total: self.plan.total }),
            None => None,
        }
    }

    /// What is told of the username after its results.
    pub fn done_event(&self) -> (r: Option<DoneEvent>)
        requires
            self.well_formed(),
        ensures
            match r {
                Some(e) => self.username() == Some(e.username@) && e.found == self.tally.found
                    && e.checked == self.tally.checked,
                None => self.username() is None,
            },
            self.step is SendDone ==> r is Some && self.tells(QueryStatus::Unknown) == (
            EventView::Done {
                username: r->0.username@,
                found: r->0.found,
                checked: r->0.checked,
            }),
    {
        match self.current() {
            Some(u) => Some(
                DoneEvent {
                    username: u.clone(),
                    found: self.tally.found,
                    checked: self.tally.checked,
                },
            ),
            None => None,
        }
    }

    /// What is told of a result that was counted last: the result, with its
    /// place among those of the username.
    pub fn result_event(&self, result: QueryResult) -> (r: Option<ResultEvent>)
        requires
            self.well_formed(),
        ensures
            match r {
                Some(e) => {
                    &&& self.username() == Some(e.username@)
                    &&& e.checked == self.tally.checked
                    &&& e.total == self.plan.total
                    &&& e.site_name == result.site_name
                    &&& e.url_main == result.url_main
                    &&& e.site_url == result.site_url
                    &&& e.status@ == result.status.name()
                    &&& e.response_time_ms == result.response_time_ms
                    &&& e.confidence == result.confidence
                    &&& e.extracted == result.extracted
                },
                None => self.username() is None,
            },
            self.step is SendResult ==> r is Some && self.tells(result.status) == (
            EventView::Result {
                username: r->0.username@,
                status: result.status,
                checked: r->0.checked,
                total: r->0.total,
            }),
    {
        match self.current() {
            Some(u) => Some(
                ResultEvent {
                    username: u.clone(),
                    site_name: result.site_name,
                    url_main: result.url_main,
                    site_url: result.site_url,
                    status: result.status.as_str().to_string(),
                    response_time_ms: result.response_time_ms,
                    checked: self.tally.checked,
                    total: self.plan.total,
                    confidence: result.confidence,
                    extracted: result.extracted,
                },
            ),
            None => None,
        }
    }

    /// Where a result was found, for a proposal: in this scan, for the username
    /// that the search is at, on the site of the result. Nothing where the
    /// search is not kept.
    pub fn hit(&self, result: &QueryResult) -> (r: Option<Hit>)
        requires
            self.well_formed(),
        ensures
            match r {
                Some(h) => {
                    &&& self.is_kept()
                    &&& Some(h@.scan_id) == text::opt_text(self.scan_id)
                    &&& Some(h@.username) == self.username()
                    &&& h@.site_name == result@.site_name
                    &&& h@.site_url == result@.site_url
                },
                None => !self.is_kept(),
            },
    {
        match (&self.plan.vault, &self.scan_id, self.current()) {
            (Some(_), Some(id), Some(u)) => Some(
                Hit {
                    scan_id: id.clone(),
                    username: u.clone(),
                    site_name: result.site_name.clone(),
                    site_url: result.site_url.clone(),
                },
            ),
            _ => None,
        }
    }

    /// Counts a result, and says what the vault is to do about it: nothing
    /// where the search is not kept, else to keep the row, and to make a
    /// proposal of what an account that was found yielded.
    pub fn receive(&mut self, result: &QueryResult) -> (r: ResultPlan)
        requires
            old(self).well_formed(),
        ensures
            final(self).well_formed(),
            final(self).plan == old(self).plan,
            final(self).scan_id == old(self).scan_id,
            final(self).step == old(self).step,
            final(self).tally == with_result(old(self).tally, result.status),
            match r.row {
                Some(row) => {
                    &&& old(self).is_kept()
                    &&& Some(row.scan_id@) == text::opt_text(old(self).scan_id)
                    &&& Some(row.username@) == old(self).username()
                    &&& row.site_name@ == result@.site_name
                    &&& row.site_url@ == result@.site_url
                    &&& row.status@ == result@.status.name()
                    &&& row.confidence == result@.confidence
                    &&& row.response_time_ms == result@.response_time_ms
                    &&& text::opt_text(row.body_sha256) == result@.body_sha256
                },
                None => !old(self).is_kept(),
            },
            r.propose == (old(self).is_kept() && result@.status == QueryStatus::Claimed
                && result@.extracted is Some),
            r.propose == (old(self).is_kept() && fields_offered(result@) is Some),
    {
        let row = match (&self.plan.vault, &self.scan_id, self.current()) {
            (Some(_), Some(id), Some(u)) => Some(result_row(id.as_str(), u.as_str(), result)),
            _ => None,
        };
        self.tally.count_result(result.status);
        let propose = row.is_some() && fields_to_propose(result).is_some();
        ResultPlan { row, propose }
    }

    /// Counts what came of a proposal, and names the avatar to fetch, if any.
    pub fn settle(&mut self, outcome: &Option<ProposalOutcome>, fields: &Table<ExtractedValue>) -> (
    r: Option<(String, String)>)
        requires
            old(self).well_formed(),
        ensures
            final(self).well_formed(),
            final(self).plan == old(self).plan,
            final(self).scan_id == old(self).scan_id,
            final(self).step == old(self).step,
            final(self).tally == with_outcome(old(self).tally, *outcome),
            ({
                let wanted = old(self).plan.vault matches Some(v) && v.download_media;
                match r {
                    Some((profile, url)) => wanted && (*outcome matches Some(
                        ProposalOutcome::Applied { profile_id },
                    ) && profile == profile_id) && avatar_of(table::viewed(fields@)) == Some(url@),
                    None => !wanted || !(*outcome matches Some(ProposalOutcome::Applied { .. }))
                        || avatar_of(table::viewed(fields@)) is None,
                }
            }),
    {
        self.tally.count_outcome(outcome);
        let wanted = match self.plan.vault {
            Some(v) => v.download_media,
            None => false,
        };
        avatar_to_fetch(outcome, wanted, fields)
    }
}

/// While the vault is locked, or where it was not asked for, nothing of a search
/// is kept; and a request is never given less than five seconds.
pub proof fn locked_vault_is_left_alone(params: SearchParams, locked: bool)
    ensures
        vault_scan_of(params, true) is None,
        !params.save_evidence ==> vault_scan_of(params, locked) is None,
        vault_scan_of(params, locked) is Some <==> params.save_evidence && !locked,
        timeout_of(params.timeout) >= MIN_TIMEOUT_SECS,
        params.timeout is None ==> timeout_of(params.timeout) == DEFAULT_TIMEOUT_SECS,
{
}

/// What is told in the course of a search.
pub enum EventView {
    Start { username: Seq<char>, total: usize },
    Result { username: Seq<char>, status: QueryStatus, checked: usize, total: usize },
    Done { username: Seq<char>, found: usize, checked: usize },
    Closing { usernames: nat, hits: usize, auto_accepted: usize, queued: usize },
}

/// A result that has come, and what came of the proposal that was made of it, if
/// any.
pub struct CheckedView {
    pub status: QueryStatus,
    pub outcome: Option<ProposalOutcome>,
}

/// Whether a proposal was applied.
pub open spec fn was_applied(c: CheckedView) -> bool {
    c.outcome matches Some(ProposalOutcome::Applied { .. })
}

/// Whether a proposal was put away.
pub open spec fn was_queued(c: CheckedView) -> bool {
    c.outcome matches Some(ProposalOutcome::Queued { .. })
}

/// How many finds, applied proposals and proposals put away there are among
/// results.
pub open spec fn sums_of(checks: Seq<CheckedView>) -> (nat, nat, nat)
    decreases checks.len(),
{
    if checks.len() == 0 {
        (0, 0, 0)
    } else {
        let before = sums_of(checks.drop_last());
        let c = checks.last();
        (
            before.0 + if c.status == QueryStatus::Claimed { 1nat } else { 0 },
            before.1 + if was_applied(c) { 1nat } else { 0 },
            before.2 + if was_queued(c) { 1nat } else { 0 },
        )
    }
}

/// How many results there are for the first `k` usernames, and how many finds,
/// applied proposals and proposals put away among them.
pub open spec fn sums_of_all(checks: Seq<Seq<CheckedView>>, k: int) -> (nat, nat, nat, nat)
    decreases k,
{
    if k <= 0 {
        (0, 0, 0, 0)
    } else {
        let before = sums_of_all(checks, k - 1);
        let one = sums_of(checks[k - 1]);
        (
            before.0 + checks[k - 1].len(),
            before.1 + one.0,
            before.2 + one.1,
            before.3 + one.2,
        )
    }
}

/// What is told of one username: that it begins, each of its results with its
/// place among them, and that it is done, with the count.
pub open spec fn user_events(name: Seq<char>, total: usize, checks: Seq<CheckedView>) -> Seq<
    EventView,
> {
    seq![EventView::Start { username: name, total }] + Seq::new(
        checks.len(),
        |k: int|
            EventView::Result {
                username: name,
                status: checks[k].status,
                checked: (k + 1) as usize,
                total,
            },
    ) + seq![
        EventView::Done {
            username: name,
            found: sums_of(checks).0 as usize,
            checked: checks.len() as usize,
        },
    ]
}

/// What is told of the first `k` usernames.
pub open spec fn users_events(
    names: Seq<Seq<char>>,
    total: usize,
    checks: Seq<Seq<CheckedView>>,
    k: int,
) -> Seq<EventView>
    decreases k,
{
    if k <= 0 {
        Seq::empty()
    } else {
        users_events(names, total, checks, k - 1) + user_events(
            names[k - 1],
            total,
            checks[k - 1],
        )
    }
}

/// What is told in the course of a whole search, the last thing being that all
/// is done.
pub open spec fn search_events(
    names: Seq<Seq<char>>,
    total: usize,
    checks: Seq<Seq<CheckedView>>,
) -> Seq<EventView> {
    let sums = sums_of_all(checks, names.len() as int);
    users_events(names, total, checks, names.len() as int).push(
        EventView::Closing {
            usernames: names.len(),
            hits: sums.1 as usize,
            auto_accepted: sums.2 as usize,
            queued: sums.3 as usize,
        },
    )
}

/// Where a search stands once a result is counted.
pub open spec fn received(r: RunView, c: CheckedView) -> RunView {
    RunView { tally: with_outcome(with_result(r.tally, c.status), c.outcome), ..r }
}

/// What a search tells where it stands, `status` being the verdict of the result
/// that it is at.
pub open spec fn told_at(
    names: Seq<Seq<char>>,
    total: usize,
    r: RunView,
    status: QueryStatus,
) -> EventView {
    match r.step {
        ScanStep::SendStart(i) => EventView::Start { username: names[i as int], total },
        ScanStep::SendResult(i) => EventView::Result {
            username: names[i as int],
            status,
            checked: r.tally.checked,
            total,
        },
        ScanStep::SendDone(i) => EventView::Done {
            username: names[i as int],
            found: r.tally.found,
            checked: r.tally.checked,
        },
        _ => EventView::Closing {
            usernames: names.len(),
            hits: r.tally.total_hits,
            auto_accepted: r.tally.auto_accepted,
            queued: r.tally.queued,
        },
    }
}

/// Where a search stands after results that came and were passed on, and what it
/// told of them.
pub open spec fn after_results(
    names: Seq<Seq<char>>,
    total: usize,
    r: RunView,
    checks: Seq<CheckedView>,
) -> (RunView, Seq<EventView>)
    decreases checks.len(),
{
    if checks.len() == 0 {
        (r, Seq::empty())
    } else {
        let (before, told) = after_results(names, total, r, checks.drop_last());
        let c = checks.last();
        let there = advanced(received(before, c), ScanSignal::Result, names.len());
        (
            advanced(there, ScanSignal::Sent, names.len()),
            told.push(told_at(names, total, there, c.status)),
        )
    }
}

/// Where a search stands after a username with its results, and what it told.
pub open spec fn after_user(
    names: Seq<Seq<char>>,
    total: usize,
    r: RunView,
    checks: Seq<CheckedView>,
) -> (RunView, Seq<EventView>) {
    let first = told_at(names, total, r, QueryStatus::Unknown);
    let (all, told) = after_results(
        names,
        total,
        advanced(r, ScanSignal::Sent, names.len()),
        checks,
    );
    let done = advanced(all, ScanSignal::NoMoreResults, names.len());
    (
        advanced(done, ScanSignal::Sent, names.len()),
        seq![first] + told + seq![told_at(names, total, done, QueryStatus::Unknown)],
    )
}

/// Where a search stands after the first `k` usernames, and what it told.
pub open spec fn after_users(
    names: Seq<Seq<char>>,
    total: usize,
    checks: Seq<Seq<CheckedView>>,
    k: int,
) -> (RunView, Seq<EventView>)
    decreases k,
{
    if k <= 0 {
        (begun(names.len()), Seq::empty())
    } else {
        let (before, told) = after_users(names, total, checks, k - 1);
        let (after, more) = after_user(names, total, before, checks[k - 1]);
        (after, told + more)
    }
}

proof fn sums_are_bounded(checks: Seq<CheckedView>)
    ensures
        sums_of(checks).0 <= checks.len(),
        sums_of(checks).1 <= checks.len(),
        sums_of(checks).2 <= checks.len(),
    decreases checks.len(),
{
    if checks.len() > 0 {
        sums_are_bounded(checks.drop_last());
    }
}

proof fn sums_of_all_are_bounded(checks: Seq<Seq<CheckedView>>, k: int)
    requires
        0 <= k <= checks.len(),
    ensures
        sums_of_all(checks, k).0 <= sums_of_all(checks, checks.len() as int).0,
        sums_of_all(checks, k).1 <= sums_of_all(checks, k).0,
        sums_of_all(checks, k).2 <= sums_of_all(checks, k).0,
        sums_of_all(checks, k).3 <= sums_of_all(checks, k).0,
    decreases checks.len() - k,
{
    sums_fit(checks, k);
    if k < checks.len() {
        sums_of_all_are_bounded(checks, k + 1);
    }
}

proof fn sums_fit(checks: Seq<Seq<CheckedView>>, k: int)
    requires
        0 <= k <= checks.len(),
    ensures
        sums_of_all(checks, k).1 <= sums_of_all(checks, k).0,
        sums_of_all(checks, k).2 <= sums_of_all(checks, k).0,
        sums_of_all(checks, k).3 <= sums_of_all(checks, k).0,
    decreases k,
{
    if k > 0 {
        sums_fit(checks, k - 1);
        sums_are_bounded(checks[k - 1]);
    }
}

#[verifier::rlimit(40)]
proof fn results_are_told_in_order(
    names: Seq<Seq<char>>,
    total: usize,
    r: RunView,
    checks: Seq<CheckedView>,
    i: usize,
)
    requires
        i < names.len(),
        r.step == ScanStep::AwaitResult(i),
        r.tally.checked == 0,
        r.tally.found == 0,
        r.tally.total_hits + checks.len() <= usize::MAX,
        r.tally.auto_accepted + checks.len() <= usize::MAX,
        r.tally.queued + checks.len() <= usize::MAX,
    ensures
        ({
            let (after, told) = after_results(names, total, r, checks);
            let sums = sums_of(checks);
            &&& after.step == ScanStep::AwaitResult(i)
            &&& after.tally.checked == checks.len()
            &&& after.tally.found == sums.0
            &&& after.tally.total_hits == r.tally.total_hits + sums.0
            &&& after.tally.auto_accepted == r.tally.auto_accepted + sums.1
            &&& after.tally.queued == r.tally.queued + sums.2
            &&& told == Seq::new(
                checks.len(),
                |k: int|
                    EventView::Result {
                        username: names[i as int],
                        status: checks[k].status,
                        checked: (k + 1) as usize,
                        total,
                    },
            )
        }),
    decreases checks.len(),
{
    let (after, told) = after_results(names, total, r, checks);
    sums_are_bounded(checks);
    if checks.len() > 0 {
        let rest = checks.drop_last();
        results_are_told_in_order(names, total, r, rest, i);
        sums_are_bounded(rest);
    }
    assert(told =~= Seq::new(
        checks.len(),
        |k: int|
            EventView::Result {
                username: names[i as int],
                status: checks[k].status,
                checked: (k + 1) as usize,
                total,
            },
    ));
}

#[verifier::rlimit(40)]
proof fn users_are_told_in_order(
    names: Seq<Seq<char>>,
    total: usize,
    checks: Seq<Seq<CheckedView>>,
    k: int,
)
    requires
        0 <= k <= names.len(),
        names.len() == checks.len(),
        names.len() <= usize::MAX,
        sums_of_all(checks, checks.len() as int).0 <= usize::MAX,
    ensures
        ({
            let (after, told) = after_users(names, total, checks, k);
            let sums = sums_of_all(checks, k);
            &&& after.step == if k < names.len() {
                ScanStep::SendStart(k as usize)
            } else {
                ScanStep::Finish
            }
            &&& k < names.len() ==> after.tally.checked == 0 && after.tally.found == 0
            &&& after.tally.total_hits == sums.1
            &&& after.tally.auto_accepted == sums.2
            &&& after.tally.queued == sums.3
            &&& told == users_events(names, total, checks, k)
        }),
    decreases k,
{
    sums_of_all_are_bounded(checks, k);
    if k > 0 {
        users_are_told_in_order(names, total, checks, k - 1);
        sums_of_all_are_bounded(checks, k - 1);
        let (before, told) = after_users(names, total, checks, k - 1);
        let i = (k - 1) as usize;
        let waiting = advanced(before, ScanSignal::Sent, names.len());
        assert(waiting.step == ScanStep::AwaitResult(i));
        sums_are_bounded(checks[k - 1]);
        results_are_told_in_order(names, total, waiting, checks[k - 1], i);
        let (after, more) = after_user(names, total, before, checks[k - 1]);
        assert(more =~= user_events(names[k - 1], total, checks[k - 1]));
    }
}

/// The whole of what a search tells, where somebody listens to the end: for one
/// username after another that it begins, each of its results with its place
/// among them, and that it is done with so many finds; and at last that all is
/// done, with the finds and proposals of all usernames counted.
pub proof fn searches_are_told_in_order(
    names: Seq<Seq<char>>,
    total: usize,
    checks: Seq<Seq<CheckedView>>,
)
    requires
        names.len() == checks.len(),
        names.len() <= usize::MAX,
        sums_of_all(checks, checks.len() as int).0 <= usize::MAX,
    ensures
        ({
            let (end, told) = after_users(names, total, checks, names.len() as int);
            &&& end.step == ScanStep::Finish
            &&& told.push(told_at(names, total, end, QueryStatus::Unknown)) == search_events(
                names,
                total,
                checks,
            )
        }),
{
    users_are_told_in_order(names, total, checks, names.len() as int);
}

/// A text that holds no comma, no line feed and no semicolon is one username,
/// without the blanks around it, or none where it is blank.
pub proof fn a_text_without_separators_is_one_username(raw: Seq<char>)
    requires
        forall|i: int|
            0 <= i < raw.len() ==> (#[trigger] raw[i]) != ',' && raw[i] != '\n' && raw[i] != ';',
    ensures
        pieces(raw) == seq![raw],
        text::trimmed(raw).len() > 0 ==> usernames_of(raw) == seq![text::trimmed(raw)],
        text::trimmed(raw).len() == 0 ==> usernames_of(raw).len() == 0,
{
    a_text_without_separators_is_one_piece(raw);
    let one = seq![raw];
    assert(one.drop_last() =~= Seq::empty());
    assert(distinct_names(one.drop_last()) =~= Seq::empty());
    if text::trimmed(raw).len() > 0 {
        assert(distinct_names(one) =~= seq![text::trimmed(raw)]);
    }
}

proof fn a_text_without_separators_is_one_piece(raw: Seq<char>)
    requires
        forall|i: int|
            0 <= i < raw.len() ==> (#[trigger] raw[i]) != ',' && raw[i] != '\n' && raw[i] != ';',
    ensures
        pieces(raw) == seq![raw],
    decreases raw.len(),
{
    if raw.len() > 0 {
        let rest = raw.drop_last();
        assert forall|i: int| 0 <= i < rest.len() implies (#[trigger] rest[i]) != ',' && rest[i]
            != '\n' && rest[i] != ';' by {
            assert(rest[i] == raw[i]);
        }
        a_text_without_separators_is_one_piece(rest);
        assert(raw.last() == raw[raw.len() - 1]);
        assert(rest.push(raw.last()) =~= raw);
        assert(pieces(raw) =~= seq![raw]);
    } else {
        assert(raw =~= Seq::empty());
        assert(pieces(raw) =~= seq![raw]);
    }
}

/// Texts one after another with these characters between them.
pub open spec fn rejoined(list: Seq<Seq<char>>, between: Seq<char>) -> Seq<char>
    decreases list.len(),
{
    if list.len() == 0 {
        Seq::empty()
    } else if list.len() == 1 {
        list[0]
    } else {
        rejoined(list.drop_last(), between.drop_last()).push(between.last()) + list.last()
    }
}

/// The commas, line feeds and semicolons of a text, in order.
pub open spec fn separators_of(raw: Seq<char>) -> Seq<char> {
    raw.filter(|c: char| c == ',' || c == '\n' || c == ';')
}

/// The pieces of a text, joined again with the commas, line feeds and semicolons
/// that stood between them, give back the text; no piece holds one of these.
pub proof fn pieces_give_back_the_text(raw: Seq<char>)
    ensures
        pieces(raw).len() == separators_of(raw).len() + 1,
        rejoined(pieces(raw), separators_of(raw)) == raw,
        forall|i: int, j: int|
            0 <= i < pieces(raw).len() && 0 <= j < pieces(raw)[i].len() ==> (#[trigger] pieces(
                raw,
            )[i][j]) != ',' && pieces(raw)[i][j] != '\n' && pieces(raw)[i][j] != ';',
    decreases raw.len(),
{
    reveal(Seq::filter);
    let now = pieces(raw);
    if raw.len() > 0 {
        let rest = raw.drop_last();
        let c = raw.last();
        let before = pieces(rest);
        let seps = separators_of(rest);
        pieces_give_back_the_text(rest);
        assert(rest.push(c) =~= raw);
        if c == ',' || c == '\n' || c == ';' {
            assert(now =~= before.push(Seq::empty()));
            assert(separators_of(raw) =~= seps.push(c));
            assert(now.drop_last() =~= before);
            assert(seps.push(c).drop_last() =~= seps);
            assert(rejoined(now, separators_of(raw)) =~= raw);
        } else {
            assert(now =~= before.drop_last().push(before.last().push(c)));
            assert(separators_of(raw) =~= seps);
            assert(now.drop_last() =~= before.drop_last());
            assert(rejoined(now, seps) =~= rejoined(before, seps).push(c));
        }
        assert forall|i: int, j: int| 0 <= i < now.len() && 0 <= j < now[i].len() implies (
        #[trigger] now[i][j]) != ',' && now[i][j] != '\n' && now[i][j] != ';' by {
            if i < before.len() {
                if j < before[i].len() {
                    assert(now[i][j] == before[i][j]);
                }
            }
        }
    } else {
        assert(now =~= seq![Seq::empty()]);
        assert(rejoined(now, separators_of(raw)) =~= raw);
    }
}

/// Every piece that is not blank gives its username, and what comes later adds
/// usernames at the end only: so they stand in the order in which they first
/// come.
pub proof fn every_piece_gives_its_username(list: Seq<Seq<char>>, i: int)
    requires
        0 <= i <= list.len(),
    ensures
        distinct_names(list.take(i)).len() <= distinct_names(list).len(),
        distinct_names(list).take(distinct_names(list.take(i)).len() as int) == distinct_names(
            list.take(i),
        ),
        i < list.len() && text::trimmed(list[i]).len() > 0 ==> distinct_names(list).contains(
            text::trimmed(list[i]),
        ),
        distinct_names(list).no_duplicates(),
{
    names_only_grow(list, i);
    names_are_distinct(list);
    if i < list.len() && text::trimmed(list[i]).len() > 0 {
        let few = distinct_names(list.take(i));
        let more = distinct_names(list.take(i + 1));
        let whole = distinct_names(list);
        let name = text::trimmed(list[i]);
        names_only_grow(list, i + 1);
        assert(list.take(i + 1).drop_last() =~= list.take(i));
        assert(list.take(i + 1).last() == list[i]);
        assert(more.contains(name)) by {
            if !few.contains(name) {
                assert(more[few.len() as int] == name);
            }
        }
        let k = choose|k: int| 0 <= k < more.len() && more[k] == name;
        assert(whole.take(more.len() as int)[k] == name);
        assert(whole[k] == name);
    }
}

/// A search takes the first ten usernames and no more.
pub proof fn ten_usernames_are_taken(raw: Seq<char>)
    ensures
        ({
            let all = distinct_names(pieces(raw));
            &&& all.len() <= 10 ==> usernames_of(raw) == all
            &&& all.len() > 10 ==> usernames_of(raw) == all.take(10)
        }),
{
}

/// What is made of a request for a search: a request to a site is given what was
/// asked for, but at least five seconds, and thirty where nothing was; adult
/// sites are covered only where they were asked for; and what is kept follows
/// what was asked for.
pub proof fn searches_follow_what_was_asked(params: SearchParams, locked: bool, seconds: u64)
    ensures
        timeout_of(None) == 30,
        seconds >= 5 ==> timeout_of(Some(seconds)) == seconds,
        seconds < 5 ==> timeout_of(Some(seconds)) == 5,
        wants_nsfw(params) <==> params.nsfw is Some && params.nsfw->0,
        params.save_evidence && !locked ==> vault_scan_of(params, locked) is Some && {
            let v = vault_scan_of(params, locked)->0;
            &&& v.auto_accept == params.auto_accept
            &&& v.auto_accept_threshold == params.auto_accept_threshold
            &&& v.download_media == params.download_media
        },
        MAX_AVATAR_BYTES == 2 * 1024 * 1024,
{
}

/// A list as JSON: its texts as JSON strings, with commas between them, in
/// square brackets.
pub proof fn lists_are_written_as_json(list: Seq<Seq<char>>, a: Seq<char>, b: Seq<char>)
    ensures
        json_list_of(Seq::empty()) == seq!['[', ']'],
        json_list_of(seq![a]) == seq!['['] + outside::json_string_of(a) + seq![']'],
        json_list_of(seq![a, b]) == seq!['['] + outside::json_string_of(a) + seq![',']
            + outside::json_string_of(b) + seq![']'],
        list.len() > 0 ==> json_list_of(list.push(b)) == json_list_of(list).drop_last().push(',')
            + outside::json_string_of(b) + seq![']'],
{
    reveal_strlit("[");
    reveal_strlit("]");
    reveal_strlit(",");
    let f = |s: Seq<char>| outside::json_string_of(s);
    let none: Seq<Seq<char>> = Seq::empty();
    assert(none.map_values(f) =~= Seq::empty());
    assert(json_list_of(none) =~= seq!['[', ']']);
    assert(seq![a].map_values(f) =~= seq![f(a)]);
    assert(json_list_of(seq![a]) =~= seq!['['] + outside::json_string_of(a) + seq![']']);
    assert(seq![a, b].map_values(f) =~= seq![f(a), f(b)]);
    assert(seq![f(a), f(b)].drop_last() =~= seq![f(a)]);
    assert(text::joined(seq![f(a), f(b)], ","@) == f(a) + ","@ + f(b));
    assert(json_list_of(seq![a, b]) =~= seq!['['] + outside::json_string_of(a) + seq![',']
        + outside::json_string_of(b) + seq![']']);
    if list.len() > 0 {
        let all = list.push(b).map_values(f);
        assert(all.drop_last() =~= list.map_values(f));
        assert(text::joined(all, ","@) == text::joined(list.map_values(f), ","@) + ","@ + f(b));
        assert(json_list_of(list.push(b)) =~= json_list_of(list).drop_last().push(',')
            + outside::json_string_of(b) + seq![']']);
    }
}

/// The avatar is the single value of the field that is named for it.
pub proof fn the_avatar_is_one_value(
    fields: Seq<(Seq<char>, ExtractedView)>,
    url: Seq<char>,
    content_type: Seq<char>,
)
    ensures
        avatar_of(fields) == Some(url) <==> table::lookup(fields, "avatar_url"@) == Some(
            ExtractedView::One(url),
        ),
        mime_of(Some(content_type)) == content_type,
        mime_of(None) == "application/octet-stream"@,
{
}

/// Which step follows which: a username is announced, then results are waited
/// for and passed on one by one, then it is announced as done, and the next one
/// begins, or, after the last, the scan is closed. Whatever else happens stops
/// the search.
pub proof fn steps_follow_in_this_order(i: usize, signal: ScanSignal, users: nat)
    requires
        users <= usize::MAX,
    ensures
        step_after(ScanStep::SendStart(i), signal, users) == (if signal == ScanSignal::Sent {
            ScanStep::AwaitResult(i)
        } else {
            ScanStep::Stop
        }),
        step_after(ScanStep::AwaitResult(i), signal, users) == (if signal == ScanSignal::Result {
            ScanStep::SendResult(i)
        } else if signal == ScanSignal::NoMoreResults {
            ScanStep::SendDone(i)
        } else {
            ScanStep::Stop
        }),
        step_after(ScanStep::SendResult(i), signal, users) == (if signal == ScanSignal::Sent {
            ScanStep::AwaitResult(i)
        } else {
            ScanStep::Stop
        }),
        i + 1 < users ==> step_after(ScanStep::SendDone(i), ScanSignal::Sent, users)
            == ScanStep::SendStart((i + 1) as usize),
        i + 1 >= users ==> step_after(ScanStep::SendDone(i), ScanSignal::Sent, users)
            == ScanStep::Finish,
        signal != ScanSignal::Sent ==> step_after(ScanStep::SendDone(i), signal, users)
            == ScanStep::Stop,
        step_after(ScanStep::Finish, signal, users) == ScanStep::Stop,
{
}

/// How counts grow: every result counts as checked, an account that was found
/// also as found, for the username and for the scan; a proposal counts as applied
/// or as waiting, and one that failed or had nothing in it not at all.
pub proof fn counts_grow_by_one(
    t: Tally,
    status: QueryStatus,
    pending_id: i64,
    profile_id: String,
)
    requires
        t.checked < usize::MAX,
        t.found < usize::MAX,
        t.total_hits < usize::MAX,
        t.auto_accepted < usize::MAX,
        t.queued < usize::MAX,
    ensures
        ({
            let r = with_result(t, status);
            let hit: int = if status == QueryStatus::Claimed {
                1
            } else {
                0
            };
            &&& r.checked == t.checked + 1
            &&& r.found == t.found + hit
            &&& r.total_hits == t.total_hits + hit
            &&& r.auto_accepted == t.auto_accepted
            &&& r.queued == t.queued
        }),
        ({
            let r = with_outcome(t, Some(ProposalOutcome::Applied { profile_id }));
            r == (Tally { auto_accepted: r.auto_accepted, ..t }) && r.auto_accepted
                == t.auto_accepted + 1
        }),
        ({
            let r = with_outcome(t, Some(ProposalOutcome::Queued { pending_id }));
            r == (Tally { queued: r.queued, ..t }) && r.queued == t.queued + 1
        }),
        with_outcome(t, Some(ProposalOutcome::NoEvidence)) == t,
        with_outcome(t, None) == t,
{
}

/// At a new username the count of its results begins at nothing, and what is
/// counted for the scan goes on.
pub proof fn counts_begin_anew_for_each_username(r: RunView, signal: ScanSignal, users: nat)
    ensures
        ({
            let a = advanced(r, signal, users);
            &&& a.step == step_after(r.step, signal, users)
            &&& a.tally.total_hits == r.tally.total_hits
            &&& a.tally.auto_accepted == r.tally.auto_accepted
            &&& a.tally.queued == r.tally.queued
            &&& a.step is SendStart ==> a.tally.checked == 0 && a.tally.found == 0
            &&& !(a.step is SendStart) ==> a.tally == r.tally
        }),
        begun(users).tally == (Tally {
            checked: 0,
            found: 0,
            total_hits: 0,
            auto_accepted: 0,
            queued: 0,
        }),
        users > 0 ==> begun(users).step == ScanStep::SendStart(0),
        users == 0 ==> begun(users).step == ScanStep::Finish,
{
}

/// An avatar is kept where the reply has succeeded, what it holds is said to be
/// an image, and it is no larger than two mebibytes; else it is said why not.
pub proof fn avatars_are_small_images(
    status_code: u16,
    shown: Seq<char>,
    content_type: Seq<char>,
    kind: Seq<char>,
    bytes: nat,
)
    ensures
        status_code < 200 || status_code > 299 ==> avatar_type_of(
            status_code,
            shown,
            Some(content_type),
        ) == Err::<Seq<char>, _>("avatar fetch HTTP "@ + shown),
        200 <= status_code <= 299 ==> avatar_type_of(
            status_code,
            shown,
            Some(seq!['i', 'm', 'a', 'g', 'e', '/'] + kind),
        ) == Ok::<_, Seq<char>>(seq!['i', 'm', 'a', 'g', 'e', '/'] + kind),
        200 <= status_code <= 299 && !text::starts_with(content_type, "image/"@) ==> avatar_type_of(
            status_code,
            shown,
            Some(content_type),
        ) == Err::<Seq<char>, _>("non-image content-type "@ + content_type),
        200 <= status_code <= 299 ==> avatar_type_of(status_code, shown, None) == Err::<
            Seq<char>,
            _,
        >("non-image content-type "@ + "application/octet-stream"@),
        bytes <= 2097152 ==> avatar_size_refusal(bytes) is None,
        bytes > 2097152 ==> avatar_size_refusal(bytes) == Some(
            "avatar too large ("@ + text::decimal(bytes) + " bytes)"@,
        ),
{
    reveal_strlit("image/");
    reveal_strlit("application/octet-stream");
    assert("image/"@ =~= seq!['i', 'm', 'a', 'g', 'e', '/']);
    let image = seq!['i', 'm', 'a', 'g', 'e', '/'] + kind;
    assert(image.subrange(0, 6) =~= "image/"@);
    assert("application/octet-stream"@.subrange(0, 6)[0] == 'a');
    assert("image/"@[0] == 'i');
}

/// A proposal is made of the fields of an account that was found, and of nothing
/// else; an avatar is fetched where that was asked for, the proposal was applied,
/// and there is one.
pub proof fn only_found_accounts_are_proposed(
    result: ResultView,
    download_media: bool,
    fields: Seq<(Seq<char>, ExtractedView)>,
    profile_id: String,
    pending_id: i64,
    url: Seq<char>,
)
    ensures
        result.status == QueryStatus::Claimed ==> fields_offered(result) == result.extracted,
        result.status != QueryStatus::Claimed ==> fields_offered(result) is None,
        fetches_avatar(Some(ProposalOutcome::Applied { profile_id }), download_media, fields)
            <==> download_media && avatar_of(fields) is Some,
        profile_applied_to(Some(ProposalOutcome::Applied { profile_id })) == Some(profile_id),
        !fetches_avatar(Some(ProposalOutcome::Queued { pending_id }), download_media, fields),
        !fetches_avatar(Some(ProposalOutcome::NoEvidence), download_media, fields),
        !fetches_avatar(None, download_media, fields),
{
}

/// Results are kept where the search has a place in the vault, its scan has a
/// row there, and it is at a username; a step is about the username that it
/// names.
pub proof fn results_are_kept_under_their_scan(run: ScanRun, i: usize)
    ensures
        run.plan.vault is None ==> !run.is_kept(),
        run.scan_id is None ==> !run.is_kept(),
        run.step == ScanStep::Finish || run.step == ScanStep::Stop ==> !run.is_kept()
            && run.username() is None,
        run.step == ScanStep::SendStart(i) || run.step == ScanStep::AwaitResult(i) || run.step
            == ScanStep::SendResult(i) || run.step == ScanStep::SendDone(i) ==> {
            &&& run.username() == Some(run.plan.usernames@[i as int]@)
            &&& run.plan.vault is Some && run.scan_id is Some ==> run.is_kept()
            &&& run.well_formed() <==> i < run.plan.usernames@.len()
        },
        run.state().step == run.step && run.state().tally == run.tally,
{
}

} // verus!
