//! Results as CSV and as plain text.

use vstd::prelude::*;
use vstd::string::*;

use crate::outside;
use crate::outside::csv_record;
use crate::result::{QueryResult, QueryStatus, ResultView};
use crate::sites;
use crate::text;
use crate::text::{decimal_u64, str_eq};

verus! {

/// A character that a spreadsheet takes for the start of a formula.
pub open spec fn formula_start(c: char) -> bool {
    c == '=' || c == '+' || c == '-' || c == '@' || c == '\t' || c == '\r'
}

/// A field that no spreadsheet takes for a formula.
pub open spec fn sanitized(s: Seq<char>) -> Seq<char> {
    if s.len() > 0 && formula_start(s[0]) {
        "'"@ + s
    } else {
        s
    }
}

/// Puts an apostrophe before a field that a spreadsheet would take for a
/// formula.
pub fn sanitize_csv_field(s: &str) -> (r: String)
    ensures
        r@ == sanitized(s@),
{
    if s.unicode_len() > 0 {
        let c = s.get_char(0);
        if c == '=' || c == '+' || c == '-' || c == '@' || c == '\t' || c == '\r' {
            let mut r: String = "'".to_string();
            r.append(s);
            return r;
        }
    }
    s.to_string()
}

/// A field is never left to be taken for a formula, and one that would not be
/// is left as it is.
pub proof fn sanitized_is_no_formula(s: Seq<char>)
    ensures
        sanitized(s).len() > 0 ==> !formula_start(sanitized(s)[0]),
        s.len() == 0 || !formula_start(s[0]) ==> sanitized(s) == s,
        sanitized(sanitized(s)) == sanitized(s),
{
    reveal_strlit("'");
}

/// The heads of the columns.
pub open spec fn csv_header() -> Seq<Seq<char>> {
    seq!["Username"@, "Site"@, "URL"@, "Status"@, "Response Time (ms)"@]
}

/// The fields of a result.
pub open spec fn csv_fields(r: ResultView) -> Seq<Seq<char>> {
    seq![
        sanitized(r.username),
        sanitized(r.site_name),
        sanitized(r.site_url),
        r.status.name(),
        match r.response_time_ms {
            Some(t) => text::decimal(t as nat),
            None => Seq::empty(),
        },
    ]
}

/// A line for each result.
pub open spec fn csv_rows(results: Seq<ResultView>) -> Seq<char>
    decreases results.len(),
{
    if results.len() == 0 {
        Seq::empty()
    } else {
        csv_rows(results.drop_last()) + outside::csv_line(csv_fields(results.last()))
    }
}

fn fields_of(r: &QueryResult) -> (v: Vec<String>)
    ensures
        text::texts(v@) == csv_fields(r@),
{
    let mut v: Vec<String> = Vec::new();
    v.push(sanitize_csv_field(r.username.as_str()));
    v.push(sanitize_csv_field(r.site_name.as_str()));
    v.push(sanitize_csv_field(r.site_url.as_str()));
    v.push(r.status.as_str().to_string());
    v.push(
        match r.response_time_ms {
            Some(t) => decimal_u64(t),
            None => String::new(),
        },
    );
    assert(text::texts(v@) =~= csv_fields(r@));
    v
}

/// The results as CSV: a line with the heads of the columns, and a line for
/// each result.
pub fn to_csv(results: &[QueryResult]) -> (r: String)
    ensures
        r@ == outside::csv_line(csv_header()) + csv_rows(sites::views(results@)),
{
    let mut header: Vec<String> = Vec::new();
    header.push("Username".to_string());
    header.push("Site".to_string());
    header.push("URL".to_string());
    header.push("Status".to_string());
    header.push("Response Time (ms)".to_string());
    assert(text::texts(header@) =~= csv_header());
    let mut r = csv_record(&header);
    let ghost head = r@;
    let ghost all = sites::views(results@);
    let mut i: usize = 0;
    assert(r@ =~= head + csv_rows(all.take(0)));
    while i < results.len()
        invariant
            i <= results@.len(),
            all == sites::views(results@),
            r@ == head + csv_rows(all.take(i as int)),
        decreases results@.len() - i,
    {
        let fields = fields_of(&results[i]);
        assert(text::texts(fields@).len() == fields@.len());
        let line = csv_record(&fields);
        let ghost before = r@;
        r.append(line.as_str());
        proof {
            assert(all.take(i + 1).drop_last() =~= all.take(i as int));
            assert(all.take(i + 1).last() == results@[i as int]@);
            assert(r@ =~= head + csv_rows(all.take(i + 1)));
        }
        i = i + 1;
    }
    assert(all.take(all.len() as int) =~= all);
    r
}

/// The usernames of the results, each once, in the order in which they first
/// come.
pub open spec fn users(results: Seq<ResultView>) -> Seq<Seq<char>>
    decreases results.len(),
{
    if results.len() == 0 {
        Seq::empty()
    } else {
        let before = users(results.drop_last());
        if before.contains(results.last().username) {
            before
        } else {
            before.push(results.last().username)
        }
    }
}

/// The accounts that were found under a username.
pub open spec fn hits(results: Seq<ResultView>, user: Seq<char>) -> Seq<ResultView>
    decreases results.len(),
{
    if results.len() == 0 {
        Seq::empty()
    } else {
        let before = hits(results.drop_last(), user);
        let last = results.last();
        if last.username == user && last.status == QueryStatus::Claimed {
            before.push(last)
        } else {
            before
        }
    }
}

/// A line for each account.
pub open spec fn hit_lines(found: Seq<ResultView>) -> Seq<char>
    decreases found.len(),
{
    if found.len() == 0 {
        Seq::empty()
    } else {
        hit_lines(found.drop_last()) + "  [+] "@ + found.last().site_name + ": "@
            + found.last().site_url + "\n"@
    }
}

/// What the report says of a username.
pub open spec fn section(results: Seq<ResultView>, user: Seq<char>) -> Seq<char> {
    let found = hits(results, user);
    "\n["@ + user + "] — Found on "@ + text::decimal(found.len()) + " site(s):\n"@ + hit_lines(
        found,
    )
}

/// A section for each username.
pub open spec fn sections(results: Seq<ResultView>, names: Seq<Seq<char>>) -> Seq<char>
    decreases names.len(),
{
    if names.len() == 0 {
        Seq::empty()
    } else {
        sections(results, names.drop_last()) + section(results, names.last())
    }
}

/// The two lines at the top of the report.
pub open spec fn report_header() -> Seq<char> {
    "Sherlock-RS — Results\n"@ + "==================================================\n"@
}

/// The report.
pub open spec fn report(results: Seq<ResultView>) -> Seq<char> {
    report_header() + sections(results, users(results))
}

fn collect_users(results: &[QueryResult]) -> (r: Vec<String>)
    ensures
        text::texts(r@) == users(sites::views(results@)),
{
    let mut r: Vec<String> = Vec::new();
    let ghost all = sites::views(results@);
    let mut i: usize = 0;
    assert(text::texts(r@) =~= users(all.take(0)));
    while i < results.len()
        invariant
            i <= results@.len(),
            all == sites::views(results@),
            text::texts(r@) == users(all.take(i as int)),
        decreases results@.len() - i,
    {
        let ghost before = r@;
        proof {
            assert(all.take(i + 1).drop_last() =~= all.take(i as int));
            assert(all.take(i + 1).last() == results@[i as int]@);
        }
        if !sites::list_contains(&r, results[i].username.as_str()) {
            r.push(results[i].username.clone());
            assert(text::texts(r@) =~= text::texts(before).push(results@[i as int].username@));
        }
        i = i + 1;
    }
    assert(all.take(all.len() as int) =~= all);
    r
}

fn write_section(results: &[QueryResult], user: &str) -> (r: String)
    ensures
        r@ == section(sites::views(results@), user@),
{
    let ghost all = sites::views(results@);
    let mut lines: String = String::new();
    let mut found: u64 = 0;
    let mut i: usize = 0;
    assert(lines@ =~= hit_lines(hits(all.take(0), user@)));
    while i < results.len()
        invariant
            i <= results@.len(),
            all == sites::views(results@),
            found == hits(all.take(i as int), user@).len(),
            found <= i,
            lines@ == hit_lines(hits(all.take(i as int), user@)),
        decreases results@.len() - i,
    {
        let result = &results[i];
        let ghost found_before = hits(all.take(i as int), user@);
        proof {
            assert(all.take(i + 1).drop_last() =~= all.take(i as int));
            assert(all.take(i + 1).last() == results@[i as int]@);
        }
        if str_eq(result.username.as_str(), user) && result.status == QueryStatus::Claimed {
            proof {
                assert(found_before.push(result@).drop_last() =~= found_before);
            }
            lines.append("  [+] ");
            lines.append(result.site_name.as_str());
            lines.append(": ");
            lines.append(result.site_url.as_str());
            lines.append("\n");
            found = found + 1;
        }
        i = i + 1;
    }
    assert(all.take(all.len() as int) =~= all);
    let mut r: String = "\n[".to_string();
    r.append(user);
    r.append("] — Found on ");
    let count = decimal_u64(found);
    r.append(count.as_str());
    r.append(" site(s):\n");
    r.append(lines.as_str());
    r
}

/// The results as a report: for each username, in the order in which they first
/// come, the accounts that were found.
pub fn to_txt(results: &[QueryResult]) -> (r: String)
    ensures
        r@ == report(sites::views(results@)),
{
    let names = collect_users(results);
    let ghost all = sites::views(results@);
    let ghost listed = text::texts(names@);
    let mut r: String = "Sherlock-RS — Results\n".to_string();
    r.append("==================================================\n");
    let mut i: usize = 0;
    assert(r@ =~= report_header() + sections(all, listed.take(0)));
    while i < names.len()
        invariant
            i <= names@.len(),
            all == sites::views(results@),
            listed == text::texts(names@),
            r@ == report_header() + sections(all, listed.take(i as int)),
        decreases names@.len() - i,
    {
        let part = write_section(results, names[i].as_str());
        r.append(part.as_str());
        proof {
            assert(listed.take(i + 1).drop_last() =~= listed.take(i as int));
            assert(r@ =~= report_header() + sections(all, listed.take(i + 1)));
        }
        i = i + 1;
    }
    assert(listed.take(listed.len() as int) =~= listed);
    r
}

/// The usernames of a report are those of the results, and none has two
/// sections.
pub proof fn users_are_those_of_the_results(results: Seq<ResultView>)
    ensures
        users(results).no_duplicates(),
        forall|u: Seq<char>| #[trigger]
            users(results).contains(u) <==> exists|i: int|
                0 <= i < results.len() && (#[trigger] results[i]).username == u,
    decreases results.len(),
{
    if results.len() > 0 {
        let rest = results.drop_last();
        let last = results.last().username;
        let before = users(rest);
        users_are_those_of_the_results(rest);
        assert forall|u: Seq<char>| #[trigger] users(results).contains(u) <==> exists|i: int|
            0 <= i < results.len() && (#[trigger] results[i]).username == u by {
            if users(results).contains(u) {
                if before.contains(u) {
                    let i = choose|i: int|
                        0 <= i < rest.len() && (#[trigger] rest[i]).username == u;
                    assert(results[i] == rest[i]);
                } else {
                    assert(u == last);
                    assert(results[results.len() - 1].username == u);
                }
            }
            if exists|i: int| 0 <= i < results.len() && (#[trigger] results[i]).username == u {
                let i = choose|i: int|
                    0 <= i < results.len() && (#[trigger] results[i]).username == u;
                if i < rest.len() {
                    assert(rest[i].username == u);
                    assert(before.contains(u));
                    let k = choose|k: int| 0 <= k < before.len() && before[k] == u;
                    assert(users(results)[k] == u);
                } else {
                    assert(u == last);
                    if !before.contains(last) {
                        assert(users(results)[before.len() as int] == u);
                    }
                }
            }
        }
    }
}

/// A section holds the accounts that were found, and only those.
pub proof fn hits_are_the_claimed(results: Seq<ResultView>, user: Seq<char>)
    ensures
        forall|r: ResultView| #[trigger]
            hits(results, user).contains(r) <==> results.contains(r) && r.username == user
                && r.status == QueryStatus::Claimed,
    decreases results.len(),
{
    if results.len() > 0 {
        let rest = results.drop_last();
        let last = results.last();
        let before = hits(rest, user);
        hits_are_the_claimed(rest, user);
        assert forall|r: ResultView| #[trigger] hits(results, user).contains(r) <==> (
        results.contains(r) && r.username == user && r.status == QueryStatus::Claimed) by {
            assert(results.contains(r) <==> rest.contains(r) || r == last) by {
                if rest.contains(r) {
                    let i = choose|i: int| 0 <= i < rest.len() && rest[i] == r;
                    assert(results[i] == r);
                }
                if r == last {
                    assert(results[results.len() - 1] == r);
                }
                if results.contains(r) && r != last {
                    let i = choose|i: int| 0 <= i < results.len() && results[i] == r;
                    assert(rest[i] == r);
                }
            }
            let now = hits(results, user);
            if last.username == user && last.status == QueryStatus::Claimed {
                assert(now == before.push(last));
                assert(now.contains(r) <==> before.contains(r) || r == last) by {
                    if before.contains(r) {
                        let i = choose|i: int| 0 <= i < before.len() && before[i] == r;
                        assert(now[i] == r);
                    }
                    if r == last {
                        assert(now[before.len() as int] == r);
                    }
                }
            }
        }
    }
}

/// A result that is not a found account leaves the report as it would be
/// without it, but for the section that its username is due.
pub proof fn report_passes_over_other_results(results: Seq<ResultView>, r: ResultView)
    requires
        r.status != QueryStatus::Claimed,
        users(results).contains(r.username),
    ensures
        report(results.push(r)) == report(results),
{
    let longer = results.push(r);
    assert(longer.drop_last() =~= results);
    assert(users(longer) == users(results));
    same_sections(results, r, users(results));
}

proof fn same_sections(results: Seq<ResultView>, r: ResultView, names: Seq<Seq<char>>)
    requires
        r.status != QueryStatus::Claimed,
    ensures
        sections(results.push(r), names) == sections(results, names),
    decreases names.len(),
{
    if names.len() > 0 {
        same_sections(results, r, names.drop_last());
        assert(results.push(r).drop_last() =~= results);
    }
}

/// Whether no username comes in both lists of results.
pub open spec fn share_no_user(a: Seq<ResultView>, b: Seq<ResultView>) -> bool {
    forall|i: int, j: int|
        0 <= i < a.len() && 0 <= j < b.len() ==> (#[trigger] a[i]).username != (
        #[trigger] b[j]).username
}

proof fn hits_are_joined(a: Seq<ResultView>, b: Seq<ResultView>, user: Seq<char>)
    ensures
        hits(a + b, user) == hits(a, user) + hits(b, user),
        (forall|i: int| 0 <= i < b.len() ==> (#[trigger] b[i]).username != user) ==> hits(b, user)
            == Seq::<ResultView>::empty(),
    decreases b.len(),
{
    if b.len() == 0 {
        assert(a + b =~= a);
        assert(hits(a, user) + hits(b, user) =~= hits(a, user));
    } else {
        let rest = b.drop_last();
        hits_are_joined(a, rest, user);
        assert((a + b).drop_last() =~= a + rest);
        assert((a + b).last() == b.last());
        assert(hits(a + b, user) =~= hits(a, user) + hits(b, user));
        if forall|i: int| 0 <= i < b.len() ==> (#[trigger] b[i]).username != user {
            assert forall|i: int| 0 <= i < rest.len() implies (#[trigger] rest[i]).username
                != user by {
                assert(rest[i] == b[i]);
            }
            assert(b[b.len() - 1].username != user);
        }
    }
}

proof fn users_are_joined(a: Seq<ResultView>, b: Seq<ResultView>)
    requires
        share_no_user(a, b),
    ensures
        users(a + b) == users(a) + users(b),
    decreases b.len(),
{
    if b.len() == 0 {
        assert(a + b =~= a);
        assert(users(a) + users(b) =~= users(a));
    } else {
        let rest = b.drop_last();
        let last = b.last().username;
        assert(share_no_user(a, rest)) by {
            assert forall|i: int, j: int| 0 <= i < a.len() && 0 <= j < rest.len() implies (
            #[trigger] a[i]).username != (#[trigger] rest[j]).username by {
                assert(rest[j] == b[j]);
            }
        }
        users_are_joined(a, rest);
        assert((a + b).drop_last() =~= a + rest);
        assert((a + b).last() == b.last());
        users_are_those_of_the_results(a);
        assert(!users(a).contains(last)) by {
            if users(a).contains(last) {
                let i = choose|i: int| 0 <= i < a.len() && (#[trigger] a[i]).username == last;
                assert(a[i].username != b[b.len() - 1].username);
            }
        }
        let joined = users(a) + users(rest);
        assert(joined.contains(last) <==> users(rest).contains(last)) by {
            if joined.contains(last) {
                let k = choose|k: int| 0 <= k < joined.len() && joined[k] == last;
                if k < users(a).len() {
                    assert(users(a)[k] == last);
                } else {
                    assert(users(rest)[k - users(a).len()] == last);
                }
            }
            if users(rest).contains(last) {
                let k = choose|k: int| 0 <= k < users(rest).len() && users(rest)[k] == last;
                assert(joined[users(a).len() + k] == last);
            }
        }
        assert(users(a + b) =~= users(a) + users(b));
    }
}

proof fn sections_are_joined(results: Seq<ResultView>, a: Seq<Seq<char>>, b: Seq<Seq<char>>)
    ensures
        sections(results, a + b) == sections(results, a) + sections(results, b),
    decreases b.len(),
{
    if b.len() == 0 {
        assert(a + b =~= a);
        assert(sections(results, a) + sections(results, b) =~= sections(results, a));
    } else {
        sections_are_joined(results, a, b.drop_last());
        assert((a + b).drop_last() =~= a + b.drop_last());
        assert((a + b).last() == b.last());
        assert(sections(results, a + b) =~= sections(results, a) + sections(results, b));
    }
}

proof fn sections_need_only_their_hits(
    more: Seq<ResultView>,
    fewer: Seq<ResultView>,
    names: Seq<Seq<char>>,
)
    requires
        forall|k: int|
            0 <= k < names.len() ==> hits(more, #[trigger] names[k]) == hits(fewer, names[k]),
    ensures
        sections(more, names) == sections(fewer, names),
    decreases names.len(),
{
    if names.len() > 0 {
        let rest = names.drop_last();
        assert forall|k: int| 0 <= k < rest.len() implies hits(more, #[trigger] rest[k]) == hits(
            fewer,
            rest[k],
        ) by {
            assert(rest[k] == names[k]);
        }
        sections_need_only_their_hits(more, fewer, rest);
        assert(names[names.len() - 1] == names.last());
    }
}

/// The report on two lists of results that share no username is the report on
/// the first, followed by that on the second without its head.
pub proof fn reports_are_joined(a: Seq<ResultView>, b: Seq<ResultView>)
    requires
        share_no_user(a, b),
    ensures
        report(a + b) == report(a) + report(b).skip(report_header().len() as int),
{
    users_are_joined(a, b);
    users_are_those_of_the_results(a);
    users_are_those_of_the_results(b);
    sections_are_joined(a + b, users(a), users(b));
    assert forall|k: int| 0 <= k < users(a).len() implies hits(a + b, #[trigger] users(a)[k])
        == hits(a, users(a)[k]) by {
        let user = users(a)[k];
        assert(users(a).contains(user));
        let i = choose|i: int| 0 <= i < a.len() && (#[trigger] a[i]).username == user;
        assert forall|j: int| 0 <= j < b.len() implies (#[trigger] b[j]).username != user by {
            assert(a[i].username != b[j].username);
        }
        hits_are_joined(a, b, user);
        assert(hits(a, user) + hits(b, user) =~= hits(a, user));
    }
    assert forall|k: int| 0 <= k < users(b).len() implies hits(a + b, #[trigger] users(b)[k])
        == hits(b, users(b)[k]) by {
        let user = users(b)[k];
        assert(users(b).contains(user));
        let j = choose|j: int| 0 <= j < b.len() && (#[trigger] b[j]).username == user;
        assert forall|i: int| 0 <= i < a.len() implies (#[trigger] a[i]).username != user by {
            assert(a[i].username != b[j].username);
        }
        hits_are_joined(Seq::empty(), a, user);
        hits_are_joined(a, b, user);
        assert(hits(a, user) + hits(b, user) =~= hits(b, user));
    }
    sections_need_only_their_hits(a + b, a, users(a));
    sections_need_only_their_hits(a + b, b, users(b));
    assert(report(b).skip(report_header().len() as int) =~= sections(b, users(b)));
    assert(report(a + b) =~= report(a) + sections(b, users(b)));
}

/// The lines of CSV for two lists of results are those for the first, followed
/// by those for the second.
pub proof fn csv_rows_are_joined(a: Seq<ResultView>, b: Seq<ResultView>)
    ensures
        csv_rows(a + b) == csv_rows(a) + csv_rows(b),
    decreases b.len(),
{
    if b.len() == 0 {
        assert(a + b =~= a);
        assert(csv_rows(a) + csv_rows(b) =~= csv_rows(a));
    } else {
        csv_rows_are_joined(a, b.drop_last());
        assert((a + b).drop_last() =~= a + b.drop_last());
        assert((a + b).last() == b.last());
        assert(csv_rows(a + b) =~= csv_rows(a) + csv_rows(b));
    }
}

/// A field gets an apostrophe before it just where it begins with an equals
/// sign, a plus, a minus, an at sign, a tab or a carriage return; nothing else of
/// it changes.
pub proof fn six_characters_begin_a_formula(s: Seq<char>)
    ensures
        s.len() > 0 && (s[0] == '=' || s[0] == '+' || s[0] == '-' || s[0] == '@' || s[0] == '\t'
            || s[0] == '\r') ==> sanitized(s) == seq!['\''] + s,
        s.len() == 0 || (s[0] != '=' && s[0] != '+' && s[0] != '-' && s[0] != '@' && s[0] != '\t'
            && s[0] != '\r') ==> sanitized(s) == s,
{
    reveal_strlit("'");
    assert("'"@ =~= seq!['\'']);
}

/// The columns of the CSV, in order: the username, the site, the URL, the status
/// by its name, and the time in milliseconds or nothing.
pub proof fn csv_has_five_columns(r: ResultView, ms: u64)
    ensures
        csv_header() == seq!["Username"@, "Site"@, "URL"@, "Status"@, "Response Time (ms)"@],
        csv_fields(r).len() == 5,
        csv_fields(r)[0] == sanitized(r.username),
        csv_fields(r)[1] == sanitized(r.site_name),
        csv_fields(r)[2] == sanitized(r.site_url),
        csv_fields(r)[3] == r.status.name(),
        r.response_time_ms == Some(ms) ==> csv_fields(r)[4] == text::decimal(ms as nat),
        r.response_time_ms is None ==> csv_fields(r)[4].len() == 0,
        csv_rows(Seq::empty()).len() == 0,
        csv_rows(seq![r]) == outside::csv_line(csv_fields(r)),
{
    let one = seq![r];
    assert(one.drop_last() =~= Seq::empty());
    assert(csv_rows(one.drop_last()) =~= Seq::empty());
    assert(csv_rows(one) =~= outside::csv_line(csv_fields(r)));
}

/// The accounts of a section stand in the order of the results, each as often as
/// it comes.
pub proof fn hits_stand_in_order(results: Seq<ResultView>, user: Seq<char>)
    ensures
        hits(results, user) == results.filter(
            |r: ResultView| r.username == user && r.status == QueryStatus::Claimed,
        ),
    decreases results.len(),
{
    reveal(Seq::filter);
    if results.len() > 0 {
        hits_stand_in_order(results.drop_last(), user);
    }
    assert(hits(results, user) =~= results.filter(
        |r: ResultView| r.username == user && r.status == QueryStatus::Claimed,
    ));
}

proof fn hit_lines_are_joined(a: Seq<ResultView>, b: Seq<ResultView>)
    ensures
        hit_lines(a + b) == hit_lines(a) + hit_lines(b),
    decreases b.len(),
{
    if b.len() == 0 {
        assert(a + b =~= a);
        assert(hit_lines(a) + hit_lines(b) =~= hit_lines(a));
    } else {
        hit_lines_are_joined(a, b.drop_last());
        assert((a + b).drop_last() =~= a + b.drop_last());
        assert((a + b).last() == b.last());
        assert(hit_lines(a + b) =~= hit_lines(a) + hit_lines(b));
    }
}

/// How a report reads: for an account a line with its site and its URL, for a
/// username a line with the number of its accounts and then those, and two lines
/// at the top.
pub proof fn reports_read_so(
    results: Seq<ResultView>,
    user: Seq<char>,
    a: Seq<ResultView>,
    r: ResultView,
    b: Seq<ResultView>,
)
    ensures
        hit_lines(Seq::empty()).len() == 0,
        hit_lines(a + b) == hit_lines(a) + hit_lines(b),
        hit_lines(seq![r]) == seq![' ', ' ', '[', '+', ']', ' '] + r.site_name + seq![':', ' ']
            + r.site_url + seq!['\n'],
        section(results, user) == "\n["@ + user + "] — Found on "@ + text::decimal(
            hits(results, user).len(),
        ) + " site(s):\n"@ + hit_lines(hits(results, user)),
        report(Seq::empty()) == "Sherlock-RS — Results\n"@
            + "==================================================\n"@,
        report(seq![r]) == "Sherlock-RS — Results\n"@
            + "==================================================\n"@ + section(
            seq![r],
            r.username,
        ),
{
    hit_lines_are_joined(a, b);
    let one = seq![r];
    assert(one.drop_last() =~= Seq::empty());
    assert(hit_lines(one.drop_last()) =~= Seq::empty());
    reveal_strlit("  [+] ");
    reveal_strlit(": ");
    reveal_strlit("\n");
    assert(hit_lines(one) =~= seq![' ', ' ', '[', '+', ']', ' '] + r.site_name + seq![':', ' ']
        + r.site_url + seq!['\n']);
    assert(users(Seq::empty()) =~= Seq::empty());
    assert(report(Seq::empty()) =~= report_header());
    assert(users(one) =~= seq![r.username]);
    assert(users(one).drop_last() =~= Seq::empty());
    assert(sections(one, users(one).drop_last()) =~= Seq::empty());
    assert(sections(one, users(one)) =~= section(one, r.username));
}

/// The usernames stand in the order in which they first come: what comes later
/// adds usernames at the end only.
pub proof fn users_stand_in_order(a: Seq<ResultView>, b: Seq<ResultView>)
    ensures
        users(a).len() <= users(a + b).len(),
        users(a + b).take(users(a).len() as int) == users(a),
    decreases b.len(),
{
    if b.len() == 0 {
        assert(a + b =~= a);
        assert(users(a).take(users(a).len() as int) =~= users(a));
    } else {
        users_stand_in_order(a, b.drop_last());
        assert((a + b).drop_last() =~= a + b.drop_last());
        let before = users(a + b.drop_last());
        assert(users(a + b).take(users(a).len() as int) =~= before.take(users(a).len() as int));
    }
}

} // verus!
