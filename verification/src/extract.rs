//! Profile fields read off the page of a profile that exists.
//!
//! Each rule names one field. A rule is checked once, when the site list is
//! loaded, and applied to each page.

use vstd::prelude::*;
use vstd::string::*;

use crate::outside;
use crate::outside::{
    regex_compiles, regex_first_group, select_attributes, select_texts, selector_parses,
};
use crate::result::{ExtractedValue, ExtractedView};
use crate::sites;
use crate::sites::{CompiledExtractor, CompiledView, Extractor, ExtractorView};
use crate::table;
use crate::table::Table;
use crate::text;
use crate::text::trim;

verus! {

/// The selector of a rule; the root of the page where it names none.
pub open spec fn selector_of(raw: ExtractorView) -> Seq<char> {
    match raw.selector {
        Some(s) => s,
        None => ":root"@,
    }
}

/// A rule, once it is known whether its selector and its regular expression
/// are well formed: dropped with a bad selector, kept without a bad regular
/// expression.
pub open spec fn compiled_if(raw: ExtractorView, selector_ok: bool, regex_ok: bool) -> Option<
    CompiledView,
> {
    if selector_ok {
        Some(
            CompiledView {
                field: raw.field,
                selector: selector_of(raw),
                attribute: raw.attribute,
                regex: if regex_ok {
                    raw.regex
                } else {
                    None
                },
                multi: raw.multi,
            },
        )
    } else {
        None
    }
}

/// What a rule compiles to.
pub open spec fn compiled(raw: ExtractorView) -> Option<CompiledView> {
    compiled_if(
        raw,
        outside::selector_valid(selector_of(raw)),
        match raw.regex {
            Some(p) => outside::regex_valid(p),
            None => true,
        },
    )
}

fn copy_opt(o: &Option<String>) -> (r: Option<String>)
    ensures
        text::opt_text(r) == text::opt_text(*o),
{
    match o {
        Some(s) => Some(s.clone()),
        None => None,
    }
}

/// A rule, once it is known whether its selector and its regular expression
/// are well formed.
pub fn compile_checked(raw: &Extractor, selector_ok: bool, regex_ok: bool) -> (r: Option<
    CompiledExtractor,
>)
    ensures
        sites::opt_view(r) == compiled_if(raw@, selector_ok, regex_ok),
{
    if !selector_ok {
        return None;
    }
    let selector = match &raw.selector {
        Some(s) => s.clone(),
        None => ":root".to_string(),
    };
    let regex = if regex_ok {
        copy_opt(&raw.regex)
    } else {
        None
    };
    Some(
        CompiledExtractor {
            field: raw.field.clone(),
            selector,
            attribute: copy_opt(&raw.attribute),
            regex,
            multi: raw.multi,
        },
    )
}

/// Checks a rule. One whose selector does not parse is dropped; one whose
/// regular expression does not compile loses that part only. A rule without a
/// selector is always kept.
pub fn compile_extractor(raw: &Extractor) -> (r: Option<CompiledExtractor>)
    ensures
        sites::opt_view(r) == compiled(raw@),
        raw.selector is None ==> r is Some,
{
    let selector_ok = match &raw.selector {
        Some(s) => selector_parses(s.as_str()),
        None => selector_parses(":root"),
    };
    let regex_ok = match &raw.regex {
        Some(p) => regex_compiles(p.as_str()),
        None => true,
    };
    compile_checked(raw, selector_ok, regex_ok)
}

/// The rules of `raws` that can be kept, in order.
pub open spec fn compiled_all(raws: Seq<ExtractorView>) -> Seq<CompiledView>
    decreases raws.len(),
{
    if raws.len() == 0 {
        Seq::empty()
    } else {
        match compiled(raws.last()) {
            Some(c) => compiled_all(raws.drop_last()).push(c),
            None => compiled_all(raws.drop_last()),
        }
    }
}

/// Checks every rule, and keeps those that can be kept.
pub fn compile_all(raws: &Vec<Extractor>) -> (r: Vec<CompiledExtractor>)
    ensures
        sites::views(r@) == compiled_all(sites::views(raws@)),
{
    let mut r: Vec<CompiledExtractor> = Vec::new();
    let ghost all = sites::views(raws@);
    let mut i: usize = 0;
    assert(sites::views(r@) =~= compiled_all(all.take(0)));
    while i < raws.len()
        invariant
            i <= raws@.len(),
            all == sites::views(raws@),
            sites::views(r@) == compiled_all(all.take(i as int)),
        decreases raws@.len() - i,
    {
        assert(all.take(i + 1).drop_last() =~= all.take(i as int));
        match compile_extractor(&raws[i]) {
            Some(c) => {
                let ghost before = r@;
                r.push(c);
                assert(sites::views(r@) =~= sites::views(before).push(c@));
            },
            None => {},
        }
        i = i + 1;
    }
    assert(all.take(all.len() as int) =~= all);
    r
}

/// The values that are there and not empty.
pub open spec fn non_empty(raws: Seq<Option<Seq<char>>>) -> Seq<Seq<char>>
    decreases raws.len(),
{
    if raws.len() == 0 {
        Seq::empty()
    } else {
        let rest = non_empty(raws.drop_last());
        match raws.last() {
            Some(v) => if v.len() > 0 {
                rest.push(v)
            } else {
                rest
            },
            None => rest,
        }
    }
}

/// What a page holds for a rule before the regular expression is applied: the
/// attribute, or the text without white space at its ends, of each element.
pub open spec fn raw_values(body: Seq<char>, ex: CompiledView) -> Seq<Option<Seq<char>>> {
    match ex.attribute {
        Some(a) => outside::selected_attributes(body, ex.selector, a),
        None => outside::selected_texts(body, ex.selector).map_values(
            |t: Seq<char>| Some(text::trimmed(t)),
        ),
    }
}

/// What the regular expression makes of a value.
pub open spec fn narrowed(v: Seq<char>, regex: Option<Seq<char>>) -> Option<Seq<char>> {
    match regex {
        Some(p) => outside::regex_group(p, v),
        None => Some(v),
    }
}

/// What the regular expression makes of each value.
pub open spec fn narrowed_all(values: Seq<Seq<char>>, regex: Option<Seq<char>>) -> Seq<
    Option<Seq<char>>,
> {
    values.map_values(|v: Seq<char>| narrowed(v, regex))
}

/// The values that are kept: every one that is not empty, or, without `multi`,
/// the first that the regular expression let through, unless it is empty.
pub open spec fn picked(found: Seq<Option<Seq<char>>>, multi: bool) -> Seq<Seq<char>>
    decreases found.len(),
{
    if found.len() == 0 {
        Seq::empty()
    } else {
        let rest = picked(found.skip(1), multi);
        match found[0] {
            None => rest,
            Some(v) => (if v.len() > 0 {
                seq![v]
            } else {
                Seq::empty()
            }) + (if multi {
                rest
            } else {
                Seq::empty()
            }),
        }
    }
}

/// The values of one rule on a page.
pub open spec fn collected(body: Seq<char>, ex: CompiledView) -> Seq<Seq<char>> {
    picked(narrowed_all(non_empty(raw_values(body, ex)), ex.regex), ex.multi)
}

/// The values that are there and not empty.
pub fn keep_non_empty(raws: Vec<Option<String>>) -> (r: Vec<String>)
    ensures
        text::texts(r@) == non_empty(outside::opt_texts(raws@)),
{
    let ghost given = raws@;
    let ghost all = outside::opt_texts(given);
    let mut r: Vec<String> = Vec::new();
    assert(text::texts(r@) =~= non_empty(all.take(0)));
    for o in it: raws
        invariant
            it.seq() == given,
            all == outside::opt_texts(given),
            text::texts(r@) == non_empty(all.take(it.index() as int)),
    {
        let ghost n = it.index() as int;
        assert(all.take(n + 1).drop_last() =~= all.take(n));
        match o {
            Some(v) => {
                if !v.as_str().is_empty() {
                    let ghost before = r@;
                    r.push(v);
                    assert(text::texts(r@) =~= text::texts(before).push(v@));
                }
            },
            None => {},
        }
    }
    assert(all.take(all.len() as int) =~= all);
    r
}

/// The values that are kept of those that the regular expression let through.
pub fn pick_values(found: Vec<Option<String>>, multi: bool) -> (r: Vec<String>)
    ensures
        text::texts(r@) == picked(outside::opt_texts(found@), multi),
{
    let ghost given = found@;
    let ghost all = outside::opt_texts(given);
    let mut r: Vec<String> = Vec::new();
    assert(text::texts(r@) + picked(all.skip(0), multi) =~= picked(all, multi)) by {
        assert(all.skip(0) =~= all);
        assert(text::texts(r@) =~= Seq::empty());
    }
    for o in it: found
        invariant
            it.seq() == given,
            all == outside::opt_texts(given),
            text::texts(r@) + picked(all.skip(it.index() as int), multi) == picked(all, multi),
    {
        let ghost n = it.index() as int;
        let ghost rest = all.skip(n);
        assert(rest.skip(1) =~= all.skip(n + 1));
        match o {
            Some(v) => {
                let ghost before = text::texts(r@);
                let ghost value = v@;
                if !v.as_str().is_empty() {
                    let ghost old_r = r@;
                    r.push(v);
                    assert(text::texts(r@) =~= text::texts(old_r).push(value));
                    assert(text::texts(r@) + picked(all.skip(n + 1), multi) =~= before + (
                    seq![value] + picked(all.skip(n + 1), multi)));
                    assert(text::texts(r@) =~= before + (seq![value] + Seq::empty()));
                } else {
                    assert(Seq::<Seq<char>>::empty() + picked(all.skip(n + 1), multi) =~= picked(
                        all.skip(n + 1),
                        multi,
                    ));
                    assert(before + (Seq::<Seq<char>>::empty() + Seq::empty()) =~= before);
                }
                if !multi {
                    return r;
                }
            },
            None => {},
        }
    }
    assert(all.skip(all.len() as int) =~= Seq::empty());
    assert(text::texts(r@) + Seq::<Seq<char>>::empty() =~= text::texts(r@));
    r
}

/// The values of one rule on a page.
pub fn collect(body: &str, ex: &CompiledExtractor) -> (r: Vec<String>)
    ensures
        text::texts(r@) == collected(body@, ex@),
{
    let raws = match &ex.attribute {
        Some(a) => select_attributes(body, ex.selector.as_str(), a.as_str()),
        None => {
            let found = select_texts(body, ex.selector.as_str());
            let mut v: Vec<Option<String>> = Vec::new();
            let mut i: usize = 0;
            while i < found.len()
                invariant
                    i <= found@.len(),
                    v@.len() == i,
                    forall|j: int|
                        0 <= j < i ==> text::opt_text(#[trigger] v@[j]) == Some(
                            text::trimmed(found@[j]@),
                        ),
                decreases found@.len() - i,
            {
                v.push(Some(trim(found[i].as_str())));
                i = i + 1;
            }
            assert(outside::opt_texts(v@) =~= text::texts(found@).map_values(
                |t: Seq<char>| Some(text::trimmed(t)),
            ));
            v
        },
    };
    assert(outside::opt_texts(raws@) =~= raw_values(body@, ex@));
    let values = keep_non_empty(raws);
    let mut found: Vec<Option<String>> = Vec::new();
    let ghost regex = text::opt_text(ex.regex);
    let mut i: usize = 0;
    while i < values.len()
        invariant
            i <= values@.len(),
            regex == text::opt_text(ex.regex),
            found@.len() == i,
            forall|j: int|
                0 <= j < i ==> text::opt_text(#[trigger] found@[j]) == narrowed(values@[j]@, regex),
        decreases values@.len() - i,
    {
        let o = match &ex.regex {
            Some(p) => regex_first_group(p.as_str(), values[i].as_str()),
            None => Some(values[i].clone()),
        };
        found.push(o);
        i = i + 1;
    }
    assert(outside::opt_texts(found@) =~= narrowed_all(text::texts(values@), regex));
    pick_values(found, ex.multi)
}

/// What a field holds, given the values that were found for it.
pub open spec fn field_value(values: Seq<Seq<char>>, multi: bool) -> Option<ExtractedView> {
    if values.len() == 0 {
        None
    } else if multi {
        Some(ExtractedView::Many(values))
    } else {
        Some(ExtractedView::One(values[0]))
    }
}

/// `fields` with what was found for the field of one more rule.
pub open spec fn with_field(
    fields: Seq<(Seq<char>, ExtractedView)>,
    ex: CompiledView,
    values: Seq<Seq<char>>,
) -> Seq<(Seq<char>, ExtractedView)> {
    match field_value(values, ex.multi) {
        Some(v) => table::put(fields, ex.field, v),
        None => fields,
    }
}

/// The fields that the rules find on a page, one rule after the other.
pub open spec fn extracted(body: Seq<char>, exs: Seq<CompiledView>) -> Seq<
    (Seq<char>, ExtractedView),
>
    decreases exs.len(),
{
    if exs.len() == 0 || body.len() == 0 {
        Seq::empty()
    } else {
        with_field(extracted(body, exs.drop_last()), exs.last(), collected(body, exs.last()))
    }
}

/// Records what was found for the field of one rule.
pub fn record_field(fields: &mut Table<ExtractedValue>, ex: &CompiledExtractor, values: Vec<String>)
    ensures
        table::viewed(final(fields)@) == with_field(
            table::viewed(old(fields)@),
            ex@,
            text::texts(values@),
        ),
{
    if values.len() == 0 {
        return ;
    }
    let ghost before = fields@;
    let v = if ex.multi {
        ExtractedValue::Many(values)
    } else {
        ExtractedValue::One(values[0].clone())
    };
    fields.insert(ex.field.clone(), v);
    proof {
        table::viewed_put(before, ex@.field, v);
    }
}

/// Applies every rule to a page.
pub fn run_extractors(body: &str, exs: &Vec<CompiledExtractor>) -> (r: Table<ExtractedValue>)
    ensures
        table::viewed(r@) == extracted(body@, sites::views(exs@)),
{
    let mut r: Table<ExtractedValue> = Table::new();
    assert(table::viewed(r@) =~= Seq::empty());
    if exs.len() == 0 || body.is_empty() {
        return r;
    }
    let ghost all = sites::views(exs@);
    let mut i: usize = 0;
    assert(all.take(0) =~= Seq::empty());
    while i < exs.len()
        invariant
            body@.len() > 0,
            i <= exs@.len(),
            all == sites::views(exs@),
            table::viewed(r@) == extracted(body@, all.take(i as int)),
        decreases exs@.len() - i,
    {
        assert(all.take(i + 1).drop_last() =~= all.take(i as int));
        let values = collect(body, &exs[i]);
        record_field(&mut r, &exs[i], values);
        i = i + 1;
    }
    assert(all.take(all.len() as int) =~= all);
    r
}

/// Values that are all there.
pub open spec fn all_filled(v: ExtractedView) -> bool {
    match v {
        ExtractedView::One(s) => s.len() > 0,
        ExtractedView::Many(list) => list.len() > 0 && forall|i: int|
            0 <= i < list.len() ==> (#[trigger] list[i]).len() > 0,
    }
}

proof fn picked_values_are_filled(found: Seq<Option<Seq<char>>>, multi: bool)
    ensures
        forall|i: int| 0 <= i < picked(found, multi).len() ==> (#[trigger] picked(found, multi)[i]).len() > 0,
        !multi ==> picked(found, multi).len() <= 1,
    decreases found.len(),
{
    if found.len() > 0 {
        picked_values_are_filled(found.skip(1), multi);
        let rest = picked(found.skip(1), multi);
        let now = picked(found, multi);
        assert forall|i: int| 0 <= i < now.len() implies (#[trigger] now[i]).len() > 0 by {
            match found[0] {
                None => {},
                Some(v) => {
                    if v.len() > 0 {
                        if i > 0 {
                            assert(now[i] == rest[i - 1]);
                        }
                    } else if multi {
                        assert(now[i] == rest[i]);
                    }
                },
            }
        }
    }
}

/// What is extracted: only fields that some rule is for, each once, and never
/// an empty value or an empty list.
pub proof fn extracted_fields_are_those_of_rules(body: Seq<char>, exs: Seq<CompiledView>)
    ensures
        table::distinct_keys(extracted(body, exs)),
        forall|k: Seq<char>| #[trigger]
            table::has_key(extracted(body, exs), k) ==> exists|i: int|
                0 <= i < exs.len() && (#[trigger] exs[i]).field == k,
        forall|i: int|
            0 <= i < extracted(body, exs).len() ==> all_filled(
                (#[trigger] extracted(body, exs)[i]).1,
            ),
    decreases exs.len(),
{
    if exs.len() > 0 && body.len() > 0 {
        let rest = exs.drop_last();
        let last = exs.last();
        let before = extracted(body, rest);
        let values = collected(body, last);
        let now = extracted(body, exs);
        extracted_fields_are_those_of_rules(body, rest);
        picked_values_are_filled(
            narrowed_all(non_empty(raw_values(body, last)), last.regex),
            last.multi,
        );
        if values.len() > 0 {
            let v = field_value(values, last.multi)->0;
            assert(all_filled(v));
            table::put_changes_one_key(before, last.field, v);
            assert forall|i: int| 0 <= i < now.len() implies all_filled((#[trigger] now[i]).1) by {
                if table::has_key(before, last.field) {
                    let at = table::position(before, last.field);
                    assert(table::key_at(before, last.field, at));
                    if i != at {
                        assert(now[i] == before[i]);
                    }
                } else if i < before.len() {
                    assert(now[i] == before[i]);
                }
            }
        }
        assert forall|k: Seq<char>| #[trigger] table::has_key(now, k) implies exists|i: int|
            0 <= i < exs.len() && (#[trigger] exs[i]).field == k by {
            if table::has_key(before, k) {
                let i = choose|i: int| 0 <= i < rest.len() && (#[trigger] rest[i]).field == k;
                assert(exs[i].field == k);
            } else {
                assert(exs[exs.len() - 1].field == k);
            }
        }
    } else {
        assert forall|k: Seq<char>| !#[trigger] table::has_key(extracted(body, exs), k) by {
            if table::has_key(extracted(body, exs), k) {
                assert(table::key_at(
                    extracted(body, exs),
                    k,
                    table::position(extracted(body, exs), k),
                ));
            }
        }
    }
}

/// Whether the rule at `i` finds something on a page, and none after it does for
/// the same field.
pub open spec fn is_last_to_find(body: Seq<char>, exs: Seq<CompiledView>, i: int) -> bool {
    &&& 0 <= i < exs.len()
    &&& collected(body, exs[i]).len() > 0
    &&& forall|j: int|
        i < j < exs.len() && (#[trigger] exs[j]).field == exs[i].field ==> collected(
            body,
            exs[j],
        ).len() == 0
}

/// Each field for which some rule finds something is extracted, and has what the
/// last such rule found.
pub proof fn last_rule_to_find_counts(body: Seq<char>, exs: Seq<CompiledView>, i: int)
    requires
        body.len() > 0,
        is_last_to_find(body, exs, i),
    ensures
        table::has_key(extracted(body, exs), exs[i].field),
        table::lookup(extracted(body, exs), exs[i].field) == field_value(
            collected(body, exs[i]),
            exs[i].multi,
        ),
    decreases exs.len(),
{
    let rest = exs.drop_last();
    let last = exs.last();
    let before = extracted(body, rest);
    let values = collected(body, last);
    extracted_fields_are_those_of_rules(body, rest);
    if values.len() > 0 {
        table::put_changes_one_key(before, last.field, field_value(values, last.multi)->0);
    }
    if i < rest.len() {
        assert(is_last_to_find(body, rest, i)) by {
            assert forall|j: int|
                i < j < rest.len() && (#[trigger] rest[j]).field == rest[i].field implies collected(
                body,
                rest[j],
            ).len() == 0 by {
                assert(rest[j] == exs[j]);
            }
        }
        last_rule_to_find_counts(body, rest, i);
        assert(rest[i] == exs[i]);
        if last.field == exs[i].field {
            assert(exs[exs.len() - 1].field == exs[i].field);
        }
    }
}

/// A field is extracted if and only if some rule for it finds something.
pub proof fn found_fields_are_extracted(body: Seq<char>, exs: Seq<CompiledView>, k: Seq<char>)
    requires
        body.len() > 0,
    ensures
        table::has_key(extracted(body, exs), k) <==> exists|i: int|
            #[trigger] is_last_to_find(body, exs, i) && exs[i].field == k,
    decreases exs.len(),
{
    if exs.len() == 0 {
        assert(forall|n: int| !#[trigger] table::key_at(extracted(body, exs), k, n));
    } else {
        let rest = exs.drop_last();
        let last = exs.last();
        let before = extracted(body, rest);
        let values = collected(body, last);
        found_fields_are_extracted(body, rest, k);
        extracted_fields_are_those_of_rules(body, rest);
        if values.len() > 0 {
            table::put_changes_one_key(before, last.field, field_value(values, last.multi)->0);
        }
        if exists|i: int| #[trigger] is_last_to_find(body, exs, i) && exs[i].field == k {
            let i = choose|i: int| #[trigger] is_last_to_find(body, exs, i) && exs[i].field == k;
            last_rule_to_find_counts(body, exs, i);
        }
        if table::has_key(extracted(body, exs), k) {
            if values.len() > 0 && last.field == k {
                assert(is_last_to_find(body, exs, exs.len() - 1));
            } else {
                assert(table::has_key(before, k));
                let i = choose|i: int|
                    #[trigger] is_last_to_find(body, rest, i) && rest[i].field == k;
                assert(is_last_to_find(body, exs, i)) by {
                    assert forall|j: int|
                        i < j < exs.len() && (#[trigger] exs[j]).field
                            == exs[i].field implies collected(body, exs[j]).len() == 0 by {
                        if j < rest.len() {
                            assert(rest[j] == exs[j]);
                        }
                    }
                }
            }
        }
    }
}

/// Where the rules of a site are for canonical fields only, so is what they
/// extract: a bad rule is left out, and none changes its field.
pub proof fn only_canonical_fields_are_extracted(body: Seq<char>, raws: Seq<ExtractorView>)
    requires
        forall|i: int|
            0 <= i < raws.len() ==> sites::canonical_fields().contains((#[trigger] raws[i]).field),
    ensures
        forall|k: Seq<char>| #[trigger]
            table::has_key(extracted(body, compiled_all(raws)), k)
                ==> sites::canonical_fields().contains(k),
{
    compiled_rules_keep_their_fields(raws);
    let exs = compiled_all(raws);
    extracted_fields_are_those_of_rules(body, exs);
    assert forall|k: Seq<char>| #[trigger] table::has_key(
        extracted(body, exs),
        k,
    ) implies sites::canonical_fields().contains(k) by {
        let i = choose|i: int| 0 <= i < exs.len() && (#[trigger] exs[i]).field == k;
        let j = choose|j: int| 0 <= j < raws.len() && (#[trigger] raws[j]).field == exs[i].field;
        assert(sites::canonical_fields().contains(raws[j].field));
    }
}

proof fn compiled_rules_keep_their_fields(raws: Seq<ExtractorView>)
    ensures
        forall|i: int|
            0 <= i < compiled_all(raws).len() ==> exists|j: int|
                0 <= j < raws.len() && (#[trigger] raws[j]).field == (#[trigger] compiled_all(
                    raws,
                )[i]).field,
    decreases raws.len(),
{
    if raws.len() > 0 {
        let rest = raws.drop_last();
        let before = compiled_all(rest);
        let now = compiled_all(raws);
        compiled_rules_keep_their_fields(rest);
        assert forall|i: int| 0 <= i < now.len() implies exists|j: int|
            0 <= j < raws.len() && (#[trigger] raws[j]).field == (#[trigger] now[i]).field by {
            if i < before.len() {
                assert(now[i] == before[i]);
                let j = choose|j: int|
                    0 <= j < rest.len() && (#[trigger] rest[j]).field == before[i].field;
                assert(raws[j] == rest[j]);
            } else {
                assert(raws[raws.len() - 1].field == now[i].field);
            }
        }
    }
}

/// An empty page, or no rule, yields nothing.
pub proof fn nothing_comes_of_nothing(body: Seq<char>, exs: Seq<CompiledView>)
    ensures
        body.len() == 0 || exs.len() == 0 ==> extracted(body, exs).len() == 0,
{
}

/// The values that are there, of those that may be missing or empty, are kept
/// in order and as they are.
pub open spec fn those_there(raws: Seq<Option<Seq<char>>>) -> Seq<Seq<char>> {
    raws.filter(|o: Option<Seq<char>>| o is Some && o->0.len() > 0).map_values(
        |o: Option<Seq<char>>| o->0,
    )
}

/// Only missing and empty values are left out; with `multi` the same holds of
/// what the regular expression let through.
pub proof fn values_that_are_there_are_kept(raws: Seq<Option<Seq<char>>>)
    ensures
        non_empty(raws) == those_there(raws),
        picked(raws, true) == those_there(raws),
{
    keeping_is_filtering(raws);
    picking_all_is_keeping(raws);
}

proof fn keeping_is_filtering(raws: Seq<Option<Seq<char>>>)
    ensures
        non_empty(raws) == those_there(raws),
    decreases raws.len(),
{
    reveal(Seq::filter);
    if raws.len() > 0 {
        keeping_is_filtering(raws.drop_last());
    }
    assert(non_empty(raws) =~= those_there(raws));
}

proof fn keeping_adds_up(a: Seq<Option<Seq<char>>>, b: Seq<Option<Seq<char>>>)
    ensures
        non_empty(a + b) == non_empty(a) + non_empty(b),
    decreases b.len(),
{
    if b.len() == 0 {
        assert(a + b =~= a);
        assert(non_empty(a) + non_empty(b) =~= non_empty(a));
    } else {
        assert((a + b).drop_last() =~= a + b.drop_last());
        keeping_adds_up(a, b.drop_last());
        assert(non_empty(a + b) =~= non_empty(a) + non_empty(b));
    }
}

proof fn picking_all_is_keeping(found: Seq<Option<Seq<char>>>)
    ensures
        picked(found, true) == non_empty(found),
    decreases found.len(),
{
    if found.len() > 0 {
        let one = seq![found[0]];
        picking_all_is_keeping(found.skip(1));
        assert(found =~= one + found.skip(1));
        keeping_adds_up(one, found.skip(1));
        assert(one.drop_last() =~= Seq::empty());
        assert(non_empty(one.drop_last()) =~= Seq::empty());
        assert(picked(found, true) =~= non_empty(found));
    }
}

/// Without `multi` the first value that the regular expression let through
/// counts, and no other, even where it is empty and so nothing is kept.
pub proof fn the_first_value_counts(
    a: Seq<Option<Seq<char>>>,
    v: Seq<char>,
    b: Seq<Option<Seq<char>>>,
)
    requires
        forall|i: int| 0 <= i < a.len() ==> (#[trigger] a[i]) is None,
    ensures
        picked(a, false).len() == 0,
        picked(a + seq![Some(v)] + b, false) == if v.len() > 0 {
            seq![v]
        } else {
            Seq::empty()
        },
    decreases a.len(),
{
    let all = a + seq![Some(v)] + b;
    if a.len() > 0 {
        assert forall|i: int| 0 <= i < a.skip(1).len() implies (#[trigger] a.skip(1)[i]) is None by {
            assert(a.skip(1)[i] == a[i + 1]);
        }
        the_first_value_counts(a.skip(1), v, b);
        assert(all.skip(1) =~= a.skip(1) + seq![Some(v)] + b);
        assert(all[0] == a[0]);
    } else {
        assert(all[0] == Some(v));
        assert(picked(all, false) =~= if v.len() > 0 {
            seq![v]
        } else {
            Seq::empty()
        });
    }
}

proof fn nothing_is_narrowed(values: Seq<Seq<char>>, multi: bool)
    requires
        forall|i: int| 0 <= i < values.len() ==> (#[trigger] values[i]).len() > 0,
    ensures
        multi ==> picked(narrowed_all(values, None), multi) == values,
        !multi && values.len() > 0 ==> picked(narrowed_all(values, None), multi) == seq![values[0]],
        values.len() == 0 ==> picked(narrowed_all(values, None), multi).len() == 0,
    decreases values.len(),
{
    let all = narrowed_all(values, None);
    if values.len() > 0 {
        let rest = values.skip(1);
        assert forall|i: int| 0 <= i < rest.len() implies (#[trigger] rest[i]).len() > 0 by {
            assert(rest[i] == values[i + 1]);
        }
        nothing_is_narrowed(rest, multi);
        assert(all.skip(1) =~= narrowed_all(rest, None));
        assert(all[0] == Some(values[0]));
        assert(values[0].len() > 0);
        if multi {
            assert(picked(all, multi) =~= values);
        } else {
            assert(picked(all, multi) =~= seq![values[0]]);
        }
    } else if multi {
        assert(picked(all, multi) =~= values);
    }
}

proof fn kept_values_are_filled(raws: Seq<Option<Seq<char>>>)
    ensures
        forall|i: int| 0 <= i < non_empty(raws).len() ==> (#[trigger] non_empty(raws)[i]).len() > 0,
        forall|i: int|
            0 <= i < non_empty(raws).len() ==> raws.contains(Some(#[trigger] non_empty(raws)[i])),
        forall|j: int|
            0 <= j < raws.len() && (#[trigger] raws[j]) is Some && raws[j]->0.len() > 0
                ==> non_empty(raws).contains(raws[j]->0),
    decreases raws.len(),
{
    if raws.len() > 0 {
        let rest = raws.drop_last();
        let before = non_empty(rest);
        let now = non_empty(raws);
        kept_values_are_filled(rest);
        assert forall|i: int| 0 <= i < now.len() implies (#[trigger] now[i]).len() > 0
            && raws.contains(Some(now[i])) by {
            if i < before.len() {
                assert(now[i] == before[i]);
                assert(rest.contains(Some(before[i])));
                let j = choose|j: int| 0 <= j < rest.len() && rest[j] == Some(before[i]);
                assert(raws[j] == Some(now[i]));
            } else {
                assert(raws[raws.len() - 1] == Some(now[i]));
            }
        }
        assert forall|j: int|
            0 <= j < raws.len() && (#[trigger] raws[j]) is Some && raws[j]->0.len()
                > 0 implies now.contains(raws[j]->0) by {
            if j < rest.len() {
                assert(rest[j] == raws[j]);
                assert(before.contains(rest[j]->0));
                let i = choose|i: int| 0 <= i < before.len() && before[i] == rest[j]->0;
                assert(now[i] == raws[j]->0);
            } else {
                assert(now[now.len() - 1] == raws[j]->0);
            }
        }
    }
}

/// Whether a value is the core of one of the texts.
pub open spec fn is_core_of_one(v: Seq<char>, texts: Seq<Seq<char>>) -> bool {
    exists|j: int| 0 <= j < texts.len() && text::is_core_of(v, #[trigger] texts[j])
}

/// A rule that names neither an attribute nor a regular expression yields texts
/// of the elements that its selector picks, each with just the white space at its
/// two ends taken away: what is yielded is never empty and neither begins nor
/// ends with white space. With `multi` the core of every such text is there, in
/// order; without it the first.
pub proof fn texts_come_without_white_space_around_them(body: Seq<char>, ex: CompiledView)
    requires
        ex.attribute is None,
        ex.regex is None,
    ensures
        forall|i: int|
            0 <= i < collected(body, ex).len() ==> {
                let v = #[trigger] collected(body, ex)[i];
                &&& v.len() > 0
                &&& !text::is_space(v[0])
                &&& !text::is_space(v.last())
                &&& is_core_of_one(v, outside::selected_texts(body, ex.selector))
            },
        ex.multi ==> forall|j: int, v: Seq<char>|
            0 <= j < outside::selected_texts(body, ex.selector).len() && text::is_core_of(
                v,
                #[trigger] outside::selected_texts(body, ex.selector)[j],
            ) ==> #[trigger] collected(body, ex).contains(v),
        ex.multi ==> collected(body, ex) == outside::selected_texts(body, ex.selector).map_values(
            |t: Seq<char>| text::trimmed(t),
        ).filter(|v: Seq<char>| v.len() > 0),
        !ex.multi ==> collected(body, ex) == (if collected(
            body,
            CompiledView { multi: true, ..ex },
        ).len() > 0 {
            seq![collected(body, CompiledView { multi: true, ..ex })[0]]
        } else {
            Seq::empty()
        }),
{
    let texts = outside::selected_texts(body, ex.selector);
    let raws = raw_values(body, ex);
    let values = non_empty(raws);
    let got = collected(body, ex);
    kept_values_are_filled(raws);
    nothing_is_narrowed(values, ex.multi);
    nothing_is_narrowed(values, true);
    assert(collected(body, CompiledView { multi: true, ..ex }) == values);
    assert(!ex.multi ==> got =~= (if values.len() > 0 {
        seq![values[0]]
    } else {
        Seq::empty()
    }));
    assert forall|i: int| 0 <= i < got.len() implies {
        let v = #[trigger] got[i];
        &&& v.len() > 0
        &&& !text::is_space(v[0])
        &&& !text::is_space(v.last())
        &&& is_core_of_one(v, texts)
    } by {
        assert(got[i] == values[i]);
        assert(raws.contains(Some(values[i])));
        let j = choose|j: int| 0 <= j < raws.len() && raws[j] == Some(values[i]);
        assert(raws[j] == Some(text::trimmed(texts[j])));
        text::trimming_finds_the_core(texts[j], values[i]);
        assert(text::is_core_of(values[i], texts[j]));
    }
    if ex.multi {
        assert forall|j: int, v: Seq<char>|
            0 <= j < texts.len() && text::is_core_of(
                v,
                #[trigger] texts[j],
            ) implies #[trigger] got.contains(v) by {
            text::trimming_finds_the_core(texts[j], v);
            assert(raws[j] == Some(text::trimmed(texts[j])));
        }
        let trimmed = texts.map_values(|t: Seq<char>| text::trimmed(t));
        assert(raws =~= trimmed.map_values(|v: Seq<char>| Some(v)));
        kept_of_values(trimmed);
    }
}

proof fn kept_of_values(values: Seq<Seq<char>>)
    ensures
        non_empty(values.map_values(|v: Seq<char>| Some(v))) == values.filter(
            |v: Seq<char>| v.len() > 0,
        ),
    decreases values.len(),
{
    reveal(Seq::filter);
    let all = values.map_values(|v: Seq<char>| Some(v));
    if values.len() > 0 {
        kept_of_values(values.drop_last());
        assert(all.drop_last() =~= values.drop_last().map_values(|v: Seq<char>| Some(v)));
    }
    assert(non_empty(all) =~= values.filter(|v: Seq<char>| v.len() > 0));
}

/// A rule that names an attribute yields its values as they are, but for those
/// that are missing or empty: all of them with `multi`, and else the first.
pub proof fn attributes_come_as_they_are(body: Seq<char>, ex: CompiledView, name: Seq<char>)
    requires
        ex.attribute == Some(name),
        ex.regex is None,
    ensures
        ex.multi ==> collected(body, ex) == those_there(
            outside::selected_attributes(body, ex.selector, name),
        ),
        !ex.multi ==> collected(body, ex) == (if collected(
            body,
            CompiledView { multi: true, ..ex },
        ).len() > 0 {
            seq![collected(body, CompiledView { multi: true, ..ex })[0]]
        } else {
            Seq::empty()
        }),
{
    let raws = raw_values(body, ex);
    let values = non_empty(raws);
    kept_values_are_filled(raws);
    keeping_is_filtering(raws);
    nothing_is_narrowed(values, ex.multi);
    nothing_is_narrowed(values, true);
    assert(collected(body, CompiledView { multi: true, ..ex }) == values);
    assert(!ex.multi ==> collected(body, ex) =~= (if values.len() > 0 {
        seq![values[0]]
    } else {
        Seq::empty()
    }));
}

/// A regular expression is applied to each value that the rule would yield
/// without it, and its first group is what counts.
pub proof fn regular_expressions_give_their_first_group(
    body: Seq<char>,
    ex: CompiledView,
    pattern: Seq<char>,
)
    requires
        ex.regex == Some(pattern),
    ensures
        ({
            let plain = collected(body, CompiledView { regex: None, multi: true, ..ex });
            let groups = plain.map_values(|v: Seq<char>| outside::regex_group(pattern, v));
            &&& ex.multi ==> collected(body, ex) == those_there(groups)
            &&& !ex.multi ==> collected(body, ex) == picked(groups, false)
        }),
{
    let bare = CompiledView { regex: None, multi: true, ..ex };
    let values = non_empty(raw_values(body, ex));
    assert(raw_values(body, bare) == raw_values(body, ex));
    kept_values_are_filled(raw_values(body, ex));
    nothing_is_narrowed(values, true);
    let groups = values.map_values(|v: Seq<char>| outside::regex_group(pattern, v));
    assert(narrowed_all(values, ex.regex) =~= groups);
    values_that_are_there_are_kept(groups);
}

/// What a rule compiles to, part by part.
pub proof fn rules_are_compiled_part_by_part(raw: ExtractorView, selector_ok: bool, regex_ok: bool)
    ensures
        raw.selector is None ==> selector_of(raw) == ":root"@,
        raw.selector is Some ==> selector_of(raw) == raw.selector->0,
        !selector_ok ==> compiled_if(raw, selector_ok, regex_ok) is None,
        selector_ok ==> compiled_if(raw, selector_ok, regex_ok) is Some && {
            let c = compiled_if(raw, selector_ok, regex_ok)->0;
            &&& c.field == raw.field
            &&& c.selector == selector_of(raw)
            &&& c.attribute == raw.attribute
            &&& c.multi == raw.multi
            &&& regex_ok ==> c.regex == raw.regex
            &&& !regex_ok ==> c.regex is None
        },
        compiled(raw) is Some <==> outside::selector_valid(selector_of(raw)),
        compiled(raw) is Some ==> (compiled(raw)->0.regex == if raw.regex is Some
            && outside::regex_valid(raw.regex->0) {
            raw.regex
        } else {
            None
        }),
        compiled(raw) is Some ==> compiled(raw) == compiled_if(
            raw,
            true,
            raw.regex is None || outside::regex_valid(raw.regex->0),
        ),
{
}

proof fn compiling_adds_up(a: Seq<ExtractorView>, b: Seq<ExtractorView>)
    ensures
        compiled_all(a + b) == compiled_all(a) + compiled_all(b),
    decreases b.len(),
{
    if b.len() == 0 {
        assert(a + b =~= a);
        assert(compiled_all(a) + compiled_all(b) =~= compiled_all(a));
    } else {
        assert((a + b).drop_last() =~= a + b.drop_last());
        compiling_adds_up(a, b.drop_last());
        assert(compiled_all(a + b) =~= compiled_all(a) + compiled_all(b));
    }
}

/// Each rule that can be kept is kept, in its place.
pub proof fn every_good_rule_is_kept(
    a: Seq<ExtractorView>,
    raw: ExtractorView,
    b: Seq<ExtractorView>,
)
    ensures
        compiled_all(Seq::empty()).len() == 0,
        compiled(raw) is Some ==> compiled_all(a + seq![raw] + b) == compiled_all(a) + seq![
            compiled(raw)->0,
        ] + compiled_all(b),
        compiled(raw) is None ==> compiled_all(a + seq![raw] + b) == compiled_all(a)
            + compiled_all(b),
{
    let one = seq![raw];
    compiling_adds_up(a + one, b);
    compiling_adds_up(a, one);
    assert(one.drop_last() =~= Seq::empty());
    assert(compiled_all(one.drop_last()) =~= Seq::empty());
    if compiled(raw) is Some {
        assert(compiled_all(one) =~= seq![compiled(raw)->0]);
    } else {
        assert(compiled_all(a) + compiled_all(one) =~= compiled_all(a));
    }
}

/// A field holds the list of values where its rule asks for all, and else the
/// first value alone; and nothing where there is none.
pub proof fn fields_hold_one_value_or_all(values: Seq<Seq<char>>)
    ensures
        values.len() == 0 ==> field_value(values, true) is None && field_value(values, false) is None,
        values.len() > 0 ==> field_value(values, true) == Some(ExtractedView::Many(values)),
        values.len() > 0 ==> field_value(values, false) == Some(ExtractedView::One(values[0])),
{
}

} // verus!
