//! Where a request comes from, and which values of a record answer it.
//!
//! A record holds one value for everybody and a list of rules, each with a
//! value for one country or one continent. Every rule that applies to a
//! request contributes its value, in the order of the list; where none
//! applies, the record's own value answers alone.

use vstd::prelude::*;
use crate::options::{GeoRecord, GeoRecordView, Record, RecordView};

verus! {

/// What the location database holds for an address. Either code may be
/// missing.
#[derive(Debug)]
pub struct LocationEntry {
    pub continent: Option<String>,
    pub country: Option<String>,
}

/// What a `LocationEntry` stands for.
pub struct LocationEntryView {
    pub continent: Option<Seq<char>>,
    pub country: Option<Seq<char>>,
}

impl View for LocationEntry {
    type V = LocationEntryView;

    open spec fn view(&self) -> LocationEntryView {
        LocationEntryView {
            continent: self.continent.deep_view(),
            country: self.country.deep_view(),
        }
    }
}

impl DeepView for LocationEntry {
    type V = LocationEntryView;

    open spec fn deep_view(&self) -> LocationEntryView {
        self@
    }
}

/// The location of a request: the code of its continent and of its country.
/// A code that is not known is empty.
#[derive(Debug)]
pub struct Location {
    pub continent: String,
    pub country: String,
}

/// What a `Location` stands for.
pub struct LocationView {
    pub continent: Seq<char>,
    pub country: Seq<char>,
}

impl View for Location {
    type V = LocationView;

    open spec fn view(&self) -> LocationView {
        LocationView { continent: self.continent@, country: self.country@ }
    }
}

/// The code in `code`, or the empty code where there is none.
pub open spec fn code_or_empty(code: Option<Seq<char>>) -> Seq<char> {
    match code {
        Some(c) => c,
        None => Seq::empty(),
    }
}

/// The location that the outcome of a lookup gives: the codes of the entry
/// that was found, each empty where the entry lacks it; both empty where
/// nothing was found.
pub open spec fn location_of(found: Option<LocationEntryView>) -> LocationView {
    match found {
        Some(entry) => LocationView {
            continent: code_or_empty(entry.continent),
            country: code_or_empty(entry.country),
        },
        None => LocationView { continent: Seq::empty(), country: Seq::empty() },
    }
}

/// The code in `code`, or the empty code where there is none.
fn code_of(code: &Option<String>) -> (r: String)
    ensures
        r@ == code_or_empty(code.deep_view()),
{
    match code {
        Some(c) => c.clone(),
        None => String::new(),
    }
}

/// Turns the outcome of a lookup in the location database into a location.
/// An address that the database does not know is located nowhere: that is
/// no error, and no rule with a code that is not empty applies to it.
pub fn locate(found: Option<&LocationEntry>) -> (r: Location)
    ensures
        r@ == location_of(found.deep_view()),
{
    match found {
        Some(entry) => Location {
            continent: code_of(&entry.continent),
            country: code_of(&entry.country),
        },
        None => Location { continent: String::new(), country: String::new() },
    }
}

/// One value that answers a request, with its time to live.
#[derive(Debug)]
pub struct Selected {
    pub value: String,
    pub ttl: u32,
}

/// What a `Selected` stands for.
pub struct SelectedView {
    pub value: Seq<char>,
    pub ttl: u32,
}

impl View for Selected {
    type V = SelectedView;

    open spec fn view(&self) -> SelectedView {
        SelectedView { value: self.value@, ttl: self.ttl }
    }
}

impl DeepView for Selected {
    type V = SelectedView;

    open spec fn deep_view(&self) -> SelectedView {
        self@
    }
}

/// Whether `rule` names the country `country`.
pub open spec fn country_matches(rule: GeoRecordView, country: Seq<char>) -> bool {
    rule.country == Some(country)
}

/// Whether `rule` names the continent `continent`.
pub open spec fn continent_matches(rule: GeoRecordView, continent: Seq<char>) -> bool {
    rule.continent == Some(continent)
}

/// Whether `rule` applies to a request from `country` in `continent`: it
/// names that country, or else it names that continent. A rule that names
/// neither applies to no request.
pub open spec fn rule_matches(rule: GeoRecordView, country: Seq<char>, continent: Seq<char>) -> bool {
    country_matches(rule, country) || continent_matches(rule, continent)
}

/// What `rule` contributes where it applies: its value, with its own time to
/// live or else `default_ttl`.
pub open spec fn rule_value(rule: GeoRecordView, default_ttl: u32) -> SelectedView {
    SelectedView {
        value: rule.value,
        ttl: match rule.ttl {
            Some(ttl) => ttl,
            None => default_ttl,
        },
    }
}

/// What the rules of `geo` that apply contribute, in the order of `geo`.
pub open spec fn matching(
    geo: Seq<GeoRecordView>,
    default_ttl: u32,
    country: Seq<char>,
    continent: Seq<char>,
) -> Seq<SelectedView>
    decreases geo.len(),
{
    if geo.len() == 0 {
        Seq::empty()
    } else {
        let before = matching(geo.drop_last(), default_ttl, country, continent);
        if rule_matches(geo.last(), country, continent) {
            before.push(rule_value(geo.last(), default_ttl))
        } else {
            before
        }
    }
}

/// The value that `record` has for everybody.
pub open spec fn default_value(record: RecordView) -> SelectedView {
    SelectedView { value: record.value, ttl: record.ttl }
}

/// The values of `record` that answer a request from `country` in
/// `continent`: what its rules contribute, or its own value alone where they
/// contribute nothing.
pub open spec fn selection(record: RecordView, country: Seq<char>, continent: Seq<char>) -> Seq<
    SelectedView,
> {
    let m = matching(record.geo, record.ttl, country, continent);
    if m.len() == 0 {
        seq![default_value(record)]
    } else {
        m
    }
}

/// Whether any rule of `geo` applies.
pub open spec fn any_rule_matches(
    geo: Seq<GeoRecordView>,
    country: Seq<char>,
    continent: Seq<char>,
) -> bool {
    exists|i: int| 0 <= i < geo.len() && rule_matches(#[trigger] geo[i], country, continent)
}

/// The rules that apply contribute one value each: as many values as rules
/// that apply, and none exactly where no rule applies.
pub proof fn lemma_matching_empty(
    geo: Seq<GeoRecordView>,
    default_ttl: u32,
    country: Seq<char>,
    continent: Seq<char>,
)
    ensures
        matching(geo, default_ttl, country, continent).len() <= geo.len(),
        matching(geo, default_ttl, country, continent).len() == 0 <==> !any_rule_matches(
            geo,
            country,
            continent,
        ),
    decreases geo.len(),
{
    if geo.len() > 0 {
        let front = geo.drop_last();
        lemma_matching_empty(front, default_ttl, country, continent);
        if rule_matches(geo.last(), country, continent) {
            assert(rule_matches(geo[geo.len() - 1], country, continent));
        } else if any_rule_matches(geo, country, continent) {
            let i = choose|i: int|
                0 <= i < geo.len() && rule_matches(#[trigger] geo[i], country, continent);
            assert(front[i] == geo[i]);
        } else if any_rule_matches(front, country, continent) {
            let i = choose|i: int|
                0 <= i < front.len() && rule_matches(#[trigger] front[i], country, continent);
            assert(front[i] == geo[i]);
        }
    }
}

/// A rule that applies has its value among those that the rules contribute.
pub proof fn lemma_matching_contains(
    geo: Seq<GeoRecordView>,
    default_ttl: u32,
    country: Seq<char>,
    continent: Seq<char>,
    i: int,
)
    requires
        0 <= i < geo.len(),
        rule_matches(geo[i], country, continent),
    ensures
        matching(geo, default_ttl, country, continent).contains(rule_value(geo[i], default_ttl)),
    decreases geo.len(),
{
    let m = matching(geo, default_ttl, country, continent);
    let front = geo.drop_last();
    let before = matching(front, default_ttl, country, continent);
    if i == geo.len() - 1 {
        assert(m[m.len() - 1] == rule_value(geo[i], default_ttl));
    } else {
        assert(front[i] == geo[i]);
        lemma_matching_contains(front, default_ttl, country, continent, i);
        let k = choose|k: int| 0 <= k < before.len() && before[k] == rule_value(geo[i], default_ttl);
        assert(m[k] == before[k]);
    }
}

/// A record without rules answers with its own value and time to live,
/// wherever the request comes from.
pub proof fn lemma_no_rules_selects_default(
    record: RecordView,
    country: Seq<char>,
    continent: Seq<char>,
)
    requires
        record.geo.len() == 0,
    ensures
        selection(record, country, continent) == seq![default_value(record)],
{
}

/// A rule that names the country of the request has its value among the
/// answers, whatever continent the rule names and whatever continent the
/// request comes from.
pub proof fn lemma_country_match_selected(
    record: RecordView,
    country: Seq<char>,
    continent: Seq<char>,
    i: int,
)
    requires
        0 <= i < record.geo.len(),
        record.geo[i].country == Some(country),
    ensures
        selection(record, country, continent).contains(rule_value(record.geo[i], record.ttl)),
{
    lemma_matching_contains(record.geo, record.ttl, country, continent, i);
}

/// Where no rule applies, the answer is the record's own value and nothing
/// else; and whether rules apply or not, there is always an answer.
pub proof fn lemma_no_match_selects_default(
    record: RecordView,
    country: Seq<char>,
    continent: Seq<char>,
)
    ensures
        !any_rule_matches(record.geo, country, continent) ==> selection(record, country, continent)
            == seq![default_value(record)],
        selection(record, country, continent).len() >= 1,
{
    lemma_matching_empty(record.geo, record.ttl, country, continent);
}

/// Tells whether `rule` applies to a request from `location`.
fn rule_applies(rule: &GeoRecord, location: &Location) -> (r: bool)
    ensures
        r == rule_matches(rule@, location@.country, location@.continent),
{
    let by_country = match &rule.country {
        Some(c) => *c == location.country,
        None => false,
    };
    if by_country {
        return true;
    }
    match &rule.continent {
        Some(c) => *c == location.continent,
        None => false,
    }
}

/// Selects the values of `record` that answer a request from `location`.
pub fn select(record: &Record, location: &Location) -> (r: Vec<Selected>)
    ensures
        r.deep_view() == selection(record@, location@.country, location@.continent),
        r@.len() >= 1,
{
    let ghost geo = record@.geo;
    let ghost country = location@.country;
    let ghost continent = location@.continent;
    let mut out: Vec<Selected> = Vec::new();
    let mut i: usize = 0;
    proof {
        assert(geo.take(0) =~= Seq::<GeoRecordView>::empty());
    }
    while i < record.geo.len()
        invariant
            i <= record.geo@.len(),
            geo == record@.geo,
            country == location@.country,
            continent == location@.continent,
            out.deep_view() == matching(geo.take(i as int), record.ttl, country, continent),
        decreases record.geo@.len() - i,
    {
        let rule = &record.geo[i];
        proof {
            assert(geo.take(i + 1).drop_last() =~= geo.take(i as int));
            assert(geo.take(i + 1).last() == rule@);
        }
        if rule_applies(rule, location) {
            let ttl: u32 = match rule.ttl {
                Some(ttl) => ttl,
                None => record.ttl,
            };
            let ghost before = out.deep_view();
            out.push(Selected { value: rule.value.clone(), ttl });
            proof {
                assert(out.deep_view() =~= before.push(rule_value(rule@, record.ttl)));
            }
        }
        i += 1;
    }
    proof {
        assert(geo.take(geo.len() as int) =~= geo);
    }
    if out.len() == 0 {
        out.push(Selected { value: record.value.clone(), ttl: record.ttl });
        proof {
            assert(out.deep_view() =~= seq![default_value(record@)]);
        }
    }
    out
}

} // verus!
