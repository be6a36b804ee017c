//! The local cache of entries: at most one entry per day and project, kept in
//! calendar order, together with the active-project preference, and the
//! queries the views are built from.

use crate::api::TimetEntry;
use crate::calendar::{
    date_from_ordinal, date_from_ymd, month_name, month_name_text, ordinal_date, ordinal_exists,
    Date,
};
use crate::text::{
    chars_of, decimal_text, push_decimal, push_signed_decimal, push_text, signed_decimal_text,
};
use vstd::prelude::*;

verus! {

/// One cached entry. `hours` is in hundredths of an hour.
#[derive(Debug)]
pub struct Entry {
    pub date: Date,
    pub hours: u32,
    pub project_name: String,
    pub project_id: String,
}

pub struct EntryView {
    pub date: Date,
    pub hours: u32,
    pub project_name: Seq<char>,
    pub project_id: Seq<char>,
}

impl View for Entry {
    type V = EntryView;

    open spec fn view(&self) -> EntryView {
        EntryView {
            date: self.date,
            hours: self.hours,
            project_name: self.project_name@,
            project_id: self.project_id@,
        }
    }
}

impl Entry {
    pub fn duplicate(&self) -> (r: Entry)
        ensures
            r == *self,
    {
        Entry {
            date: self.date,
            hours: self.hours,
            project_name: self.project_name.clone(),
            project_id: self.project_id.clone(),
        }
    }
}

impl EntryView {
    /// Two entries for the same day and project.
    pub open spec fn same_key(self, o: EntryView) -> bool {
        self.date == o.date && self.project_id == o.project_id
    }

    /// The entry counts under the given active-project filter.
    pub open spec fn shown_for(self, active: Option<Seq<char>>) -> bool {
        match active {
            Some(p) => self.project_id == p,
            None => true,
        }
    }
}

/// A project with at least one entry.
#[derive(Clone, Debug)]
pub struct Project {
    pub project_id: String,
    pub project_name: String,
}

impl View for Project {
    type V = (Seq<char>, Seq<char>);

    open spec fn view(&self) -> (Seq<char>, Seq<char>) {
        (self.project_id@, self.project_name@)
    }
}

/// An entry as listed by `Store::get_days`; `id` numbers the rows from one.
#[derive(Debug)]
pub struct DayEntry {
    pub id: u64,
    pub date: Date,
    pub hours: u32,
    pub project_name: String,
    pub project_id: String,
}

/// Items of one stretch of days.
#[derive(Debug)]
pub struct EntryContainer<T> {
    pub begin: Date,
    pub end: Date,
    pub content: Vec<T>,
}

/// A summary of weeks; hours in hundredths of an hour.
#[derive(Debug)]
pub struct Overview {
    pub content: Vec<OverviewContent>,
    pub sum: u64,
}

/// Hours of one week; in hundredths of an hour.
#[derive(Debug)]
pub struct OverviewContent {
    pub start: Date,
    pub end: Date,
    pub hours: u32,
    pub week: i32,
}

/// One month of the yearly overview; `hours` in hundredths of an hour.
#[derive(Debug)]
pub struct Year {
    pub hours: u64,
    pub month: u32,
    pub month_name: String,
}

/// One row of a month's detail; `hours` in hundredths of an hour.
#[derive(Debug)]
pub struct Month {
    pub date: Date,
    pub project_name: String,
    pub hours: u32,
}

pub struct MonthView {
    pub date: Date,
    pub project_name: Seq<char>,
    pub hours: u32,
}

impl View for Month {
    type V = MonthView;

    open spec fn view(&self) -> MonthView {
        MonthView { date: self.date, project_name: self.project_name@, hours: self.hours }
    }
}

#[derive(Debug, PartialEq, Eq)]
pub enum StoreError {
    /// The year has no such day number.
    InvalidDate { year: i32, day_of_year: u32 },
    /// The year has no such month.
    InvalidMonth { year: i32, month: u32 },
    /// No entry names this project.
    UnknownProject { project_id: String },
}

impl StoreError {
    pub open spec fn is_unknown_project(self, p: Seq<char>) -> bool {
        match self {
            StoreError::UnknownProject { project_id } => project_id@ == p,
            _ => false,
        }
    }
}

impl StoreError {
    pub open spec fn text(self) -> Seq<char> {
        match self {
            StoreError::InvalidDate { year, day_of_year } => "Could not create date from "@
                + signed_decimal_text(year as int) + "-"@ + decimal_text(day_of_year as nat),
            StoreError::InvalidMonth { year, month } => "Could not create date from "@
                + signed_decimal_text(year as int) + "-"@ + decimal_text(month as nat) + "-1"@,
            StoreError::UnknownProject { project_id } => "Unknown project "@ + project_id@,
        }
    }

    /// The message shown for the error.
    pub fn message(&self) -> (r: String)
        ensures
            r@ == self.text(),
    {
        match self {
            StoreError::InvalidDate { year, day_of_year } => {
                let mut r = "Could not create date from ".to_owned();
                push_signed_decimal(&mut r, *year);
                push_text(&mut r, "-");
                push_decimal(&mut r, *day_of_year as u64);
                r
            },
            StoreError::InvalidMonth { year, month } => {
                let mut r = "Could not create date from ".to_owned();
                push_signed_decimal(&mut r, *year);
                push_text(&mut r, "-");
                push_decimal(&mut r, *month as u64);
                push_text(&mut r, "-1");
                r
            },
            StoreError::UnknownProject { project_id } => {
                let mut r = "Unknown project ".to_owned();
                push_text(&mut r, project_id.as_str());
                r
            },
        }
    }
}

/// `r` is the yearly overview of `year` for the entries and filter of `v`.
pub open spec fn is_yearly_overview(r: Seq<Year>, v: StoreView, year: int) -> bool {
    &&& r.len() == 12
    &&& forall|i: int|
        0 <= i < 12 ==> {
            &&& (#[trigger] r[i]).month == i + 1
            &&& r[i].month_name@ == month_name_text(i + 1)
            &&& r[i].hours == capped(month_total(v.entries, year, i + 1, v.active))
        }
}

pub struct StoreView {
    pub entries: Seq<EntryView>,
    pub active: Option<Seq<char>>,
}

/// The local cache.
#[derive(Debug)]
pub struct Store {
    entries: Vec<Entry>,
    active_project: Option<String>,
}

impl View for Store {
    type V = StoreView;

    closed spec fn view(&self) -> StoreView {
        StoreView {
            entries: self.entries@.map_values(|e: Entry| e@),
            active: match self.active_project {
                Some(p) => Some(p@),
                None => None,
            },
        }
    }
}

pub open spec fn sorted_by_date(s: Seq<EntryView>) -> bool {
    forall|i: int, j: int|
        #![trigger s[i], s[j]]
        0 <= i < j < s.len() ==> s[i].date.not_later_than(s[j].date)
}

pub open spec fn keys_unique(s: Seq<EntryView>) -> bool {
    forall|i: int, j: int| #![trigger s[i], s[j]] 0 <= i < j < s.len() ==> !s[i].same_key(s[j])
}

pub open spec fn well_formed_entries(s: Seq<EntryView>) -> bool {
    sorted_by_date(s) && keys_unique(s)
}

/// Where an entry for day `d` goes: after every entry that is not later.
pub open spec fn insert_point(s: Seq<EntryView>, d: Date) -> int
    decreases s.len(),
{
    if s.len() == 0 {
        0
    } else if s.last().date.not_later_than(d) {
        s.len() as int
    } else {
        insert_point(s.drop_last(), d)
    }
}

pub open spec fn has_key(s: Seq<EntryView>, e: EntryView) -> bool {
    exists|i: int| 0 <= i < s.len() && s[i].same_key(e)
}

pub open spec fn key_index(s: Seq<EntryView>, e: EntryView) -> int {
    choose|i: int| 0 <= i < s.len() && s[i].same_key(e)
}

/// Insert-or-replace keyed by day and project.
pub open spec fn upsert(s: Seq<EntryView>, e: EntryView) -> Seq<EntryView> {
    if has_key(s, e) {
        s.update(key_index(s, e), e)
    } else {
        s.insert(insert_point(s, e.date), e)
    }
}

/// `upsert` of each item in turn.
pub open spec fn upsert_all(s: Seq<EntryView>, items: Seq<EntryView>) -> Seq<EntryView>
    decreases items.len(),
{
    if items.len() == 0 {
        s
    } else {
        upsert(upsert_all(s, items.drop_last()), items.last())
    }
}

/// The cached form of an entry of the remote service.
pub open spec fn timet_view(t: TimetEntry) -> EntryView {
    EntryView {
        date: ordinal_date(t.year as int, t.day_of_year as int),
        hours: t.hours,
        project_name: t.project_name@,
        project_id: t.project_id@,
    }
}

pub open spec fn timet_date_ok(t: TimetEntry) -> bool {
    ordinal_exists(t.year as int, t.day_of_year as int)
}

pub open spec fn timet_views(items: Seq<TimetEntry>) -> Seq<EntryView> {
    items.map_values(|t: TimetEntry| timet_view(t))
}

/// How an import of `items` ends: none when every item names an existing
/// day, else the error for the first that does not.
pub open spec fn import_error(items: Seq<TimetEntry>) -> Option<StoreError> {
    if forall|i: int| 0 <= i < items.len() ==> timet_date_ok(#[trigger] items[i]) {
        None
    } else {
        let k = choose|k: int|
            0 <= k < items.len() && !timet_date_ok(#[trigger] items[k]) && forall|j: int|
                0 <= j < k ==> timet_date_ok(#[trigger] items[j]);
        Some(StoreError::InvalidDate { year: items[k].year, day_of_year: items[k].day_of_year })
    }
}

/// Hours of the entries of month `m` of year `y` that the filter shows.
pub open spec fn month_total(s: Seq<EntryView>, y: int, m: int, a: Option<Seq<char>>) -> int
    decreases s.len(),
{
    if s.len() == 0 {
        0
    } else {
        month_total(s.drop_last(), y, m, a) + if s.last().date.in_month(y, m) && s.last().shown_for(
            a,
        ) {
            s.last().hours as int
        } else {
            0
        }
    }
}

pub open spec fn capped(x: int) -> int {
    if x > u64::MAX { u64::MAX as int } else { x }
}

/// The rows of a month's detail: its non-zero entries that the filter shows,
/// in calendar order.
pub open spec fn detail_rows(s: Seq<EntryView>, y: int, m: int, a: Option<Seq<char>>) -> Seq<
    MonthView,
>
    decreases s.len(),
{
    if s.len() == 0 {
        Seq::empty()
    } else {
        let rest = detail_rows(s.drop_last(), y, m, a);
        let e = s.last();
        if e.date.in_month(y, m) && e.shown_for(a) && e.hours != 0 {
            rest.push(MonthView { date: e.date, project_name: e.project_name, hours: e.hours })
        } else {
            rest
        }
    }
}

/// Index of the first entry of project `p`.
pub open spec fn is_first_of_project(s: Seq<EntryView>, p: Seq<char>, k: int) -> bool {
    &&& 0 <= k < s.len()
    &&& s[k].project_id == p
    &&& forall|j: int| 0 <= j < k ==> s[j].project_id != p
}

pub open spec fn has_project(s: Seq<EntryView>, p: Seq<char>) -> bool {
    exists|k: int| 0 <= k < s.len() && s[k].project_id == p
}

/// Display name of project `p`, as the first of its entries gives it.
pub open spec fn project_name_of(s: Seq<EntryView>, p: Seq<char>) -> Seq<char> {
    s[choose|k: int| is_first_of_project(s, p, k)].project_name
}

/// The entries after hours `h` were written for project `p` on day `d`.
pub open spec fn with_hours(s: Seq<EntryView>, p: Seq<char>, h: u32, d: Date) -> Seq<EntryView> {
    upsert(s, EntryView { date: d, hours: h, project_name: project_name_of(s, p), project_id: p })
}

proof fn lemma_insert_point(s: Seq<EntryView>, d: Date)
    requires
        sorted_by_date(s),
    ensures
        forall|j: int| 0 <= j < insert_point(s, d) ==> (#[trigger] s[j]).date.not_later_than(d),
        forall|j: int|
            insert_point(s, d) <= j < s.len() ==> !(#[trigger] s[j]).date.not_later_than(d),
    decreases s.len(),
{
    lemma_insert_point_bounds(s, d);
    if s.len() > 0 {
        let n = s.len() - 1;
        if s.last().date.not_later_than(d) {
            assert forall|j: int| 0 <= j < s.len() implies (#[trigger] s[j]).date.not_later_than(
                d,
            ) by {
                if j < n {
                    assert(s[j].date.not_later_than(s[n].date));
                }
            }
        } else {
            let t = s.drop_last();
            assert forall|i: int, j: int| 0 <= i < j < t.len() implies t[i].date.not_later_than(
                t[j].date,
            ) by {
                assert(s[i].date.not_later_than(s[j].date));
            }
            lemma_insert_point(t, d);
            lemma_insert_point_bounds(t, d);
            assert forall|j: int| 0 <= j < insert_point(s, d) implies (
            #[trigger] s[j]).date.not_later_than(d) by {
                assert(t[j] == s[j]);
            }
            assert forall|j: int| insert_point(s, d) <= j < s.len() implies !(
            #[trigger] s[j]).date.not_later_than(d) by {
                if j < n {
                    assert(t[j] == s[j]);
                }
            }
        }
    }
}

proof fn lemma_upsert_well_formed(s: Seq<EntryView>, e: EntryView)
    requires
        well_formed_entries(s),
    ensures
        well_formed_entries(upsert(s, e)),
{
    if has_key(s, e) {
        let k = key_index(s, e);
        let t = s.update(k, e);
        assert(s[k].same_key(e));
        assert forall|i: int, j: int| 0 <= i < j < t.len() implies t[i].date.not_later_than(
            t[j].date,
        ) by {
            assert(s[i].date.not_later_than(s[j].date));
        }
        assert forall|i: int, j: int| 0 <= i < j < t.len() implies !t[i].same_key(t[j]) by {
            assert(!s[i].same_key(s[j]));
        }
    } else {
        let p = insert_point(s, e.date);
        lemma_insert_point(s, e.date);
        lemma_insert_point_bounds(s, e.date);
        let t = s.insert(p, e);
        assert forall|i: int, j: int| 0 <= i < j < t.len() implies t[i].date.not_later_than(
            t[j].date,
        ) by {
            if j < p {
                assert(s[i].date.not_later_than(s[j].date));
            } else if j == p {
                assert(s[i].date.not_later_than(e.date));
            } else if i < p {
                assert(s[i].date.not_later_than(s[j - 1].date));
            } else if i == p {
                assert(!s[j - 1].date.not_later_than(e.date));
            } else {
                assert(s[i - 1].date.not_later_than(s[j - 1].date));
            }
        }
        assert forall|i: int, j: int| 0 <= i < j < t.len() implies !t[i].same_key(t[j]) by {
            if j < p {
                assert(!s[i].same_key(s[j]));
            } else if j == p {
                assert(!s[i].same_key(e));
            } else if i < p {
                assert(!s[i].same_key(s[j - 1]));
            } else if i == p {
                assert(!s[j - 1].same_key(e));
            } else {
                assert(!s[i - 1].same_key(s[j - 1]));
            }
        }
    }
}

pub open spec fn pair_of(e: EntryView) -> (Seq<char>, Seq<char>) {
    (e.project_id, e.project_name)
}

/// Code-point order of texts, the order of their UTF-8 bytes.
pub open spec fn text_le(a: Seq<char>, b: Seq<char>) -> bool
    decreases a.len(),
{
    if a.len() == 0 {
        true
    } else if b.len() == 0 {
        false
    } else if a[0] != b[0] {
        a[0] < b[0]
    } else {
        text_le(a.drop_first(), b.drop_first())
    }
}

/// Where a project named `name` goes in a list ordered by name: after every
/// project whose name is not greater.
pub open spec fn name_point(list: Seq<(Seq<char>, Seq<char>)>, name: Seq<char>) -> int
    decreases list.len(),
{
    if list.len() == 0 {
        0
    } else if text_le(list.last().1, name) {
        list.len() as int
    } else {
        name_point(list.drop_last(), name)
    }
}

/// The distinct (id, display name) pairs of the entries with non-zero hours,
/// ordered by display name; pairs with equal names keep their order of first
/// appearance.
pub open spec fn project_list(s: Seq<EntryView>) -> Seq<(Seq<char>, Seq<char>)>
    decreases s.len(),
{
    if s.len() == 0 {
        Seq::empty()
    } else {
        let acc = project_list(s.drop_last());
        let p = pair_of(s.last());
        if s.last().hours != 0 && !acc.contains(p) {
            acc.insert(name_point(acc, p.1), p)
        } else {
            acc
        }
    }
}

fn text_not_greater(a: &String, b: &String) -> (r: bool)
    ensures
        r == text_le(a@, b@),
{
    let x = chars_of(a.as_str());
    let y = chars_of(b.as_str());
    let mut i: usize = 0;
    assert(x@.subrange(0, x@.len() as int) =~= x@);
    assert(y@.subrange(0, y@.len() as int) =~= y@);
    while i < x.len() && i < y.len() && x[i] == y[i]
        invariant
            i <= x@.len(),
            i <= y@.len(),
            text_le(x@, y@) == text_le(
                x@.subrange(i as int, x@.len() as int),
                y@.subrange(i as int, y@.len() as int),
            ),
        decreases x.len() - i,
    {
        let ghost xs = x@.subrange(i as int, x@.len() as int);
        let ghost ys = y@.subrange(i as int, y@.len() as int);
        assert(xs.drop_first() =~= x@.subrange(i + 1, x@.len() as int));
        assert(ys.drop_first() =~= y@.subrange(i + 1, y@.len() as int));
        i = i + 1;
    }
    if i == x.len() {
        true
    } else if i == y.len() {
        false
    } else {
        assert(x@.subrange(i as int, x@.len() as int)[0] == x@[i as int]);
        assert(y@.subrange(i as int, y@.len() as int)[0] == y@[i as int]);
        x[i] < y[i]
    }
}

/// Position at which a project named `name` goes.
fn project_position(list: &Vec<Project>, name: &String) -> (r: usize)
    ensures
        r <= list@.len(),
        r == name_point(list@.map_values(|p: Project| p@), name@),
{
    let ghost v = list@.map_values(|p: Project| p@);
    let mut i: usize = list.len();
    assert(v.subrange(0, i as int) =~= v);
    while i > 0 && !text_not_greater(&list[i - 1].project_name, name)
        invariant
            i <= list.len(),
            v == list@.map_values(|p: Project| p@),
            name_point(v, name@) == name_point(v.subrange(0, i as int), name@),
        decreases i,
    {
        assert(v.subrange(0, i as int).drop_last() =~= v.subrange(0, i - 1));
        i = i - 1;
    }
    if i == 0 {
        assert(v.subrange(0, 0) =~= Seq::<(Seq<char>, Seq<char>)>::empty());
    } else {
        assert(v.subrange(0, i as int).last() == v[i - 1]);
    }
    i
}

fn contains_project(list: &Vec<Project>, id: &String, name: &String) -> (r: bool)
    ensures
        r == exists|i: int| 0 <= i < list@.len() && (#[trigger] list@[i])@ == (id@, name@),
{
    let mut i: usize = 0;
    while i < list.len()
        invariant
            i <= list.len(),
            forall|j: int| 0 <= j < i ==> (#[trigger] list@[j])@ != (id@, name@),
        decreases list.len() - i,
    {
        if list[i].project_id == *id && list[i].project_name == *name {
            return true;
        }
        i = i + 1;
    }
    false
}

proof fn lemma_month_total_nonneg(s: Seq<EntryView>, y: int, m: int, a: Option<Seq<char>>)
    ensures
        month_total(s, y, m, a) >= 0,
    decreases s.len(),
{
    if s.len() > 0 {
        lemma_month_total_nonneg(s.drop_last(), y, m, a);
    }
}

proof fn lemma_first_of_project(s: Seq<EntryView>, p: Seq<char>, k: int)
    requires
        is_first_of_project(s, p, k),
    ensures
        has_project(s, p),
        project_name_of(s, p) == s[k].project_name,
{
    let c = choose|c: int| is_first_of_project(s, p, c);
    assert(is_first_of_project(s, p, c));
    assert(c == k) by {
        if c < k {
            assert(s[c].project_id != p);
        } else if c > k {
            assert(s[k].project_id != p);
        }
    }
}

/// Hours an entry adds to the total of month `m` of year `y` under filter `a`.
pub open spec fn month_share(e: EntryView, y: int, m: int, a: Option<Seq<char>>) -> int {
    if e.date.in_month(y, m) && e.shown_for(a) {
        e.hours as int
    } else {
        0
    }
}

proof fn lemma_insert_point_bounds(s: Seq<EntryView>, d: Date)
    ensures
        0 <= insert_point(s, d) <= s.len(),
    decreases s.len(),
{
    if s.len() > 0 {
        lemma_insert_point_bounds(s.drop_last(), d);
    }
}

proof fn lemma_month_total_insert(
    s: Seq<EntryView>,
    p: int,
    e: EntryView,
    y: int,
    m: int,
    a: Option<Seq<char>>,
)
    requires
        0 <= p <= s.len(),
    ensures
        month_total(s.insert(p, e), y, m, a) == month_total(s, y, m, a) + month_share(e, y, m, a),
    decreases s.len(),
{
    let t = s.insert(p, e);
    if p == s.len() {
        assert(t.drop_last() =~= s);
    } else {
        assert(t.drop_last() =~= s.drop_last().insert(p, e));
        lemma_month_total_insert(s.drop_last(), p, e, y, m, a);
    }
}

proof fn lemma_upsert_keys(s: Seq<EntryView>, e: EntryView, f: EntryView)
    ensures
        has_key(upsert(s, e), f) == (has_key(s, f) || e.same_key(f)),
{
    let t = upsert(s, e);
    if has_key(s, e) {
        let k = key_index(s, e);
        if has_key(s, f) {
            let i = choose|i: int| 0 <= i < s.len() && s[i].same_key(f);
            if i != k {
                assert(t[i].same_key(f));
            } else {
                assert(t[k].same_key(f));
            }
        }
        if e.same_key(f) {
            assert(t[k].same_key(f));
        }
        if has_key(t, f) {
            let i = choose|i: int| 0 <= i < t.len() && t[i].same_key(f);
            if i != k {
                assert(s[i].same_key(f));
            }
        }
    } else {
        let p = insert_point(s, e.date);
        lemma_insert_point_bounds(s, e.date);
        if has_key(s, f) {
            let i = choose|i: int| 0 <= i < s.len() && s[i].same_key(f);
            if i < p {
                assert(t[i].same_key(f));
            } else {
                assert(t[i + 1].same_key(f));
            }
        }
        if e.same_key(f) {
            assert(t[p].same_key(f));
        }
        if has_key(t, f) {
            let i = choose|i: int| 0 <= i < t.len() && t[i].same_key(f);
            if i < p {
                assert(s[i].same_key(f));
            } else if i > p {
                assert(s[i - 1].same_key(f));
            }
        }
    }
}

proof fn lemma_upsert_all_distinct(v: Seq<EntryView>, y: int, m: int, a: Option<Seq<char>>)
    requires
        forall|i: int, j: int| #![trigger v[i], v[j]] 0 <= i < j < v.len() ==> !v[i].same_key(v[j]),
    ensures
        month_total(upsert_all(Seq::empty(), v), y, m, a) == month_total(v, y, m, a),
        forall|f: EntryView|
            has_key(upsert_all(Seq::empty(), v), f) == exists|j: int|
                0 <= j < v.len() && (#[trigger] v[j]).same_key(f),
    decreases v.len(),
{
    if v.len() > 0 {
        let w = v.drop_last();
        let e = v.last();
        assert forall|i: int, j: int| #![trigger w[i], w[j]] 0 <= i < j < w.len() implies !w[i].same_key(
            w[j],
        ) by {
            assert(w[i] == v[i] && w[j] == v[j]);
        }
        lemma_upsert_all_distinct(w, y, m, a);
        let s = upsert_all(Seq::empty(), w);
        assert(!has_key(s, e)) by {
            if has_key(s, e) {
                let j = choose|j: int| 0 <= j < w.len() && (#[trigger] w[j]).same_key(e);
                assert(v[j].same_key(v[v.len() - 1]));
            }
        }
        lemma_insert_point_bounds(s, e.date);
        lemma_month_total_insert(s, insert_point(s, e.date), e, y, m, a);
        assert forall|f: EntryView|
            has_key(upsert_all(Seq::empty(), v), f) == exists|j: int|
                0 <= j < v.len() && (#[trigger] v[j]).same_key(f) by {
            lemma_upsert_keys(s, e, f);
            if exists|j: int| 0 <= j < w.len() && (#[trigger] w[j]).same_key(f) {
                let j = choose|j: int| 0 <= j < w.len() && (#[trigger] w[j]).same_key(f);
                assert(v[j].same_key(f));
            }
            if exists|j: int| 0 <= j < v.len() && (#[trigger] v[j]).same_key(f) {
                let j = choose|j: int| 0 <= j < v.len() && (#[trigger] v[j]).same_key(f);
                if j < w.len() {
                    assert(w[j].same_key(f));
                }
            }
        }
    }
}

/// A refresh replaces the cache with the entries of every fetched month.
/// Where those entries name distinct (day, project) pairs, the cache then
/// holds, for every month and filter, exactly the hours of the fetched
/// entries of that month.
pub proof fn law_refresh_totals(items: Seq<TimetEntry>, y: int, m: int, a: Option<Seq<char>>)
    requires
        forall|i: int, j: int|
            #![trigger items[i], items[j]]
            0 <= i < j < items.len() ==> !timet_view(items[i]).same_key(timet_view(items[j])),
    ensures
        month_total(upsert_all(Seq::empty(), timet_views(items)), y, m, a) == month_total(
            timet_views(items),
            y,
            m,
            a,
        ),
{
    let v = timet_views(items);
    assert forall|i: int, j: int| #![trigger v[i], v[j]] 0 <= i < j < v.len() implies !v[i].same_key(
        v[j],
    ) by {
        assert(v[i] == timet_view(items[i]) && v[j] == timet_view(items[j]));
    }
    lemma_upsert_all_distinct(v, y, m, a);
}

/// Writing hours `h` and then `h2` for project `p` on day `d` leaves exactly
/// one entry for that day and project, and it holds `h2`.
pub proof fn law_hours_upsert(s: Seq<EntryView>, p: Seq<char>, h: u32, h2: u32, d: Date)
    requires
        well_formed_entries(s),
    ensures
        ({
            let t = with_hours(with_hours(s, p, h, d), p, h2, d);
            exists|k: int|
                {
                    &&& 0 <= k < t.len()
                    &&& t[k].date == d
                    &&& t[k].project_id == p
                    &&& t[k].hours == h2
                    &&& forall|j: int|
                        0 <= j < t.len() && (#[trigger] t[j]).date == d && t[j].project_id == p
                            ==> j == k
                }
        }),
{
    let s1 = with_hours(s, p, h, d);
    let e1 = EntryView { date: d, hours: h, project_name: project_name_of(s, p), project_id: p };
    let e2 = EntryView { date: d, hours: h2, project_name: project_name_of(s1, p), project_id: p };
    lemma_upsert_well_formed(s, e1);
    lemma_upsert_keys(s, e1, e2);
    assert(has_key(s1, e2));
    let t = upsert(s1, e2);
    let k = key_index(s1, e2);
    assert(s1[k].same_key(e2));
    assert(t[k] == e2);
    assert forall|j: int|
        0 <= j < t.len() && (#[trigger] t[j]).date == d && t[j].project_id == p implies j == k by {
        if j != k {
            assert(s1[j].same_key(e2));
            if j < k {
                assert(!s1[j].same_key(s1[k]));
            } else {
                assert(!s1[k].same_key(s1[j]));
            }
        }
    }
    assert(t == with_hours(s1, p, h2, d));
    assert(0 <= k < t.len() && t[k].date == d && t[k].project_id == p && t[k].hours == h2);
}

/// The hours of the entries of project `p` alone.
pub open spec fn entries_of_project(s: Seq<EntryView>, p: Seq<char>) -> Seq<EntryView> {
    s.filter(|e: EntryView| e.project_id == p)
}

/// With project `p` active, every month of the overview sums the entries of
/// `p` alone; with none active, it sums the entries of every project.
pub proof fn law_active_project_filter(
    entries: Seq<EntryView>,
    p: Seq<char>,
    y: int,
    with_p: Seq<Year>,
    without: Seq<Year>,
)
    requires
        is_yearly_overview(with_p, StoreView { entries, active: Some(p) }, y),
        is_yearly_overview(without, StoreView { entries, active: None }, y),
    ensures
        forall|i: int|
            0 <= i < 12 ==> (#[trigger] with_p[i]).hours == capped(
                month_total(entries_of_project(entries, p), y, i + 1, None),
            ),
        forall|i: int|
            0 <= i < 12 ==> (#[trigger] without[i]).hours == capped(
                month_total(entries, y, i + 1, None),
            ),
{
    assert forall|i: int| 0 <= i < 12 implies (#[trigger] with_p[i]).hours == capped(
        month_total(entries_of_project(entries, p), y, i + 1, None),
    ) by {
        lemma_project_total(entries, p, y, i + 1);
    }
}

proof fn lemma_project_total(s: Seq<EntryView>, p: Seq<char>, y: int, m: int)
    ensures
        month_total(s, y, m, Some(p)) == month_total(entries_of_project(s, p), y, m, None),
    decreases s.len(),
{
    reveal(Seq::filter);
    if s.len() > 0 {
        lemma_project_total(s.drop_last(), p, y, m);
        let f = entries_of_project(s.drop_last(), p);
        if s.last().project_id == p {
            assert(f.push(s.last()).drop_last() =~= f);
        }
    }
}

impl Store {
    pub open spec fn wf(&self) -> bool {
        well_formed_entries(self@.entries)
    }

    /// An empty cache with no active project.
    pub fn new() -> (r: Store)
        ensures
            r.wf(),
            r@.entries == Seq::<EntryView>::empty(),
            r@.active == None::<Seq<char>>,
    {
        let r = Store { entries: Vec::new(), active_project: None };
        assert(r@.entries =~= Seq::<EntryView>::empty());
        r
    }

    /// Position at which an entry for day `d` is inserted.
    fn insert_position(&self, d: Date) -> (r: usize)
        requires
            self.wf(),
        ensures
            r == insert_point(self@.entries, d),
    {
        let ghost s = self@.entries;
        let mut i: usize = self.entries.len();
        assert(s.subrange(0, i as int) =~= s);
        while i > 0 && !self.entries[i - 1].date.is_not_later_than(&d)
            invariant
                i <= self.entries.len(),
                s == self@.entries,
                insert_point(s, d) == insert_point(s.subrange(0, i as int), d),
            decreases i,
        {
            assert(s.subrange(0, i as int).drop_last() =~= s.subrange(0, i - 1));
            i = i - 1;
        }
        if i == 0 {
            assert(s.subrange(0, 0) =~= Seq::<EntryView>::empty());
        } else {
            assert(s.subrange(0, i as int).last() == s[i - 1]);
        }
        i
    }

    /// Insert-or-replace of one entry, keyed by day and project.
    fn upsert_entry(&mut self, e: Entry)
        requires
            old(self).wf(),
        ensures
            final(self).wf(),
            final(self)@.entries == upsert(old(self)@.entries, e@),
            final(self)@.active == old(self)@.active,
    {
        let ghost s = self@.entries;
        proof {
            lemma_upsert_well_formed(s, e@);
        }
        let mut i: usize = 0;
        while i < self.entries.len()
            invariant
                i <= self.entries.len(),
                s == self@.entries,
                s == old(self)@.entries,
                self.active_project == old(self).active_project,
                well_formed_entries(s),
                forall|j: int| 0 <= j < i ==> !(#[trigger] s[j]).same_key(e@),
            decreases self.entries.len() - i,
        {
            if self.entries[i].date == e.date && self.entries[i].project_id == e.project_id {
                assert(s[i as int].same_key(e@));
                assert(has_key(s, e@));
                let ghost k = key_index(s, e@);
                assert(k == i) by {
                    if k < i {
                        assert(!s[k].same_key(e@));
                    } else if k > i {
                        assert(!s[i as int].same_key(s[k]));
                    }
                }
                self.entries.set(i, e);
                assert(self@.entries =~= upsert(s, e@));
                return ;
            }
            i = i + 1;
        }
        assert(!has_key(s, e@));
        let p = self.insert_position(e.date);
        proof {
            lemma_insert_point(s, e.date);
            lemma_insert_point_bounds(s, e.date);
        }
        self.entries.insert(p, e);
        assert(self@.entries =~= upsert(s, e@));
    }

    /// `upsert_entry` of each row in turn.
    fn upsert_entries(&mut self, rows: Vec<Entry>)
        requires
            old(self).wf(),
        ensures
            final(self).wf(),
            final(self)@.entries == upsert_all(
                old(self)@.entries,
                rows@.map_values(|e: Entry| e@),
            ),
            final(self)@.active == old(self)@.active,
    {
        let ghost s0 = self@.entries;
        let ghost views = rows@.map_values(|e: Entry| e@);
        let mut i: usize = 0;
        while i < rows.len()
            invariant
                i <= rows.len(),
                views == rows@.map_values(|e: Entry| e@),
                self.wf(),
                self@.entries == upsert_all(s0, views.subrange(0, i as int)),
                self@.active == old(self)@.active,
            decreases rows.len() - i,
        {
            assert(views.subrange(0, i + 1).drop_last() =~= views.subrange(0, i as int));
            let e = rows[i].duplicate();
            self.upsert_entry(e);
            i = i + 1;
        }
        assert(views.subrange(0, rows.len() as int) =~= views);
    }

    /// Index of the first entry of the project.
    fn first_of_project(&self, project_id: &String) -> (r: Option<usize>)
        ensures
            match r {
                Some(k) => is_first_of_project(self@.entries, project_id@, k as int),
                None => !has_project(self@.entries, project_id@),
            },
    {
        let ghost s = self@.entries;
        let mut i: usize = 0;
        while i < self.entries.len()
            invariant
                i <= self.entries.len(),
                s == self@.entries,
                forall|j: int| 0 <= j < i ==> (#[trigger] s[j]).project_id != project_id@,
            decreases self.entries.len() - i,
        {
            if self.entries[i].project_id == *project_id {
                return Some(i);
            }
            i = i + 1;
        }
        None
    }

    /// Number of cached entries.
    pub fn entry_count(&self) -> (r: usize)
        ensures
            r == self@.entries.len(),
    {
        self.entries.len()
    }

    /// Removes every entry; returns how many there were. The active project
    /// stays.
    pub fn entry_truncate(&mut self) -> (r: usize)
        ensures
            final(self).wf(),
            r == old(self)@.entries.len(),
            final(self)@.entries == Seq::<EntryView>::empty(),
            final(self)@.active == old(self)@.active,
    {
        let n = self.entries.len();
        self.entries = Vec::new();
        assert(self@.entries =~= Seq::<EntryView>::empty());
        n
    }

    /// The active project, where one is set and an entry names it; its
    /// display name is that of its first entry.
    pub fn default_project(&self) -> (r: Option<Project>)
        ensures
            match self@.active {
                Some(p) => if has_project(self@.entries, p) {
                    r matches Some(q) && q@ == (p, project_name_of(self@.entries, p))
                } else {
                    r is None
                },
                None => r is None,
            },
    {
        match &self.active_project {
            Some(p) => match self.first_of_project(p) {
                Some(k) => {
                    proof {
                        lemma_first_of_project(self@.entries, p@, k as int);
                    }
                    Some(
                        Project {
                            project_id: p.clone(),
                            project_name: self.entries[k].project_name.clone(),
                        },
                    )
                },
                None => None,
            },
            None => None,
        }
    }

    /// Id of the active project, if one is set.
    pub fn active_project(&self) -> (r: Option<String>)
        ensures
            match r {
                Some(p) => self@.active == Some(p@),
                None => self@.active == None::<Seq<char>>,
            },
    {
        match &self.active_project {
            Some(p) => Some(p.clone()),
            None => None,
        }
    }

    /// Clears the active project.
    pub fn delete_active_project(&mut self)
        requires
            old(self).wf(),
        ensures
            final(self).wf(),
            final(self)@.entries == old(self)@.entries,
            final(self)@.active == None::<Seq<char>>,
    {
        self.active_project = None;
    }

    /// Sets the active project.
    pub fn insert_active_project(&mut self, project_id: &str)
        requires
            old(self).wf(),
        ensures
            final(self).wf(),
            final(self)@.entries == old(self)@.entries,
            final(self)@.active == Some(project_id@),
    {
        self.active_project = Some(project_id.to_owned());
    }

    /// Insert-or-replace of every item, in order. Where an item names a day
    /// that does not exist, nothing is written and the error names the first
    /// such item.
    pub fn insert(&mut self, items: Vec<TimetEntry>) -> (r: Result<(), StoreError>)
        requires
            old(self).wf(),
        ensures
            final(self).wf(),
            final(self)@.active == old(self)@.active,
            match r {
                Ok(()) => import_error(items@) == None::<StoreError> && final(self)@.entries
                    == upsert_all(old(self)@.entries, timet_views(items@)),
                Err(e) => import_error(items@) == Some(e) && final(self)@ == old(self)@,
            },
    {
        let rows = Store::convert_items(&items)?;
        self.upsert_entries(rows);
        Ok(())
    }

    /// Replaces the whole entry set with the items, as one step: on an error
    /// nothing changes.
    pub fn replace_all(&mut self, items: Vec<TimetEntry>) -> (r: Result<(), StoreError>)
        requires
            old(self).wf(),
        ensures
            final(self).wf(),
            final(self)@.active == old(self)@.active,
            match r {
                Ok(()) => import_error(items@) == None::<StoreError> && final(self)@.entries
                    == upsert_all(Seq::empty(), timet_views(items@)),
                Err(e) => import_error(items@) == Some(e) && final(self)@ == old(self)@,
            },
    {
        let rows = Store::convert_items(&items)?;
        self.entry_truncate();
        self.upsert_entries(rows);
        Ok(())
    }

    /// Display name of the project, from its first entry.
    pub fn get_project_name(&self, project_id: &str) -> (r: Result<String, StoreError>)
        ensures
            match r {
                Ok(n) => has_project(self@.entries, project_id@) && n@ == project_name_of(
                    self@.entries,
                    project_id@,
                ),
                Err(e) => !has_project(self@.entries, project_id@) && e.is_unknown_project(project_id@),
            },
    {
        let pid = project_id.to_owned();
        match self.first_of_project(&pid) {
            Some(k) => {
                proof {
                    lemma_first_of_project(self@.entries, pid@, k as int);
                }
                Ok(self.entries[k].project_name.clone())
            },
            None => Err(StoreError::UnknownProject { project_id: pid }),
        }
    }

    /// Writes `hours` for the project on the day, replacing what that day
    /// held for it. The project must already have an entry, which gives its
    /// display name.
    pub fn insert_hours(&mut self, project_id: &str, hours: u32, date: Date) -> (r: Result<
        (),
        StoreError,
    >)
        requires
            old(self).wf(),
        ensures
            final(self).wf(),
            final(self)@.active == old(self)@.active,
            match r {
                Ok(()) => has_project(old(self)@.entries, project_id@) && final(self)@.entries
                    == with_hours(old(self)@.entries, project_id@, hours, date),
                Err(e) => !has_project(old(self)@.entries, project_id@) && final(self)@ == old(self)@ && e.is_unknown_project(project_id@),
            },
    {
        let project_name = self.get_project_name(project_id)?;
        let e = Entry { date, hours, project_name, project_id: project_id.to_owned() };
        self.upsert_entry(e);
        Ok(())
    }

    /// Hours of month `month` of `year` under the active-project filter,
    /// capped at `u64::MAX`.
    fn month_hours(&self, year: i32, month: u32) -> (r: u64)
        ensures
            r == capped(month_total(self@.entries, year as int, month as int, self@.active)),
    {
        let ghost s = self@.entries;
        let mut total: u64 = 0;
        let mut i: usize = 0;
        while i < self.entries.len()
            invariant
                i <= self.entries.len(),
                s == self@.entries,
                total == capped(
                    month_total(s.subrange(0, i as int), year as int, month as int, self@.active),
                ),
            decreases self.entries.len() - i,
        {
            let ghost before = month_total(
                s.subrange(0, i as int),
                year as int,
                month as int,
                self@.active,
            );
            proof {
                lemma_month_total_nonneg(s.subrange(0, i as int), year as int, month as int, self@.active);
            }
            assert(s.subrange(0, i + 1).drop_last() =~= s.subrange(0, i as int));
            let e = &self.entries[i];
            let shown = match &self.active_project {
                Some(p) => e.project_id == *p,
                None => true,
            };
            if e.date.year == year && e.date.month == month && shown {
                let h = e.hours as u64;
                if total > u64::MAX - h {
                    total = u64::MAX;
                } else {
                    total = total + h;
                }
            }
            i = i + 1;
        }
        assert(s.subrange(0, i as int) =~= s);
        total
    }

    /// One row per month of `year`, January first, each summing the hours of
    /// that month under the active-project filter (capped at `u64::MAX`).
    pub fn get_yearly_overview(&self, year: i32) -> (r: Vec<Year>)
        ensures
            is_yearly_overview(r@, self@, year as int),
    {
        let mut rows: Vec<Year> = Vec::new();
        let mut m: u32 = 1;
        while m <= 12
            invariant
                1 <= m <= 13,
                rows@.len() == m - 1,
                forall|i: int|
                    0 <= i < m - 1 ==> {
                        &&& (#[trigger] rows@[i]).month == i + 1
                        &&& rows@[i].month_name@ == month_name_text(i + 1)
                        &&& rows@[i].hours == capped(
                            month_total(self@.entries, year as int, i + 1, self@.active),
                        )
                    },
            decreases 13 - m,
        {
            let hours = self.month_hours(year, m);
            rows.push(Year { hours, month: m, month_name: month_name(m) });
            m = m + 1;
        }
        rows
    }

    /// The non-zero entries of month `month` of `year` under the
    /// active-project filter, in calendar order; an error where the year has
    /// no such month.
    pub fn get_month_overview(&self, month: u32, year: i32) -> (r: Result<Vec<Month>, StoreError>)
        ensures
            match r {
                Ok(rows) => (Date { year, month, day: 1 }).is_valid() && rows@.map_values(
                    |x: Month| x@,
                ) == detail_rows(self@.entries, year as int, month as int, self@.active),
                Err(e) => !(Date { year, month, day: 1 }).is_valid() && e
                    == StoreError::InvalidMonth { year, month },
            },
    {
        if date_from_ymd(year, month, 1).is_none() {
            return Err(StoreError::InvalidMonth { year, month });
        }
        let ghost s = self@.entries;
        let mut rows: Vec<Month> = Vec::new();
        let mut i: usize = 0;
        while i < self.entries.len()
            invariant
                i <= self.entries.len(),
                s == self@.entries,
                rows@.map_values(|x: Month| x@) == detail_rows(
                    s.subrange(0, i as int),
                    year as int,
                    month as int,
                    self@.active,
                ),
            decreases self.entries.len() - i,
        {
            assert(s.subrange(0, i + 1).drop_last() =~= s.subrange(0, i as int));
            let e = &self.entries[i];
            let shown = match &self.active_project {
                Some(p) => e.project_id == *p,
                None => true,
            };
            if e.date.year == year && e.date.month == month && shown && e.hours != 0 {
                let row = Month { date: e.date, project_name: e.project_name.clone(), hours: e.hours };
                let ghost prev = rows@.map_values(|x: Month| x@);
                rows.push(row);
                assert(rows@.map_values(|x: Month| x@) =~= prev.push(row@));
            }
            i = i + 1;
        }
        assert(s.subrange(0, i as int) =~= s);
        Ok(rows)
    }

    /// Every entry in calendar order, numbered from one.
    pub fn get_days(&self) -> (r: Vec<DayEntry>)
        ensures
            r@.len() == self@.entries.len(),
            forall|i: int|
                0 <= i < r@.len() ==> {
                    &&& (#[trigger] r@[i]).id == i + 1
                    &&& r@[i].date == self@.entries[i].date
                    &&& r@[i].hours == self@.entries[i].hours
                    &&& r@[i].project_name@ == self@.entries[i].project_name
                    &&& r@[i].project_id@ == self@.entries[i].project_id
                },
    {
        let mut days: Vec<DayEntry> = Vec::new();
        let mut i: usize = 0;
        while i < self.entries.len()
            invariant
                i <= self.entries.len(),
                days@.len() == i,
                forall|j: int|
                    0 <= j < i ==> {
                        &&& (#[trigger] days@[j]).id == j + 1
                        &&& days@[j].date == self@.entries[j].date
                        &&& days@[j].hours == self@.entries[j].hours
                        &&& days@[j].project_name@ == self@.entries[j].project_name
                        &&& days@[j].project_id@ == self@.entries[j].project_id
                    },
            decreases self.entries.len() - i,
        {
            let e = &self.entries[i];
            days.push(
                DayEntry {
                    id: i as u64 + 1,
                    date: e.date,
                    hours: e.hours,
                    project_name: e.project_name.clone(),
                    project_id: e.project_id.clone(),
                },
            );
            i = i + 1;
        }
        days
    }

    /// The projects of the entries.
    pub open spec fn projects_spec(&self) -> Seq<(Seq<char>, Seq<char>)> {
        project_list(self@.entries)
    }

    /// The distinct projects (id and display name) of the entries with
    /// non-zero hours, each once, ordered by display name.
    pub fn projects(&self) -> (r: Vec<Project>)
        ensures
            r@.len() == self.projects_spec().len(),
            forall|i: int| 0 <= i < r@.len() ==> (#[trigger] r@[i])@ == self.projects_spec()[i],
    {
        let ghost s = self@.entries;
        let mut out: Vec<Project> = Vec::new();
        let mut k: usize = 0;
        while k < self.entries.len()
            invariant
                k <= self.entries.len(),
                s == self@.entries,
                out@.map_values(|p: Project| p@) == project_list(s.subrange(0, k as int)),
            decreases self.entries.len() - k,
        {
            assert(s.subrange(0, k + 1).drop_last() =~= s.subrange(0, k as int));
            let ghost acc = out@.map_values(|p: Project| p@);
            let e = &self.entries[k];
            if e.hours != 0 {
                let found = contains_project(&out, &e.project_id, &e.project_name);
                if found {
                    let ghost i = choose|i: int|
                        0 <= i < out@.len() && (#[trigger] out@[i])@ == (
                        e.project_id@,
                        e.project_name@,
                    );
                    assert(acc[i] == pair_of(s[k as int]));
                } else {
                    assert forall|i: int| 0 <= i < acc.len() implies acc[i] != pair_of(
                        s[k as int],
                    ) by {
                        assert(out@[i]@ != (e.project_id@, e.project_name@));
                    }
                    let at = project_position(&out, &e.project_name);
                    out.insert(
                        at,
                        Project {
                            project_id: e.project_id.clone(),
                            project_name: e.project_name.clone(),
                        },
                    );
                    assert(out@.map_values(|p: Project| p@) =~= acc.insert(
                        at as int,
                        pair_of(s[k as int]),
                    ));
                }
            }
            k = k + 1;
        }
        assert(s.subrange(0, k as int) =~= s);
        out
    }

    /// The cached entries for the items of the remote service, or the error
    /// for the first item whose day does not exist.
    fn convert_items(items: &Vec<TimetEntry>) -> (r: Result<Vec<Entry>, StoreError>)
        ensures
            match r {
                Ok(rows) => import_error(items@) == None::<StoreError> && rows@.map_values(
                    |e: Entry| e@,
                ) == timet_views(items@),
                Err(e) => import_error(items@) == Some(e),
            },
    {
        let mut rows: Vec<Entry> = Vec::new();
        let mut i: usize = 0;
        while i < items.len()
            invariant
                i <= items.len(),
                rows@.len() == i,
                forall|j: int| 0 <= j < i ==> timet_date_ok(#[trigger] items@[j]),
                forall|j: int| 0 <= j < i ==> (#[trigger] rows@[j])@ == timet_view(items@[j]),
            decreases items.len() - i,
        {
            let t = &items[i];
            match date_from_ordinal(t.year, t.day_of_year) {
                Some(date) => {
                    rows.push(
                        Entry {
                            date,
                            hours: t.hours,
                            project_name: t.project_name.clone(),
                            project_id: t.project_id.clone(),
                        },
                    );
                },
                None => {
                    let ghost k = choose|k: int|
                        0 <= k < items@.len() && !timet_date_ok(#[trigger] items@[k]) && forall|
                            j: int,
                        | 0 <= j < k ==> timet_date_ok(#[trigger] items@[j]);
                    assert(!timet_date_ok(items@[i as int]));
                    assert(k == i) by {
                        if k < i {
                            assert(timet_date_ok(items@[k]));
                        } else if k > i {
                            assert(timet_date_ok(items@[i as int]));
                        }
                    }
                    return Err(StoreError::InvalidDate { year: t.year, day_of_year: t.day_of_year });
                },
            }
            i = i + 1;
        }
        assert(rows@.map_values(|e: Entry| e@) =~= timet_views(items@));
        Ok(rows)
    }
}

} // verus!
