use vstd::prelude::*;

use crate::calendar::{
    day_ymd_text, format_date, parse_date, weekday, weekday_of, ymd_text_day, Weekday, MAX_DAY,
    MIN_DAY,
};
use crate::roster::Person;

verus! {

/// A holiday: its title and its day.
#[derive(Debug)]
pub struct HebDate {
    pub title: String,
    pub date: i32,
}

impl Clone for HebDate {
    fn clone(&self) -> (r: Self)
        ensures
            r == *self,
    {
        HebDate { title: self.title.clone(), date: self.date }
    }
}

/// A holiday as it is stored: its title and its day written `YYYY-MM-DD`.
#[derive(Debug)]
pub struct HebDateRaw {
    pub title: String,
    pub date: String,
}

impl HebDate {
    /// The holiday that `raw` writes; `None` where its day is no
    /// `YYYY-MM-DD` date.
    pub fn from(raw: &HebDateRaw) -> (r: Option<HebDate>)
        ensures
            r is Some == (ymd_text_day(raw.date@) is Some),
            r is Some ==> r.unwrap().title == raw.title && ymd_text_day(raw.date@) == Some(
                r.unwrap().date as int,
            ),
    {
        match parse_date(raw.date.as_str()) {
            Some(d) => Some(HebDate { title: raw.title.clone(), date: d }),
            None => None,
        }
    }
}

impl HebDateRaw {
    /// How `heb_date` is stored.
    pub fn from(heb_date: &HebDate) -> (r: HebDateRaw)
        requires
            MIN_DAY <= heb_date.date <= MAX_DAY,
        ensures
            r.title == heb_date.title,
            r.date@ == day_ymd_text(heb_date.date as int),
    {
        HebDateRaw { title: heb_date.title.clone(), date: format_date(heb_date.date) }
    }
}

/// The holidays that `items` write, in order; `Err(k)` where item `k` is the
/// first whose day is no `YYYY-MM-DD` date.
pub fn hebdates_from_items(items: &Vec<HebDateRaw>) -> (r: Result<Vec<HebDate>, usize>)
    ensures
        r matches Err(k) ==> {
            &&& k < items@.len()
            &&& ymd_text_day(items@[k as int].date@) is None
            &&& forall|j: int| 0 <= j < k ==> ymd_text_day(#[trigger] items@[j].date@) is Some
        },
        r is Ok == (forall|j: int| 0 <= j < items@.len() ==> ymd_text_day(#[trigger] items@[j].date@) is Some),
        r matches Ok(v) ==> {
            &&& v@.len() == items@.len()
            &&& forall|j: int|
                0 <= j < v@.len() ==> (#[trigger] v@[j]).title == items@[j].title && ymd_text_day(
                    items@[j].date@,
                ) == Some(v@[j].date as int)
        },
{
    let mut out: Vec<HebDate> = Vec::new();
    let mut i: usize = 0;
    while i < items.len()
        invariant
            i <= items@.len(),
            out@.len() == i,
            forall|j: int| 0 <= j < i ==> ymd_text_day(#[trigger] items@[j].date@) is Some,
            forall|j: int|
                0 <= j < i ==> (#[trigger] out@[j]).title == items@[j].title && ymd_text_day(
                    items@[j].date@,
                ) == Some(out@[j].date as int),
        decreases items@.len() - i,
    {
        match HebDate::from(&items[i]) {
            Some(h) => out.push(h),
            None => {
                return Err(i);
            },
        }
        i = i + 1;
    }
    Ok(out)
}

/// One day of a generated roster and the person on duty then.
#[derive(Debug)]
pub struct Row {
    pub person: Person,
    pub date: i32,
}

/// A day that a generated roster uses: not a Thursday, Friday or Saturday.
pub open spec fn workday(d: int) -> bool {
    let w = weekday_of(d);
    w != Weekday::Thu && w != Weekday::Fri && w != Weekday::Sat
}

/// The first `n` workdays from day `d` on, up to the last day that can be
/// represented.
pub open spec fn workdays_from(d: int, n: nat) -> Seq<i32>
    decreases MAX_DAY + 1 - d, n,
{
    if n == 0 || d > MAX_DAY {
        Seq::empty()
    } else if workday(d) {
        seq![d as i32] + workdays_from(d + 1, (n - 1) as nat)
    } else {
        workdays_from(d + 1, n)
    }
}

/// The first `time_period` workdays from `start_date` on.
pub fn get_dates_list(start_date: i32, time_period: usize) -> (r: Vec<i32>)
    requires
        MIN_DAY <= start_date,
    ensures
        r@ == workdays_from(start_date as int, time_period as nat),
{
    let mut r: Vec<i32> = Vec::new();
    if start_date > MAX_DAY {
        return r;
    }
    let mut d: i32 = start_date;
    loop
        invariant
            start_date <= d <= MAX_DAY,
            r@.len() <= time_period,
            r@ + workdays_from(d as int, (time_period - r@.len()) as nat) == workdays_from(
                start_date as int,
                time_period as nat,
            ),
        decreases MAX_DAY - d,
    {
        if r.len() == time_period {
            assert(r@ + workdays_from(d as int, 0) =~= r@);
            return r;
        }
        let ghost left = (time_period - r@.len()) as nat;
        let w = weekday(d);
        if w != Weekday::Thu && w != Weekday::Fri && w != Weekday::Sat {
            r.push(d);
            assert(workdays_from(d as int, left) == seq![d] + workdays_from(
                d + 1,
                (left - 1) as nat,
            ));
            assert(r@ + workdays_from(d + 1, (left - 1) as nat) =~= r@.drop_last() + workdays_from(
                d as int,
                left,
            ));
        }
        if d == MAX_DAY {
            assert(workdays_from(d + 1, (time_period - r@.len()) as nat) == Seq::<i32>::empty());
            assert(r@ + Seq::<i32>::empty() =~= r@);
            return r;
        }
        d = d + 1;
    }
}

/// The days of `hs`.
pub open spec fn holiday_days(hs: Seq<HebDate>) -> Seq<i32> {
    hs.map_values(|h: HebDate| h.date)
}

/// `s` without the days of `hs`, in order.
pub open spec fn without(s: Seq<i32>, hs: Seq<i32>) -> Seq<i32>
    decreases s.len(),
{
    if s.len() == 0 {
        s
    } else if hs.contains(s.last()) {
        without(s.drop_last(), hs)
    } else {
        without(s.drop_last(), hs).push(s.last())
    }
}

/// The days of a generated roster: the first `n` workdays from day `start`
/// on, without the days of `holidays`.
pub open spec fn roster_days(start: int, n: nat, holidays: Seq<HebDate>) -> Seq<i32> {
    without(workdays_from(start, n), holiday_days(holidays))
}

/// Whether `d` is the day of one of `holidays`.
fn is_holiday(holidays: &Vec<HebDate>, d: i32) -> (b: bool)
    ensures
        b == holiday_days(holidays@).contains(d),
{
    let ghost days = holiday_days(holidays@);
    let mut i: usize = 0;
    while i < holidays.len()
        invariant
            i <= holidays@.len(),
            days == holiday_days(holidays@),
            forall|k: int| 0 <= k < i ==> days[k] != d,
        decreases holidays@.len() - i,
    {
        if holidays[i].date == d {
            assert(days[i as int] == d);
            return true;
        }
        i = i + 1;
    }
    assert(!days.contains(d));
    false
}

/// A roster of `time_period` workdays from `start_date` on, the holidays left
/// out, with `people` on duty in turn: the `k`-th day goes to
/// `people[k % people.len()]`.
pub fn get_dates(
    people: &Vec<Person>,
    holidays: &Vec<HebDate>,
    start_date: i32,
    time_period: usize,
) -> (r: Vec<Row>)
    requires
        MIN_DAY <= start_date,
        people@.len() > 0,
    ensures
        r@.len() == roster_days(start_date as int, time_period as nat, holidays@).len(),
        forall|k: int|
            0 <= k < r@.len() ==> (#[trigger] r@[k]).date == roster_days(
                start_date as int,
                time_period as nat,
                holidays@,
            )[k] && r@[k].person == people@[k % people@.len() as int],
{
    let mut rows: Vec<Row> = Vec::new();
    let dates = get_dates_list(start_date, time_period);
    let ghost days = holiday_days(holidays@);
    let mut i: usize = 0;
    let mut turn: usize = 0;
    while i < dates.len()
        invariant
            people@.len() > 0,
            i <= dates@.len(),
            days == holiday_days(holidays@),
            turn < people@.len(),
            rows@.len() == without(dates@.subrange(0, i as int), days).len(),
            turn as int == (rows@.len() as int) % (people@.len() as int),
            forall|k: int|
                0 <= k < rows@.len() ==> (#[trigger] rows@[k]).date == without(
                    dates@.subrange(0, i as int),
                    days,
                )[k] && rows@[k].person == people@[k % people@.len() as int],
        decreases dates@.len() - i,
    {
        let d = dates[i];
        let ghost prev = without(dates@.subrange(0, i as int), days);
        assert(dates@.subrange(0, i + 1).drop_last() =~= dates@.subrange(0, i as int));
        assert(dates@.subrange(0, i + 1).last() == d);
        if !is_holiday(holidays, d) {
            let ghost n = rows@.len();
            rows.push(Row { person: people[turn].clone(), date: d });
            proof {
                let l = people@.len() as int;
                vstd::arithmetic::div_mod::lemma_fundamental_div_mod(n as int, l);
                let q = n as int / l;
                if turn + 1 < l {
                    assert(n + 1 == l * q + (turn + 1));
                    vstd::arithmetic::div_mod::lemma_mod_multiples_vanish(q, turn + 1, l);
                    vstd::arithmetic::div_mod::lemma_small_mod((turn + 1) as nat, l as nat);
                } else {
                    assert(n + 1 == l * (q + 1) + 0) by (nonlinear_arith)
                        requires
                            n == l * q + turn,
                            turn + 1 == l,
                    ;
                    vstd::arithmetic::div_mod::lemma_mod_multiples_vanish(q + 1, 0, l);
                }
            }
            turn = if turn == people.len() - 1 {
                0
            } else {
                turn + 1
            };
        }
        i = i + 1;
    }
    assert(dates@.subrange(0, dates@.len() as int) =~= dates@);
    rows
}

/// `a` comes before `b` in the order of `String`: the first character where
/// they differ decides, and a proper prefix comes first.
pub open spec fn text_lt(a: Seq<char>, b: Seq<char>) -> bool
    decreases a.len(),
{
    if b.len() == 0 {
        false
    } else if a.len() == 0 {
        true
    } else if a[0] != b[0] {
        (a[0] as u32) < (b[0] as u32)
    } else {
        text_lt(a.drop_first(), b.drop_first())
    }
}

proof fn lemma_text_lt_transitive(a: Seq<char>, b: Seq<char>, c: Seq<char>)
    requires
        text_lt(a, b),
        text_lt(b, c),
    ensures
        text_lt(a, c),
    decreases a.len(),
{
    if a.len() > 0 && a[0] == b[0] && b[0] == c[0] {
        lemma_text_lt_transitive(a.drop_first(), b.drop_first(), c.drop_first());
    }
}

proof fn lemma_text_lt_irreflexive(a: Seq<char>)
    ensures
        !text_lt(a, a),
    decreases a.len(),
{
    if a.len() > 0 {
        lemma_text_lt_irreflexive(a.drop_first());
    }
}

/// Whether `a` comes before `b` in the order of `String`.
pub fn name_lt(a: &String, b: &String) -> (r: bool)
    ensures
        r == text_lt(a@, b@),
{
    let n = a.as_str().unicode_len();
    let m = b.as_str().unicode_len();
    let mut i: usize = 0;
    assert(a@.skip(0) =~= a@);
    assert(b@.skip(0) =~= b@);
    while i < n && i < m
        invariant
            n == a@.len(),
            m == b@.len(),
            i <= n,
            i <= m,
            text_lt(a@, b@) == text_lt(a@.skip(i as int), b@.skip(i as int)),
        decreases n - i,
    {
        let x = a.as_str().get_char(i);
        let y = b.as_str().get_char(i);
        assert(a@.skip(i as int)[0] == x);
        assert(b@.skip(i as int)[0] == y);
        if x != y {
            return (x as u32) < (y as u32);
        }
        assert(a@.skip(i as int).drop_first() =~= a@.skip(i + 1));
        assert(b@.skip(i as int).drop_first() =~= b@.skip(i + 1));
        i = i + 1;
    }
    i < m
}

/// No name of `s` comes before an earlier one.
pub open spec fn sorted_by_name(s: Seq<Person>) -> bool {
    forall|i: int, j: int| 0 <= i < j < s.len() ==> !text_lt(s[j].name@, s[i].name@)
}

/// `people` ordered by name; people of one name keep their order.
pub fn sort_by_name(people: &Vec<Person>) -> (r: Vec<Person>)
    ensures
        sorted_by_name(r@),
        r@.to_multiset() == people@.to_multiset(),
{
    let mut out: Vec<Person> = Vec::new();
    let mut i: usize = 0;
    assert(people@.subrange(0, 0) =~= Seq::<Person>::empty());
    while i < people.len()
        invariant
            i <= people@.len(),
            sorted_by_name(out@),
            out@.to_multiset() == people@.subrange(0, i as int).to_multiset(),
        decreases people@.len() - i,
    {
        let x = people[i].clone();
        let mut pos: usize = 0;
        while pos < out.len() && !name_lt(&x.name, &out[pos].name)
            invariant
                pos <= out@.len(),
                forall|k: int| 0 <= k < pos ==> !text_lt(x.name@, #[trigger] out@[k].name@),
            decreases out@.len() - pos,
        {
            pos = pos + 1;
        }
        let ghost before = out@;
        assert(pos < before.len() ==> text_lt(x.name@, before[pos as int].name@));
        out.insert(pos, x);
        proof {
            assert(out@ == before.insert(pos as int, x));
            assert forall|a: int, b: int| 0 <= a < b < out@.len() implies !text_lt(
                out@[b].name@,
                out@[a].name@,
            ) by {
                if b < pos {
                    assert(out@[a] == before[a] && out@[b] == before[b]);
                } else if b == pos {
                    assert(out@[a] == before[a] && out@[b] == x);
                } else if a < pos {
                    assert(out@[a] == before[a] && out@[b] == before[b - 1]);
                } else if a == pos {
                    assert(out@[a] == x && out@[b] == before[b - 1]);
                    if text_lt(before[b - 1].name@, x.name@) {
                        lemma_text_lt_transitive(
                            before[b - 1].name@,
                            x.name@,
                            before[pos as int].name@,
                        );
                        if b - 1 == pos {
                            lemma_text_lt_irreflexive(before[pos as int].name@);
                        }
                    }
                } else {
                    assert(out@[a] == before[a - 1] && out@[b] == before[b - 1]);
                }
            }
            assert(x == people@[i as int]);
            assert(people@.subrange(0, i + 1) =~= people@.subrange(0, i as int).push(x));
            vstd::seq_lib::to_multiset_insert(before, pos as int, x);
            vstd::seq_lib::to_multiset_build(people@.subrange(0, i as int), x);
        }
        i = i + 1;
    }
    assert(people@.subrange(0, people@.len() as int) =~= people@);
    out
}

/// Whether `needle` occurs in `hay`.
pub open spec fn has_substring(hay: Seq<char>, needle: Seq<char>) -> bool {
    exists|i: int|
        0 <= i && i + needle.len() <= hay.len() && #[trigger] hay.subrange(i, i + needle.len())
            == needle
}

/// Whether `needle` occurs in `hay`.
pub fn contains_text(hay: &str, needle: &str) -> (b: bool)
    ensures
        b == has_substring(hay@, needle@),
{
    let n = hay.unicode_len();
    let m = needle.unicode_len();
    if m > n {
        assert forall|i: int| 0 <= i && i + m <= n implies #[trigger] hay@.subrange(i, i + m)
            != needle@ by {}
        return false;
    }
    let mut i: usize = 0;
    while i <= n - m
        invariant
            n == hay@.len(),
            m == needle@.len(),
            m <= n,
            i <= n - m + 1,
            forall|j: int| 0 <= j < i ==> #[trigger] hay@.subrange(j, j + m) != needle@,
        decreases n - m + 1 - i,
    {
        let mut k: usize = 0;
        let mut same = true;
        while k < m && same
            invariant
                n == hay@.len(),
                m == needle@.len(),
                i + m <= n,
                k <= m,
                same == (forall|q: int| 0 <= q < k ==> hay@[i + q] == needle@[q]),
            decreases m - k,
        {
            if hay.get_char(i + k) != needle.get_char(k) {
                same = false;
            }
            k = k + 1;
        }
        if same {
            assert(hay@.subrange(i as int, i + m) =~= needle@);
            return true;
        }
        assert(hay@.subrange(i as int, i + m) != needle@) by {
            let q = choose|q: int| 0 <= q < k && hay@[i + q] != needle@[q];
            assert(hay@.subrange(i as int, i + m)[q] == hay@[i + q]);
        }
        i = i + 1;
    }
    assert forall|j: int| 0 <= j && j + m <= n implies #[trigger] hay@.subrange(j, j + m)
        != needle@ by {}
    false
}

/// Whether `title` contains one of `names`.
pub open spec fn names_any(title: Seq<char>, names: Seq<String>) -> bool {
    exists|k: int| 0 <= k < names.len() && has_substring(title, #[trigger] names[k]@)
}

/// `ds` without the holidays whose title contains one of `names`, in order.
pub open spec fn kept(ds: Seq<HebDate>, names: Seq<String>) -> Seq<HebDate>
    decreases ds.len(),
{
    if ds.len() == 0 {
        ds
    } else if names_any(ds.last().title@, names) {
        kept(ds.drop_last(), names)
    } else {
        kept(ds.drop_last(), names).push(ds.last())
    }
}

/// Leaves out the holidays whose title contains one of `names`.
pub fn exclude_holidays(dates: Vec<HebDate>, names: &Vec<String>) -> (r: Vec<HebDate>)
    ensures
        r@ == kept(dates@, names@),
{
    let mut out: Vec<HebDate> = Vec::new();
    let mut i: usize = 0;
    while i < dates.len()
        invariant
            i <= dates@.len(),
            out@ == kept(dates@.subrange(0, i as int), names@),
        decreases dates@.len() - i,
    {
        let mut hit = false;
        let mut k: usize = 0;
        while k < names.len() && !hit
            invariant
                k <= names@.len(),
                i < dates@.len(),
                hit == (exists|q: int|
                    0 <= q < k && has_substring(dates@[i as int].title@, #[trigger] names@[q]@)),
            decreases names@.len() - k,
        {
            if contains_text(dates[i].title.as_str(), names[k].as_str()) {
                hit = true;
            }
            k = k + 1;
        }
        assert(dates@.subrange(0, i + 1).drop_last() =~= dates@.subrange(0, i as int));
        assert(dates@.subrange(0, i + 1).last() == dates@[i as int]);
        assert(hit == names_any(dates@[i as int].title@, names@));
        if !hit {
            out.push(dates[i].clone());
        }
        i = i + 1;
    }
    assert(dates@.subrange(0, dates@.len() as int) =~= dates@);
    out
}

} // verus!
