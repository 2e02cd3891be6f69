use vstd::prelude::*;

verus! {

/// The first day that chrono can represent (January 1, 262144 BCE, the year -262143).
pub const MIN_DAY: i32 = -95746129;

/// The last day that chrono can represent (December 31, 262142 CE).
pub const MAX_DAY: i32 = 95745399;

/// A day of the week.
#[derive(PartialEq, Eq, Structural, Clone, Copy, Debug)]
pub enum Weekday {
    Mon,
    Tue,
    Wed,
    Thu,
    Fri,
    Sat,
    Sun,
}

/// The weekday of a day number counted from the common era, where day 1
/// (0001-01-01 of the proleptic Gregorian calendar) is a Monday.
pub open spec fn weekday_of(day: int) -> Weekday {
    let r = (day - 1) % 7;
    if r == 0 {
        Weekday::Mon
    } else if r == 1 {
        Weekday::Tue
    } else if r == 2 {
        Weekday::Wed
    } else if r == 3 {
        Weekday::Thu
    } else if r == 4 {
        Weekday::Fri
    } else if r == 5 {
        Weekday::Sat
    } else {
        Weekday::Sun
    }
}

/// The weekday of `day`.
pub fn weekday(day: i32) -> (w: Weekday)
    ensures
        w == weekday_of(day as int),
{
    // shift by a multiple of seven so that the remainder is taken of a non-negative number
    let shifted: i64 = day as i64 - 1 + 7 * 400_000_000;
    let r: i64 = shifted % 7;
    proof {
        vstd::arithmetic::div_mod::lemma_mod_multiples_vanish(400_000_000, day as int - 1, 7);
    }
    if r == 0 {
        Weekday::Mon
    } else if r == 1 {
        Weekday::Tue
    } else if r == 2 {
        Weekday::Wed
    } else if r == 3 {
        Weekday::Thu
    } else if r == 4 {
        Weekday::Fri
    } else if r == 5 {
        Weekday::Sat
    } else {
        Weekday::Sun
    }
}

/// The day that `s` writes as `YYYY-MM-DD`, counted from the common era, or
/// `None` where `s` is no such date.
pub uninterp spec fn ymd_text_day(s: Seq<char>) -> Option<int>;

/// The time of day that `s` writes as `HH:MM:SS`, in seconds since midnight,
/// or `None` where `s` is no such time.
pub uninterp spec fn hms_text_seconds(s: Seq<char>) -> Option<int>;

/// How day `d` is written as `YYYY-MM-DD`.
pub uninterp spec fn day_ymd_text(d: int) -> Seq<char>;

/// Relies on chrono's `NaiveDate::parse_from_str` with the format `%Y-%m-%d`,
/// and on `Datelike::num_days_from_ce`, whose values lie between those of
/// `NaiveDate::MIN` and `NaiveDate::MAX`.
#[verifier::external_body]
fn ymd_day(s: &str) -> (r: Option<i32>)
    ensures
        r is Some ==> ymd_text_day(s@) == Some(r.unwrap() as int),
        r is Some ==> MIN_DAY <= r.unwrap() <= MAX_DAY,
        r is None ==> ymd_text_day(s@) is None,
{
    chrono::NaiveDate::parse_from_str(s, "%Y-%m-%d").ok().map(
        |d| chrono::Datelike::num_days_from_ce(&d),
    )
}

/// Relies on chrono's `NaiveTime::parse_from_str` with the format `%H:%M:%S`,
/// and on `Timelike::num_seconds_from_midnight`, which is below 86400.
#[verifier::external_body]
fn hms_seconds(s: &str) -> (r: Option<u32>)
    ensures
        r is Some ==> hms_text_seconds(s@) == Some(r.unwrap() as int),
        r is Some ==> r.unwrap() < 86400,
        r is None ==> hms_text_seconds(s@) is None,
{
    chrono::NaiveTime::parse_from_str(s, "%H:%M:%S").ok().map(
        |t| chrono::Timelike::num_seconds_from_midnight(&t),
    )
}

/// Relies on chrono's `NaiveDate::from_num_days_from_ce_opt`, which is `Some`
/// from `NaiveDate::MIN` to `NaiveDate::MAX`, and on its `format("%Y-%m-%d")`,
/// which `NaiveDate::parse_from_str` with the same format reads back.
#[verifier::external_body]
fn ymd_text(d: i32) -> (r: String)
    requires
        MIN_DAY <= d <= MAX_DAY,
    ensures
        r@ == day_ymd_text(d as int),
        ymd_text_day(r@) == Some(d as int),
{
    chrono::NaiveDate::from_num_days_from_ce_opt(d).unwrap().format("%Y-%m-%d").to_string()
}

/// The day that `s` writes as `YYYY-MM-DD`.
pub fn parse_date(s: &str) -> (r: Option<i32>)
    ensures
        r is Some ==> ymd_text_day(s@) == Some(r.unwrap() as int),
        r is Some ==> MIN_DAY <= r.unwrap() <= MAX_DAY,
        r is None ==> ymd_text_day(s@) is None,
{
    ymd_day(s)
}

/// The time of day that `s` writes as `HH:MM:SS`, in seconds since midnight.
pub fn parse_time(s: &str) -> (r: Option<u32>)
    ensures
        r is Some ==> hms_text_seconds(s@) == Some(r.unwrap() as int),
        r is Some ==> r.unwrap() < 86400,
        r is None ==> hms_text_seconds(s@) is None,
{
    hms_seconds(s)
}

/// Day `d` written as `YYYY-MM-DD`.
pub fn format_date(d: i32) -> (r: String)
    requires
        MIN_DAY <= d <= MAX_DAY,
    ensures
        r@ == day_ymd_text(d as int),
        ymd_text_day(r@) == Some(d as int),
{
    ymd_text(d)
}

/// The weekday that configuration number `i` stands for: 1 is Sunday, 7 is
/// Saturday.
pub open spec fn weekday_of_number(i: int) -> Weekday {
    if i == 1 {
        Weekday::Sun
    } else if i == 2 {
        Weekday::Mon
    } else if i == 3 {
        Weekday::Tue
    } else if i == 4 {
        Weekday::Wed
    } else if i == 5 {
        Weekday::Thu
    } else if i == 6 {
        Weekday::Fri
    } else {
        Weekday::Sat
    }
}

/// The weekday of configuration number `i`, from 1 (Sunday) to 7 (Saturday).
pub fn int_to_weekday(i: usize) -> (w: Weekday)
    requires
        1 <= i <= 7,
    ensures
        w == weekday_of_number(i as int),
{
    if i == 1 {
        Weekday::Sun
    } else if i == 2 {
        Weekday::Mon
    } else if i == 3 {
        Weekday::Tue
    } else if i == 4 {
        Weekday::Wed
    } else if i == 5 {
        Weekday::Thu
    } else if i == 6 {
        Weekday::Fri
    } else {
        Weekday::Sat
    }
}

/// The Sunday on or before day `d`.
pub open spec fn sunday_on_or_before(d: int) -> int {
    d - d % 7
}

/// The Sunday on or before day `today`.
pub fn last_sunday(today: i32) -> (r: i32)
    requires
        MIN_DAY <= today,
    ensures
        r == sunday_on_or_before(today as int),
        weekday_of(r as int) == Weekday::Sun,
        today - 7 < r <= today,
{
    let shifted: i64 = today as i64 + 7 * 400_000_000;
    let back: i64 = shifted % 7;
    proof {
        vstd::arithmetic::div_mod::lemma_mod_multiples_vanish(400_000_000, today as int, 7);
        let r = today as int - today as int % 7;
        vstd::arithmetic::div_mod::lemma_fundamental_div_mod(today as int, 7);
        assert(r == 7 * (today as int / 7));
        vstd::arithmetic::div_mod::lemma_mod_multiples_vanish(today as int / 7, -1, 7);
        assert((r - 1) % 7 == 6) by {
            assert(r - 1 == 7 * (today as int / 7) + (-1));
            assert((-1int) % 7 == 6);
        }
    }
    (today as i64 - back) as i32
}

/// Which days the rotation may use: not a weekend day, and not excluded
/// (a holiday).
pub struct EligibleDates {
    pub weekend: Vec<Weekday>,
    pub excluded: Vec<i32>,
}

impl EligibleDates {
    pub open spec fn eligible(&self, d: i32) -> bool {
        !self.weekend@.contains(weekday_of(d as int)) && !self.excluded@.contains(d)
    }

    /// Some day after `latest`, up to the last day that can be represented,
    /// is eligible.
    pub open spec fn has_eligible_after(&self, latest: i32) -> bool {
        exists|k: i32| latest < k <= MAX_DAY && #[trigger] self.eligible(k)
    }

    /// Whether `w` is a weekend day.
    pub fn is_weekend(&self, w: Weekday) -> (b: bool)
        ensures
            b == self.weekend@.contains(w),
    {
        let mut i: usize = 0;
        while i < self.weekend.len()
            invariant
                i <= self.weekend@.len(),
                forall|k: int| 0 <= k < i ==> self.weekend@[k] != w,
            decreases self.weekend@.len() - i,
        {
            if self.weekend[i] == w {
                return true;
            }
            i = i + 1;
        }
        false
    }

    /// Whether `d` is an excluded day.
    pub fn is_excluded(&self, d: i32) -> (b: bool)
        ensures
            b == self.excluded@.contains(d),
    {
        let mut i: usize = 0;
        while i < self.excluded.len()
            invariant
                i <= self.excluded@.len(),
                forall|k: int| 0 <= k < i ==> self.excluded@[k] != d,
            decreases self.excluded@.len() - i,
        {
            if self.excluded[i] == d {
                return true;
            }
            i = i + 1;
        }
        false
    }

    /// Whether the rotation may use day `d`.
    pub fn is_eligible(&self, d: i32) -> (b: bool)
        ensures
            b == self.eligible(d),
    {
        !self.is_weekend(weekday(d)) && !self.is_excluded(d)
    }

    /// The first eligible day after `latest`; `None` where no day up to the
    /// last one that can be represented is eligible.
    pub fn next_eligible_after(&self, latest: i32) -> (r: Option<i32>)
        ensures
            r.is_some() == self.has_eligible_after(latest),
            r.is_some() ==> {
                let n = r.unwrap();
                &&& latest < n <= MAX_DAY
                &&& self.eligible(n)
                &&& forall|k: i32| latest < k < n ==> !#[trigger] self.eligible(k)
            },
    {
        if latest >= MAX_DAY {
            return None;
        }
        // with every weekday a weekend day no day is eligible
        if self.is_weekend(Weekday::Mon) && self.is_weekend(Weekday::Tue) && self.is_weekend(
            Weekday::Wed,
        ) && self.is_weekend(Weekday::Thu) && self.is_weekend(Weekday::Fri) && self.is_weekend(
            Weekday::Sat,
        ) && self.is_weekend(Weekday::Sun) {
            assert forall|k: i32| latest < k <= MAX_DAY implies !#[trigger] self.eligible(k) by {
                assert(self.weekend@.contains(weekday_of(k as int)));
            }
            return None;
        }
        let mut d: i32 = latest + 1;
        loop
            invariant
                latest < d <= MAX_DAY,
                forall|k: i32| latest < k < d ==> !#[trigger] self.eligible(k),
            decreases MAX_DAY - d,
        {
            if self.is_eligible(d) {
                return Some(d);
            }
            if d == MAX_DAY {
                assert forall|k: i32| latest < k <= MAX_DAY implies !#[trigger] self.eligible(k) by {
                }
                return None;
            }
            d = d + 1;
        }
    }
}

} // verus!
