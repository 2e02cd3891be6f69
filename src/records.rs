use vstd::prelude::*;

use crate::calendar::{day_ymd_text, format_date, parse_date, weekday, ymd_text_day, Weekday};
use crate::roster::{Person, Roster};

verus! {

/// The person of the earlier form of the roster files.
pub type Soldier = Person;

/// One stored roster line: name, phone number, and day written `YYYY-MM-DD`.
#[derive(Debug)]
pub struct NamesTableRaw {
    pub name: String,
    pub number: String,
    pub date: String,
}

/// One line of the roster as people read it: weekday, day and name.
#[derive(Debug)]
pub struct BeautyNameTableRaw {
    pub day: String,
    pub date: String,
    pub name: String,
}

/// The person that a stored line names.
pub open spec fn person_of(row: NamesTableRaw) -> Person {
    Person { name: row.name, phone: row.number }
}

/// The short English name of a weekday.
pub open spec fn weekday_name_text(w: Weekday) -> Seq<char> {
    match w {
        Weekday::Mon => "Mon"@,
        Weekday::Tue => "Tue"@,
        Weekday::Wed => "Wed"@,
        Weekday::Thu => "Thu"@,
        Weekday::Fri => "Fri"@,
        Weekday::Sat => "Sat"@,
        Weekday::Sun => "Sun"@,
    }
}

/// The short English name of `w`.
pub fn weekday_name(w: Weekday) -> (r: String)
    ensures
        r@ == weekday_name_text(w),
{
    match w {
        Weekday::Mon => String::from_str("Mon"),
        Weekday::Tue => String::from_str("Tue"),
        Weekday::Wed => String::from_str("Wed"),
        Weekday::Thu => String::from_str("Thu"),
        Weekday::Fri => String::from_str("Fri"),
        Weekday::Sat => String::from_str("Sat"),
        Weekday::Sun => String::from_str("Sun"),
    }
}

/// `rows` are the lines that store `t`, in calendar order: line `k` holds the
/// `k`-th person and the `k`-th day, written so that it reads back.
pub open spec fn stores(t: &Roster, rows: Seq<NamesTableRaw>) -> bool {
    &&& rows.len() == t.days().len()
    &&& forall|k: int|
        0 <= k < rows.len() ==> {
            &&& (#[trigger] rows[k]).name == t.people()[k].name
            &&& rows[k].number == t.people()[k].phone
            &&& rows[k].date@ == day_ymd_text(t.days()[k] as int)
            &&& ymd_text_day(rows[k].date@) == Some(t.days()[k] as int)
        }
}

/// `t` is the roster that `rows` store; where two lines name one day the
/// later one counts.
pub open spec fn loaded(rows: Seq<NamesTableRaw>, t: &Roster) -> bool {
    &&& t.wf()
    &&& forall|d: i32|
        #[trigger] t.has(d) == exists|k: int|
            0 <= k < rows.len() && ymd_text_day(#[trigger] rows[k].date@) == Some(d as int)
    &&& forall|d: i32|
        #[trigger] t.has(d) ==> exists|k: int|
            last_line_of(rows, rows.len() as int, d, k) && t.at(d) == person_of(#[trigger] rows[k])
}

/// The lines that store `table`, in calendar order.
pub fn table_records(table: &Roster) -> (r: Vec<NamesTableRaw>)
    requires
        table.wf(),
    ensures
        stores(table, r@),
{
    let mut out: Vec<NamesTableRaw> = Vec::new();
    let mut i: usize = 0;
    while i < table.len()
        invariant
            table.wf(),
            i <= table.days().len(),
            out@.len() == i,
            forall|k: int|
                0 <= k < i ==> {
                    &&& (#[trigger] out@[k]).name == table.people()[k].name
                    &&& out@[k].number == table.people()[k].phone
                    &&& out@[k].date@ == day_ymd_text(table.days()[k] as int)
                    &&& ymd_text_day(out@[k].date@) == Some(table.days()[k] as int)
                },
        decreases table.days().len() - i,
    {
        let (d, p) = table.entry(i);
        out.push(
            NamesTableRaw { name: p.name.clone(), number: p.phone.clone(), date: format_date(d) },
        );
        i = i + 1;
    }
    out
}

/// The lines of `table` as people read them, in calendar order.
pub fn beautified_records(table: &Roster) -> (r: Vec<BeautyNameTableRaw>)
    requires
        table.wf(),
    ensures
        r@.len() == table.days().len(),
        forall|k: int|
            0 <= k < r@.len() ==> {
                &&& (#[trigger] r@[k]).name == table.people()[k].name
                &&& r@[k].day@ == weekday_name_text(
                    crate::calendar::weekday_of(table.days()[k] as int),
                )
                &&& r@[k].date@ == day_ymd_text(table.days()[k] as int)
            },
{
    let mut out: Vec<BeautyNameTableRaw> = Vec::new();
    let mut i: usize = 0;
    while i < table.len()
        invariant
            table.wf(),
            i <= table.days().len(),
            out@.len() == i,
            forall|k: int|
                0 <= k < i ==> {
                    &&& (#[trigger] out@[k]).name == table.people()[k].name
                    &&& out@[k].day@ == weekday_name_text(
                        crate::calendar::weekday_of(table.days()[k] as int),
                    )
                    &&& out@[k].date@ == day_ymd_text(table.days()[k] as int)
                },
        decreases table.days().len() - i,
    {
        let (d, p) = table.entry(i);
        out.push(
            BeautyNameTableRaw {
                day: weekday_name(weekday(d)),
                date: format_date(d),
                name: p.name.clone(),
            },
        );
        i = i + 1;
    }
    out
}

/// Line `k` of `rows` is the last one, among the first `n`, that names day `d`.
pub open spec fn last_line_of(rows: Seq<NamesTableRaw>, n: int, d: i32, k: int) -> bool {
    &&& 0 <= k < n
    &&& ymd_text_day(rows[k].date@) == Some(d as int)
    &&& forall|j: int| k < j < n ==> ymd_text_day(#[trigger] rows[j].date@) != Some(d as int)
}

/// The roster that `rows` store; where two lines name one day the later one
/// counts. `Err(k)` where line `k` is the first whose day is no date.
pub fn table_from_records(rows: &Vec<NamesTableRaw>) -> (r: Result<Roster, usize>)
    ensures
        r matches Err(k) ==> {
            &&& k < rows@.len()
            &&& ymd_text_day(rows@[k as int].date@) is None
            &&& forall|j: int| 0 <= j < k ==> ymd_text_day(#[trigger] rows@[j].date@) is Some
        },
        r is Ok == (forall|j: int| 0 <= j < rows@.len() ==> ymd_text_day(#[trigger] rows@[j].date@) is Some),
        r matches Ok(t) ==> loaded(rows@, &t),
{
    let mut t = Roster::new();
    let mut i: usize = 0;
    while i < rows.len()
        invariant
            i <= rows@.len(),
            t.wf(),
            forall|j: int| 0 <= j < i ==> ymd_text_day(#[trigger] rows@[j].date@) is Some,
            forall|d: i32|
                #[trigger] t.has(d) == exists|k: int|
                    0 <= k < i && ymd_text_day(#[trigger] rows@[k].date@) == Some(d as int),
            forall|d: i32|
                #[trigger] t.has(d) ==> exists|k: int|
                    last_line_of(rows@, i as int, d, k) && t.at(d) == person_of(
                        #[trigger] rows@[k],
                    ),
        decreases rows@.len() - i,
    {
        let row = &rows[i];
        let d = match parse_date(row.date.as_str()) {
            Some(d) => d,
            None => {
                return Err(i);
            },
        };
        let ghost pre = t;
        t.put(d, Person { name: row.name.clone(), phone: row.number.clone() });
        proof {
            let ni = i + 1;
            assert forall|e: i32| #[trigger] t.has(e) == exists|k: int|
                0 <= k < ni && ymd_text_day(#[trigger] rows@[k].date@) == Some(e as int) by {
                if e != d {
                    if exists|k: int| 0 <= k < ni && ymd_text_day(#[trigger] rows@[k].date@) == Some(e as int) {
                        let k = choose|k: int| 0 <= k < ni && ymd_text_day(#[trigger] rows@[k].date@) == Some(e as int);
                        assert(k < i);
                    }
                } else {
                    assert(ymd_text_day(rows@[i as int].date@) == Some(e as int));
                }
            }
            assert forall|e: i32| #[trigger] t.has(e) implies exists|k: int|
                last_line_of(rows@, ni as int, e, k) && t.at(e) == person_of(#[trigger] rows@[k]) by {
                if e == d {
                    assert(last_line_of(rows@, ni as int, e, i as int));
                    assert(t.at(e) == person_of(rows@[i as int]));
                } else {
                    let k = choose|k: int| last_line_of(rows@, i as int, e, k) && pre.at(e) == person_of(#[trigger] rows@[k]);
                    assert(last_line_of(rows@, ni as int, e, k));
                }
            }
        }
        i = i + 1;
    }
    Ok(t)
}

/// Loading the lines that store a roster gives back that roster: every line
/// reads, and the loaded roster has the same days with the same people.
pub proof fn lemma_load_after_store(t: &Roster, rows: Seq<NamesTableRaw>, back: &Roster)
    requires
        t.wf(),
        stores(t, rows),
    ensures
        forall|j: int| 0 <= j < rows.len() ==> ymd_text_day(#[trigger] rows[j].date@) is Some,
        loaded(rows, back) ==> forall|d: i32|
            #[trigger] back.has(d) == t.has(d) && (t.has(d) ==> back.at(d) == t.at(d)),
{
    assert forall|j: int| 0 <= j < rows.len() implies ymd_text_day(#[trigger] rows[j].date@) is Some by {
        assert(ymd_text_day(rows[j].date@) == Some(t.days()[j] as int));
    }
    if loaded(rows, back) {
        assert forall|d: i32| #[trigger] back.has(d) == t.has(d) && (t.has(d) ==> back.at(d) == t.at(d)) by {
            if t.has(d) {
                let k = t.pos(d);
                t.lemma_pos(k);
                assert(ymd_text_day(rows[k].date@) == Some(d as int));
                assert(back.has(d));
                let m = choose|m: int|
                    last_line_of(rows, rows.len() as int, d, m) && back.at(d) == person_of(#[trigger] rows[m]);
                assert(ymd_text_day(rows[m].date@) == Some(t.days()[m] as int));
                if m != k {
                    if m < k {
                        assert(t.days()[m] < t.days()[k]);
                    } else {
                        assert(t.days()[k] < t.days()[m]);
                    }
                }
                assert(person_of(rows[k]) == t.people()[k]);
            }
            if back.has(d) {
                let k = choose|k: int| 0 <= k < rows.len() && ymd_text_day(#[trigger] rows[k].date@) == Some(d as int);
                assert(ymd_text_day(rows[k].date@) == Some(t.days()[k] as int));
                assert(t.days()[k] == d);
                assert(t.has(d));
            }
        }
    }
}

} // verus!
