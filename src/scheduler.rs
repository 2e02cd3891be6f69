use vstd::prelude::*;

use crate::calendar::{
    last_sunday, sunday_on_or_before, weekday, weekday_of, EligibleDates, Weekday, MAX_DAY,
    MIN_DAY,
};
use crate::excerpt::{excerpt_of, print_around_date, ExcerptLine};
use crate::gate::{close_to, Gate, SendOutcome};
use crate::roster::{drop_name, DropType, Person, Roster, RosterError};

verus! {

/// The number of roster days shown on either side of an edited day.
pub const EXCERPT_RANGE: usize = 5;

/// What the owner of the roster is asked to do.
pub enum Request {
    /// Report the notification state and who is on duty today and tomorrow.
    Status,
    /// A tick of the clock: notify today's person when it is time.
    Refresh,
    /// Exchange the people of two days.
    Switch(i32, i32),
    /// Notify once more at the next tick.
    Resend,
    /// Take a day out of the roster.
    Drop(DropType, i32),
    /// List this many weeks from the current one on.
    Show(usize),
}

/// The notification state, and who is on duty today and tomorrow.
pub struct Status {
    pub sent_today: bool,
    pub status: String,
    pub todays_name: Option<Person>,
    pub tomorrows_name: Option<Person>,
}

/// One line of the week view: a day with an entry, or the end of a week.
#[derive(PartialEq, Eq, Structural, Clone, Copy, Debug)]
pub enum ShowLine {
    Day(i32),
    WeekEnd,
}

/// The days from `s` to `s + k - 1` that have an entry.
pub open spec fn week_lines(t: &Roster, s: int, k: nat) -> Seq<ShowLine>
    decreases k,
{
    if k == 0 {
        Seq::empty()
    } else {
        let p = week_lines(t, s, (k - 1) as nat);
        let d = s + k - 1;
        if t.has(d as i32) {
            p.push(ShowLine::Day(d as i32))
        } else {
            p
        }
    }
}

/// `w` weeks from day `s` on, each one closed by a `WeekEnd`.
pub open spec fn show_lines(t: &Roster, s: int, w: nat) -> Seq<ShowLine>
    decreases w,
{
    if w == 0 {
        Seq::empty()
    } else {
        show_lines(t, s, (w - 1) as nat) + week_lines(t, s + 7 * (w - 1), 7).push(
            ShowLine::WeekEnd,
        )
    }
}

/// The days with an entry in `num_of_weeks` weeks, the first one the week
/// (from Sunday) of `today`.
pub fn show(table: &Roster, today: i32, num_of_weeks: usize) -> (r: Vec<ShowLine>)
    requires
        table.wf(),
        MIN_DAY <= today,
        today + 7 * num_of_weeks <= MAX_DAY,
    ensures
        r@ == show_lines(table, sunday_on_or_before(today as int), num_of_weeks as nat),
{
    let start = last_sunday(today);
    let mut out: Vec<ShowLine> = Vec::new();
    let mut w: usize = 0;
    while w < num_of_weeks
        invariant
            table.wf(),
            w <= num_of_weeks,
            start == sunday_on_or_before(today as int),
            today - 7 < start <= today,
            today + 7 * num_of_weeks <= MAX_DAY,
            out@ == show_lines(table, start as int, w as nat),
        decreases num_of_weeks - w,
    {
        let first: i32 = (start as i64 + 7 * (w as i64)) as i32;
        let ghost before = out@;
        let mut k: i32 = 0;
        while k < 7
            invariant
                table.wf(),
                0 <= k <= 7,
                first as int == start + 7 * w,
                first + 7 <= MAX_DAY + 7,
                out@ == before + week_lines(table, first as int, k as nat),
            decreases 7 - k,
        {
            let d: i32 = first + k;
            if table.contains(d) {
                out.push(ShowLine::Day(d));
            }
            k = k + 1;
            assert(out@ =~= before + week_lines(table, first as int, k as nat));
        }
        out.push(ShowLine::WeekEnd);
        w = w + 1;
        assert(out@ =~= show_lines(table, start as int, w as nat));
    }
    out
}

/// The clock as the owner of the roster reads it: today's day number and the
/// time of day in seconds since midnight.
pub struct Clock {
    pub today: i32,
    pub now: u32,
}

/// When and whom to notify.
pub struct Schedule {
    pub send_time: u32,
    pub reset_time: u32,
    pub alert_day: Weekday,
    pub maintainer: String,
    pub rules: EligibleDates,
}

/// What the owner of the roster answers, or asks the caller to do.
pub enum Response {
    /// The answer to `Status`.
    Report(Status),
    /// The roster was changed: store it, and show this excerpt.
    Edited(Vec<ExcerptLine>),
    /// The edit was refused; the roster is unchanged.
    Refused(RosterError),
    /// The answer to `Show`.
    Week(Vec<ShowLine>),
    /// Notify this person now, then hand the outcome to `complete_refresh`.
    Notify(Person),
    /// Alert the maintainer: today's person could not be notified.
    Escalate,
    /// Nothing to do.
    Idle,
}

/// The single owner of the roster and of the notification state.
pub struct Scheduler {
    pub table: Roster,
    pub gate: Gate,
}

impl Scheduler {
    pub open spec fn wf(&self) -> bool {
        self.table.wf()
    }

    /// A fresh owner of `table`: nothing sent yet.
    pub fn new(table: Roster) -> (s: Scheduler)
        requires
            table.wf(),
        ensures
            s.wf(),
            s.table == table,
            !s.gate.sent_today,
            !s.gate.resend,
            s.gate.status@.len() == 0,
    {
        Scheduler { table, gate: Gate::new() }
    }

    /// `st` reports this state on day `today`.
    pub open spec fn reports(&self, today: i32, st: Status) -> bool {
        &&& st.sent_today == self.gate.sent_today
        &&& st.status@ == self.gate.status@
        &&& st.todays_name is Some == self.table.has(today)
        &&& st.todays_name is Some ==> st.todays_name.unwrap() == self.table.at(today)
        &&& st.tomorrows_name is Some == self.table.has((today + 1) as i32)
        &&& st.tomorrows_name is Some ==> st.tomorrows_name.unwrap() == self.table.at(
            (today + 1) as i32,
        )
    }

    /// What a tick at `clock` leaves and answers: see `refresh`.
    pub open spec fn refreshed(
        old: &Scheduler,
        new: &Scheduler,
        clock: &Clock,
        schedule: &Schedule,
        r: Response,
    ) -> bool {
        let attempt = old.gate.attempts(
            clock.now as int,
            schedule.send_time as int,
            schedule.reset_time as int,
        );
        &&& new.table == old.table
        &&& !new.gate.resend
        &&& !attempt ==> r is Idle
        &&& (!attempt || old.table.has(clock.today)) ==> {
            &&& new.gate.sent_today == old.gate.sent_after_reset(
                clock.now as int,
                schedule.reset_time as int,
            )
            &&& close_to(clock.now as int, schedule.reset_time as int) ==> new.gate.status@.len()
                == 0
            &&& !close_to(clock.now as int, schedule.reset_time as int) ==> new.gate.status
                == old.gate.status
        }
        &&& attempt && old.table.has(clock.today) ==> r == Response::Notify(
            old.table.at(clock.today),
        )
        &&& attempt && !old.table.has(clock.today) ==> {
            let alert = weekday_of(clock.today as int) == schedule.alert_day;
            &&& new.gate.status@ == "no assignee"@
            &&& new.gate.sent_today == alert
            &&& (if alert {
                r is Escalate
            } else {
                r is Idle
            })
        }
    }

    /// The person on duty on day `d`, copied out.
    fn person_on(&self, d: i32) -> (r: Option<Person>)
        requires
            self.wf(),
        ensures
            r is Some == self.table.has(d),
            r is Some ==> r.unwrap() == self.table.at(d),
    {
        match self.table.get(d) {
            Some(p) => Some(p.clone()),
            None => None,
        }
    }

    /// The notification state and who is on duty today and tomorrow.
    pub fn status(&self, today: i32) -> (r: Status)
        requires
            self.wf(),
            today < MAX_DAY,
        ensures
            self.reports(today, r),
    {
        Status {
            sent_today: self.gate.sent_today,
            status: self.gate.status.clone(),
            todays_name: self.person_on(today),
            tomorrows_name: self.person_on(today + 1),
        }
    }

    /// A tick of the clock. Where a notice is due and someone is on duty today,
    /// the caller is asked to notify them (`Notify`) and to hand the outcome
    /// to `complete_refresh`. Where a notice is due and nobody is on duty, that
    /// is recorded at once, and on the alert day the maintainer is to be
    /// alerted (`Escalate`).
    pub fn refresh(&mut self, clock: &Clock, schedule: &Schedule) -> (r: Response)
        requires
            old(self).wf(),
            MIN_DAY <= clock.today <= MAX_DAY,
        ensures
            final(self).wf(),
            Scheduler::refreshed(&*old(self), &*final(self), clock, schedule, r),
    {
        let attempt = self.gate.begin_refresh(clock.now, schedule.send_time, schedule.reset_time);
        if !attempt {
            return Response::Idle;
        }
        match self.person_on(clock.today) {
            Some(p) => Response::Notify(p),
            None => {
                let alert = weekday(clock.today) == schedule.alert_day;
                if self.gate.finish_refresh(SendOutcome::NoAssignee, alert) {
                    Response::Escalate
                } else {
                    Response::Idle
                }
            },
        }
    }

    /// Records how the notice asked for by `refresh` went. On the alert day a
    /// notice that did not succeed asks for the maintainer to be alerted.
    pub fn complete_refresh(&mut self, outcome: SendOutcome, clock: &Clock, schedule: &Schedule) -> (r:
        Response)
        requires
            old(self).wf(),
        ensures
            final(self).wf(),
            final(self).table == old(self).table,
            final(self).gate.resend == old(self).gate.resend,
            final(self).gate.status@ == crate::gate::outcome_status(outcome),
            final(self).gate.sent_today == (crate::gate::outcome_sent(outcome) || weekday_of(
                clock.today as int,
            ) == schedule.alert_day),
            (r is Escalate) == (!crate::gate::outcome_sent(outcome) && weekday_of(
                clock.today as int,
            ) == schedule.alert_day),
            !(r is Escalate) ==> r is Idle,
    {
        let alert = weekday(clock.today) == schedule.alert_day;
        if self.gate.finish_refresh(outcome, alert) {
            Response::Escalate
        } else {
            Response::Idle
        }
    }

    /// Handles one request. `Refresh` goes as `refresh` says; an edit that
    /// succeeds answers `Edited` with the excerpt around the days it names,
    /// one that fails `Refused` with the roster unchanged.
    pub fn handle(&mut self, req: Request, clock: &Clock, schedule: &Schedule) -> (r: Response)
        requires
            old(self).wf(),
            MIN_DAY <= clock.today < MAX_DAY,
            req matches Request::Show(n) ==> clock.today + 7 * n <= MAX_DAY,
        ensures
            final(self).wf(),
            req is Status ==> *final(self) == *old(self) && (r matches Response::Report(st)
                && old(self).reports(clock.today, st)),
            req is Refresh ==> Scheduler::refreshed(&*old(self), &*final(self), clock, schedule, r),
            req is Resend ==> r is Idle && final(self).gate.resend && final(self).table == old(
                self,
            ).table && final(self).gate.sent_today == old(self).gate.sent_today,
            req matches Request::Show(n) ==> (r matches Response::Week(v) && v@ == show_lines(
                &old(self).table,
                sunday_on_or_before(clock.today as int),
                n as nat,
            )),
            req matches Request::Switch(d1, d2) ==> {
                &&& (r is Edited) == (old(self).table.has(d1) && old(self).table.has(d2))
                &&& r is Edited ==> Roster::switched(&old(self).table, &final(self).table, d1, d2)
                &&& r matches Response::Edited(v) ==> v@ == excerpt_of(
                    final(self).table.days(),
                    seq![d1, d2],
                    EXCERPT_RANGE as int,
                )
                &&& !(r is Edited) ==> r == Response::Refused(RosterError::DateNotFound)
                    && final(self).table == old(self).table
            },
            req matches Request::Drop(kind, d) ==> {
                &&& (r is Edited) ==> old(self).table.has(d)
                &&& !old(self).table.has(d) ==> r == Response::Refused(RosterError::DateNotFound)
                &&& r is Refused ==> final(self).table == old(self).table
                &&& kind != DropType::Postpone ==> (r is Edited) == old(self).table.has(d)
                &&& kind == DropType::Postpone ==> (r is Edited) == (old(self).table.has(d)
                    && schedule.rules.has_eligible_after(old(self).table.days().last()))
                &&& r is Edited ==> Roster::dropped(&old(self).table, &final(self).table, kind, d, &schedule.rules)
                &&& r matches Response::Edited(v) ==> v@ == excerpt_of(
                    final(self).table.days(),
                    seq![d],
                    EXCERPT_RANGE as int,
                )
                &&& old(self).table.has(d) && !(r is Edited) ==> r == Response::Refused(RosterError::NoEligibleDate)
            },
            !(req is Refresh) ==> final(self).gate.status == old(self).gate.status,
            !(req is Refresh) ==> final(self).gate.sent_today == old(self).gate.sent_today,
            !(req is Refresh) && !(req is Resend) ==> final(self).gate.resend == old(
                self,
            ).gate.resend,
            req is Show ==> final(self).table == old(self).table,
    {
        match req {
            Request::Status => Response::Report(self.status(clock.today)),
            Request::Refresh => self.refresh(clock, schedule),
            Request::Switch(d1, d2) => {
                match self.table.switch(d1, d2) {
                    Ok(()) => {
                        let mut around: Vec<i32> = Vec::new();
                        around.push(d1);
                        around.push(d2);
                        assert(around@ =~= seq![d1, d2]);
                        Response::Edited(print_around_date(&self.table, EXCERPT_RANGE, &around))
                    },
                    Err(e) => Response::Refused(e),
                }
            },
            Request::Resend => {
                self.gate.request_resend();
                Response::Idle
            },
            Request::Drop(kind, d) => {
                match drop_name(&mut self.table, kind, d, &schedule.rules) {
                    Ok(()) => {
                        let mut around: Vec<i32> = Vec::new();
                        around.push(d);
                        assert(around@ =~= seq![d]);
                        Response::Edited(print_around_date(&self.table, EXCERPT_RANGE, &around))
                    },
                    Err(e) => Response::Refused(e),
                }
            },
            Request::Show(n) => Response::Week(show(&self.table, clock.today, n)),
        }
    }
}

} // verus!
