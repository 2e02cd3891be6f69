use cleaning_roster::calendar::{parse_date, parse_time, weekday, EligibleDates, Weekday};
use cleaning_roster::gate::{
    first_numeric, is_close_to_time, parse_code, response_code, split_words, Gate, SendOutcome,
};
use cleaning_roster::roster::{Person, Roster};
use cleaning_roster::scheduler::{Clock, Request, Response, Schedule, Scheduler, ShowLine};

fn day(s: &str) -> i32 {
    parse_date(s).expect("a valid date")
}

fn secs(s: &str) -> u32 {
    parse_time(s).expect("a valid time")
}

fn roster() -> Roster {
    let mut t = Roster::new();
    t.put(day("2024-05-18"), Person { name: "Alice".to_string(), phone: "111".to_string() });
    t.put(day("2024-05-19"), Person { name: "Bob".to_string(), phone: "222".to_string() });
    t.put(day("2024-05-20"), Person { name: "Carol".to_string(), phone: "333".to_string() });
    t
}

fn schedule() -> Schedule {
    Schedule {
        send_time: secs("09:00:00"),
        reset_time: secs("01:00:00"),
        alert_day: Weekday::Thu,
        maintainer: "999".to_string(),
        rules: EligibleDates { weekend: vec![Weekday::Fri, Weekday::Sat], excluded: vec![] },
    }
}

#[test]
fn close_to_time_window() {
    let nine = secs("09:00:00");
    assert!(is_close_to_time(secs("09:01:00"), nine));
    assert!(is_close_to_time(secs("08:59:00"), nine));
    assert!(!is_close_to_time(secs("09:01:01"), nine));
    assert!(!is_close_to_time(secs("08:58:59"), nine));
    assert!(!is_close_to_time(90, 0));
}

#[test]
fn response_codes() {
    assert_eq!(response_code("200 OK"), 200);
    assert_eq!(response_code("status: 3 sent"), 3);
    assert_eq!(response_code("  +17  "), 17);
    assert_eq!(response_code("-1 failed"), 0);
    assert_eq!(response_code("none here"), 0);
    assert_eq!(response_code("99999999999 7"), 7);
    assert_eq!(parse_code("4294967295"), Some(4294967295));
    assert_eq!(parse_code("4294967296"), None);
    assert_eq!(parse_code("+"), None);
    assert_eq!(parse_code(""), None);
    assert_eq!(first_numeric(&vec!["x".to_string(), "12".to_string()]), 12);
    assert_eq!(split_words(" a  bc\td "), vec!["a".to_string(), "bc".to_string(), "d".to_string()]);
}

#[test]
fn second_tick_sends_nothing() {
    let mut g = Gate::new();
    let (send, reset) = (secs("09:00:00"), secs("01:00:00"));
    assert!(g.begin_refresh(secs("09:00:10"), send, reset));
    assert!(!g.finish_refresh(SendOutcome::Replied("200 OK".to_string()), false));
    assert!(g.sent_today);
    assert!(!g.begin_refresh(secs("09:00:20"), send, reset));
    assert!(g.sent_today);
    assert_eq!(g.status, "200 OK");
}

#[test]
fn tick_ninety_seconds_off_is_outside_the_window() {
    let mut g = Gate::new();
    let (send, reset) = (secs("09:00:00"), secs("01:00:00"));
    assert!(!g.begin_refresh(send + 90, send, reset));
    g.sent_today = true;
    g.status = "200 OK".to_string();
    assert!(!g.begin_refresh(reset + 89, send, reset));
    assert!(g.sent_today);
    assert_eq!(g.status, "200 OK");
}

#[test]
fn reset_tick_clears() {
    let mut g = Gate::new();
    let (send, reset) = (secs("09:00:00"), secs("01:00:00"));
    g.sent_today = true;
    g.status = "200 OK".to_string();
    assert!(!g.begin_refresh(reset, send, reset));
    assert!(!g.sent_today);
    assert_eq!(g.status, "");
}

#[test]
fn resend_forces_attempt() {
    let mut g = Gate::new();
    g.sent_today = true;
    g.request_resend();
    assert!(g.begin_refresh(secs("15:00:00"), secs("09:00:00"), secs("01:00:00")));
    assert!(!g.resend);
    assert!(!g.begin_refresh(secs("15:00:10"), secs("09:00:00"), secs("01:00:00")));
}

#[test]
fn failures_and_escalation() {
    let mut g = Gate::new();
    assert!(!g.finish_refresh(SendOutcome::TransportFailed, false));
    assert!(!g.sent_today);
    assert_eq!(g.status, "Failed");
    assert!(g.finish_refresh(SendOutcome::Replied("0 rejected".to_string()), true));
    assert!(g.sent_today);
    assert!(!g.finish_refresh(SendOutcome::NoAssignee, false));
    assert_eq!(g.status, "no assignee");
}

#[test]
fn refresh_notifies_todays_person() {
    let mut s = Scheduler::new(roster());
    let clock = Clock { today: day("2024-05-19"), now: secs("09:00:30") };
    match s.handle(Request::Refresh, &clock, &schedule()) {
        Response::Notify(p) => assert_eq!(p.phone, "222"),
        _ => panic!("expected a notice"),
    }
    match s.complete_refresh(SendOutcome::Replied("1 queued".to_string()), &clock, &schedule()) {
        Response::Idle => {}
        _ => panic!("expected nothing more"),
    }
    assert!(s.gate.sent_today);
    assert!(matches!(s.handle(Request::Refresh, &clock, &schedule()), Response::Idle));
}

#[test]
fn refresh_without_assignee_escalates_on_alert_day() {
    let mut s = Scheduler::new(roster());
    // 2024-05-23 is a Thursday, the alert day, and has no entry
    let today = day("2024-05-23");
    assert_eq!(weekday(today), Weekday::Thu);
    let clock = Clock { today, now: secs("09:00:00") };
    assert!(matches!(s.handle(Request::Refresh, &clock, &schedule()), Response::Escalate));
    assert!(s.gate.sent_today);
    assert_eq!(s.gate.status, "no assignee");
}

#[test]
fn status_reports_today_and_tomorrow() {
    let mut s = Scheduler::new(roster());
    let clock = Clock { today: day("2024-05-19"), now: 0 };
    match s.handle(Request::Status, &clock, &schedule()) {
        Response::Report(st) => {
            assert!(!st.sent_today);
            assert_eq!(st.todays_name.unwrap().name, "Bob");
            assert_eq!(st.tomorrows_name.unwrap().name, "Carol");
        }
        _ => panic!("expected a report"),
    }
}

#[test]
fn edits_through_the_scheduler() {
    let mut s = Scheduler::new(roster());
    let clock = Clock { today: day("2024-05-19"), now: 0 };
    match s.handle(Request::Switch(day("2024-05-18"), day("2024-05-20")), &clock, &schedule()) {
        Response::Edited(lines) => {
            assert_eq!(lines.len(), 3);
            assert!(lines[0].highlighted && !lines[1].highlighted && lines[2].highlighted);
        }
        _ => panic!("expected an edit"),
    }
    assert_eq!(s.table.get(day("2024-05-18")).unwrap().name, "Carol");
    assert!(matches!(
        s.handle(Request::Drop(cleaning_roster::roster::DropType::Clean, day("2024-06-01")), &clock, &schedule()),
        Response::Refused(cleaning_roster::roster::RosterError::DateNotFound)
    ));
    assert!(matches!(s.handle(Request::Resend, &clock, &schedule()), Response::Idle));
    assert!(s.gate.resend);
}

#[test]
fn show_weeks_from_sunday() {
    let mut s = Scheduler::new(roster());
    // 2024-05-22 is a Wednesday; its week starts on Sunday 2024-05-19
    let clock = Clock { today: day("2024-05-22"), now: 0 };
    match s.handle(Request::Show(2), &clock, &schedule()) {
        Response::Week(lines) => assert_eq!(
            lines,
            vec![
                ShowLine::Day(day("2024-05-19")),
                ShowLine::Day(day("2024-05-20")),
                ShowLine::WeekEnd,
                ShowLine::WeekEnd,
            ]
        ),
        _ => panic!("expected the week view"),
    }
}
