use cleaning_roster::calendar::{format_date, last_sunday, parse_date, parse_time, weekday, Weekday, MAX_DAY, MIN_DAY};
use cleaning_roster::command::{parse_command, parse_line, CliError, Command};
use cleaning_roster::config::{app_dir_in, get_help, path_in, Config, ConfigError, ConfigRaw};
use cleaning_roster::excerpt::{dedup, print_around_date, ExcerptLine};
use cleaning_roster::maker::{
    contains_text, exclude_holidays, hebdates_from_items, get_dates, get_dates_list, name_lt, sort_by_name, HebDate, HebDateRaw,
};
use cleaning_roster::records::{beautified_records, table_from_records, table_records, NamesTableRaw};
use cleaning_roster::roster::{Person, Roster};
use cleaning_roster::scheduler::Request;

fn day(s: &str) -> i32 {
    parse_date(s).expect("a valid date")
}

#[test]
fn dates_and_times() {
    assert_eq!(day("0001-01-01"), 1);
    assert_eq!(day("2024-05-18"), 739024);
    assert_eq!(weekday(day("2024-05-18")), Weekday::Sat);
    assert_eq!(weekday(0), Weekday::Sun);
    assert_eq!(weekday(-6), Weekday::Mon);
    assert_eq!(format_date(day("2024-05-18")), "2024-05-18");
    assert_eq!(format_date(MAX_DAY), "+262142-12-31");
    assert_eq!(parse_date(&format_date(MIN_DAY)), Some(MIN_DAY));
    assert_eq!(parse_date("-262143-01-01"), Some(MIN_DAY));
    assert_eq!(parse_date("+262142-12-31"), Some(MAX_DAY));
    assert_eq!(parse_date("2024-02-30"), None);
    assert_eq!(parse_time("09:30:15"), Some(9 * 3600 + 30 * 60 + 15));
    assert_eq!(parse_time("25:00:00"), None);
    assert_eq!(last_sunday(day("2024-05-22")), day("2024-05-19"));
    assert_eq!(last_sunday(day("2024-05-19")), day("2024-05-19"));
}

#[test]
fn mod_dates_list() {
    let start_date = day("2023-01-01");
    let time_period = 7;
    let res: Vec<i32> = (start_date..start_date + time_period as i32).collect();
    assert!(res.iter().any(|p| weekday(*p) == Weekday::Sat));
    let res = get_dates_list(start_date, time_period);
    assert!(!res.iter().any(|p| weekday(*p) == Weekday::Sat));
    assert_eq!(res.len(), 7);
}

#[test]
fn mod_dates_filtering() {
    let people = vec![
        Person { name: "amichai".to_string(), phone: "SECRET-REDACTED".to_string() },
        Person { name: "Joe".to_string(), phone: "SECRET-REDACTED".to_string() },
    ];
    let test_date = day("2023-03-01");
    let holidays = vec![HebDate { date: test_date, title: "purim".to_string() }];
    let start_date = day("2023-01-01");
    let time_period = 100;
    let res = get_dates(&people, &holidays, start_date, time_period);
    assert!(!res.iter().any(|p| p.date == test_date));
    assert!(res.iter().next().unwrap().person.name == "amichai".to_string());
    assert_eq!(res.len(), 99);
    assert_eq!(res[1].person.name, "Joe");
    assert_eq!(res[2].person.name, "amichai");
}

#[test]
fn holidays_by_title() {
    let dates = vec![
        HebDate { title: "Purim".to_string(), date: day("2024-03-24") },
        HebDate { title: "Pesach I".to_string(), date: day("2024-04-23") },
        HebDate { title: "Shushan Purim".to_string(), date: day("2024-03-25") },
    ];
    let kept = exclude_holidays(dates, &vec!["Purim".to_string()]);
    assert_eq!(kept.len(), 1);
    assert_eq!(kept[0].title, "Pesach I");
    assert!(contains_text("Yom HaShoah", "HaSh"));
    assert!(!contains_text("Yom", "Yom HaShoah"));
    let raw = HebDateRaw::from(&kept[0]);
    assert_eq!(raw.date, "2024-04-23");
    assert_eq!(HebDate::from(&raw).unwrap().date, day("2024-04-23"));
    assert!(HebDate::from(&HebDateRaw { title: "x".to_string(), date: "soon".to_string() }).is_none());
}

#[test]
fn dedup_keeps_first() {
    let mut v = vec![3, 1, 3, 2, 1];
    dedup(&mut v);
    assert_eq!(v, vec![3, 1, 2]);
}

#[test]
fn excerpt_around_dates() {
    let mut t = Roster::new();
    for k in 0..20 {
        t.put(1000 + k, Person { name: format!("p{k}"), phone: String::new() });
    }
    let lines = print_around_date(&t, 2, &vec![1010, 1011]);
    let days: Vec<i32> = lines.iter().map(|l| l.day).collect();
    assert_eq!(days, vec![1008, 1009, 1010, 1011, 1012, 1013]);
    assert_eq!(lines[2], ExcerptLine { day: 1010, highlighted: true });
    assert!(!lines[0].highlighted);
    // a day without an entry centres on the last earlier day
    let lines = print_around_date(&t, 1, &vec![2000]);
    assert_eq!(lines.iter().map(|l| l.day).collect::<Vec<i32>>(), vec![1018, 1019]);
    let lines = print_around_date(&t, 1, &vec![5]);
    assert_eq!(lines.iter().map(|l| l.day).collect::<Vec<i32>>(), vec![1000, 1001]);
    assert!(print_around_date(&Roster::new(), 1, &vec![5]).is_empty());
}

#[test]
fn records_round_trip() {
    let rows = vec![
        NamesTableRaw { name: "John".to_string(), number: "1".to_string(), date: "2022-05-18".to_string() },
        NamesTableRaw { name: "Maddy".to_string(), number: "2".to_string(), date: "2022-05-17".to_string() },
        NamesTableRaw { name: "Kim".to_string(), number: "3".to_string(), date: "2022-05-18".to_string() },
    ];
    let t = table_from_records(&rows).unwrap();
    assert_eq!(t.len(), 2);
    assert_eq!(t.get(day("2022-05-18")).unwrap().name, "Kim");
    let out = table_records(&t);
    assert_eq!(out[0].date, "2022-05-17");
    assert_eq!(out[1].name, "Kim");
    let pretty = beautified_records(&t);
    assert_eq!(pretty[0].day, "Tue");
    let bad = vec![NamesTableRaw { name: "x".to_string(), number: "1".to_string(), date: "2022-13-01".to_string() }];
    assert_eq!(table_from_records(&bad).err(), Some(0));
}

fn raw_config() -> ConfigRaw {
    ConfigRaw {
        start_date: "2022-05-18".to_string(),
        range: 180,
        output_file_name: "table".to_string(),
        send_time: "09:00:00".to_string(),
        reset_time: "01:00:00".to_string(),
        maintainer: String::new(),
        alert_day: 5,
        weekend: vec![5, 6, 7],
    }
}

#[test]
fn config_reads() {
    let c = Config::from(raw_config()).unwrap();
    assert_eq!(c.start_date, day("2022-05-18"));
    assert_eq!(c.output_file_name, "table.csv");
    assert_eq!(c.send_time, 9 * 3600);
    assert_eq!(c.alert_day, Weekday::Thu);
    assert_eq!(c.weekend, vec![Weekday::Thu, Weekday::Fri, Weekday::Sat]);
}

#[test]
fn config_errors() {
    let mut r = raw_config();
    r.start_date = "18/05/2022".to_string();
    assert_eq!(Config::from(r).err(), Some(ConfigError::StartDate));
    let mut r = raw_config();
    r.send_time = "9".to_string();
    assert_eq!(Config::from(r).err(), Some(ConfigError::SendTime));
    let mut r = raw_config();
    r.reset_time = "".to_string();
    assert_eq!(Config::from(r).err(), Some(ConfigError::ResetTime));
    let mut r = raw_config();
    r.alert_day = 8;
    assert_eq!(Config::from(r).err(), Some(ConfigError::AlertDay));
    let mut r = raw_config();
    r.weekend = vec![6, 0];
    assert_eq!(Config::from(r).err(), Some(ConfigError::Weekend));
}

#[test]
fn paths_and_help() {
    assert_eq!(app_dir_in("/home/a/Documents"), "/home/a/Documents/cleaning_managment/");
    assert_eq!(path_in("/r/", "config/names.csv"), "/r/config/names.csv");
    assert!(get_help().starts_with("Options:"));
}

#[test]
fn commands() {
    assert!(matches!(parse_line("  status "), Command::Ask(Request::Status)));
    assert!(matches!(parse_line("show"), Command::Ask(Request::Show(2))));
    assert!(matches!(parse_line("show 3"), Command::Ask(Request::Show(4))));
    assert!(matches!(parse_line("show x"), Command::Invalid(CliError::ShowNumber)));
    match parse_line("switch 2024-05-18 2024-05-20") {
        Command::Ask(Request::Switch(a, b)) => {
            assert_eq!((a, b), (day("2024-05-18"), day("2024-05-20")));
        }
        _ => panic!("expected a switch"),
    }
    assert!(matches!(parse_line("switch 2024-05-18"), Command::Invalid(CliError::ParamCount)));
    assert!(matches!(parse_line("switch x 2024-05-18"), Command::Invalid(CliError::FirstDate)));
    assert!(matches!(parse_line("switch 2024-05-18 y"), Command::Invalid(CliError::SecondDate)));
    assert!(matches!(parse_line("drop later 2024-05-18"), Command::Invalid(CliError::DropAction)));
    assert!(matches!(parse_line("drop clean 18-05"), Command::Invalid(CliError::DropDate)));
    assert!(matches!(parse_line("drop collapse 2024-05-18"), Command::Ask(Request::Drop(_, _))));
    assert!(matches!(parse_line("resend"), Command::Ask(Request::Resend)));
    assert!(matches!(parse_line("help"), Command::Help));
    assert!(matches!(parse_line("dance"), Command::Nothing));
    assert!(matches!(parse_command(&vec![]), Command::Nothing));
    assert_eq!(CliError::DropDate.message(), "Date format must be YYYY-MM-DD");
    assert_eq!(CliError::ParamCount.message(), "Incorrect number of parameters");
}

#[test]
fn people_sorted_by_name() {
    let p = |n: &str, ph: &str| Person { name: n.to_string(), phone: ph.to_string() };
    let sorted = sort_by_name(&vec![p("Maddy", "1"), p("John", "2"), p("Kaladin", "3"), p("John", "4"), p("Jo", "5")]);
    let got: Vec<(String, String)> = sorted.into_iter().map(|x| (x.name, x.phone)).collect();
    let want: Vec<(String, String)> = vec![("Jo", "5"), ("John", "2"), ("John", "4"), ("Kaladin", "3"), ("Maddy", "1")]
        .into_iter()
        .map(|(a, b)| (a.to_string(), b.to_string()))
        .collect();
    assert_eq!(got, want);
    assert!(name_lt(&"Zed".to_string(), &"a".to_string()));
    assert!(!name_lt(&"b".to_string(), &"b".to_string()));
    assert!(name_lt(&"\u{e9}".to_string(), &"\u{20ac}".to_string()));
}

#[test]
fn holidays_from_calendar_items() {
    let items = vec![
        HebDateRaw { title: "Purim".to_string(), date: "2024-03-24".to_string() },
        HebDateRaw { title: "Pesach I".to_string(), date: "2024-04-23".to_string() },
    ];
    let hs = hebdates_from_items(&items).unwrap();
    assert_eq!(hs[1].date, day("2024-04-23"));
    assert_eq!(hs[0].title, "Purim");
    let bad = vec![HebDateRaw { title: "Purim".to_string(), date: "2024-03-24".to_string() }, HebDateRaw { title: "x".to_string(), date: "2024-04-31".to_string() }];
    assert_eq!(hebdates_from_items(&bad).err(), Some(1));
}
