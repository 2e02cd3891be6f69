use cleaning_roster::calendar::{int_to_weekday, parse_date, weekday, EligibleDates, Weekday};
use cleaning_roster::roster::{drop_name, DropType, Person, Roster, RosterError};

fn day(s: &str) -> i32 {
    parse_date(s).expect("a valid date")
}

fn person(name: &str, phone: &str) -> Person {
    Person { name: name.to_string(), phone: phone.to_string() }
}

/// Three people, the last one on duty on 2022-05-18.
fn test_table() -> Roster {
    let mut t = Roster::new();
    t.put(day("2022-05-18"), person("John", "9725130465"));
    t.put(day("2022-05-17"), person("Maddy", "972541235467"));
    t.put(day(" 2022-05-16"), person("Kaladin", "972468578448"));
    t
}

/// Weekend days 5, 6 and 7 (Thursday to Saturday), nothing excluded.
fn test_rules() -> EligibleDates {
    EligibleDates {
        weekend: vec![int_to_weekday(5), int_to_weekday(6), int_to_weekday(7)],
        excluded: vec![],
    }
}

fn names(t: &Roster) -> Vec<(i32, String)> {
    (0..t.len()).map(|i| {
        let (d, p) = t.entry(i);
        (d, p.name.clone())
    }).collect()
}

fn scenario_table() -> Roster {
    let mut t = Roster::new();
    t.put(day("2024-05-18"), person("Alice", "1"));
    t.put(day("2024-05-19"), person("Bob", "2"));
    t.put(day("2024-05-20"), person("Carol", "3"));
    t
}

fn weekend_fri_sat() -> EligibleDates {
    EligibleDates { weekend: vec![Weekday::Fri, Weekday::Sat], excluded: vec![] }
}

#[test]
fn drop_clean() {
    let mut name_table = test_table();
    let drop_date = day("2022-05-18");
    let earlier = day("2022-05-17");
    let earlier_name = name_table.get(earlier).unwrap().name.clone();
    drop_name(&mut name_table, DropType::Clean, drop_date, &test_rules()).unwrap();
    assert!(name_table.get(drop_date).is_none());
    assert_eq!(name_table.get(earlier).unwrap().name, earlier_name);
}

#[test]
fn drop_post() {
    let mut name_table = test_table();
    drop_name(&mut name_table, DropType::Postpone, day("2022-05-18"), &test_rules()).unwrap();
    println!("{:?}", names(&name_table));
    assert!(name_table.contains(day("2022-05-22")));
}

#[test]
fn drop_collapse() {
    let mut name_table = test_table();
    let org_table = names(&name_table);
    let drop_date = day("2022-05-18");
    let config = test_rules();
    let last_date = *name_table.keys_sorted().last().unwrap();

    drop_name(&mut name_table, DropType::Collapse, drop_date, &config).unwrap();

    assert!(!name_table.keys_sorted().iter().any(|x| *x == last_date));
    assert!(name_table.keys_sorted().iter().filter(|x| config.weekend.contains(&weekday(**x))).count() == 0);
    let res: Vec<(i32, String)> = names(&name_table).into_iter().filter(|x| x.0 >= drop_date).collect();
    let org: Vec<(i32, String)> = org_table.into_iter().filter(|x| x.0 >= drop_date).collect();
    for (org, res) in org.iter().skip(1).zip(res.iter()) {
        assert_eq!(org.1, res.1);
    }
}

#[test]
fn collapse_scenario() {
    let mut t = scenario_table();
    t.collapse(day("2024-05-18")).unwrap();
    assert_eq!(
        names(&t),
        vec![(day("2024-05-18"), "Bob".to_string()), (day("2024-05-19"), "Carol".to_string())]
    );
    assert!(!t.contains(day("2024-05-20")));
}

#[test]
fn switch_scenario() {
    let mut t = scenario_table();
    t.switch(day("2024-05-18"), day("2024-05-20")).unwrap();
    assert_eq!(
        names(&t),
        vec![
            (day("2024-05-18"), "Carol".to_string()),
            (day("2024-05-19"), "Bob".to_string()),
            (day("2024-05-20"), "Alice".to_string()),
        ]
    );
}

#[test]
fn switch_missing_date() {
    let mut t = scenario_table();
    let before = names(&t);
    assert_eq!(t.switch(day("2024-05-18"), day("2099-01-01")), Err(RosterError::DateNotFound));
    assert_eq!(names(&t), before);
}

#[test]
fn switch_twice_restores() {
    let mut t = scenario_table();
    let before = names(&t);
    t.switch(day("2024-05-18"), day("2024-05-19")).unwrap();
    assert_ne!(names(&t), before);
    t.switch(day("2024-05-18"), day("2024-05-19")).unwrap();
    assert_eq!(names(&t), before);
}

#[test]
fn keys_stay_sorted() {
    let mut t = scenario_table();
    t.put(day("2024-05-10"), person("Dan", "4"));
    t.postpone(day("2024-05-19"), &weekend_fri_sat()).unwrap();
    t.collapse(day("2024-05-10")).unwrap();
    let keys = t.keys_sorted();
    assert!(keys.windows(2).all(|w| w[0] < w[1]));
}

#[test]
fn collapse_shrinks_keys() {
    let mut t = scenario_table();
    let before = t.keys_sorted();
    t.collapse(day("2024-05-19")).unwrap();
    let after = t.keys_sorted();
    assert_eq!(after.len(), before.len() - 1);
    assert!(after.last().unwrap() < before.last().unwrap());
    assert_eq!(t.get(day("2024-05-19")).unwrap().name, "Carol");
}

#[test]
fn postpone_adds_eligible_day() {
    let mut t = scenario_table();
    let rules = EligibleDates {
        weekend: vec![Weekday::Fri, Weekday::Sat],
        excluded: vec![day("2024-05-21"), day("2024-05-22")],
    };
    t.postpone(day("2024-05-19"), &rules).unwrap();
    // 2024-05-21 and 22 are excluded, so the new last day is the 23rd (a Thursday)
    assert_eq!(
        names(&t),
        vec![
            (day("2024-05-18"), "Alice".to_string()),
            (day("2024-05-20"), "Bob".to_string()),
            (day("2024-05-23"), "Carol".to_string()),
        ]
    );
    assert_eq!(weekday(day("2024-05-23")), Weekday::Thu);
}

#[test]
fn postpone_without_eligible_day() {
    let mut t = scenario_table();
    let rules = EligibleDates {
        weekend: vec![
            Weekday::Mon, Weekday::Tue, Weekday::Wed, Weekday::Thu, Weekday::Fri, Weekday::Sat,
            Weekday::Sun,
        ],
        excluded: vec![],
    };
    let before = names(&t);
    assert_eq!(t.postpone(day("2024-05-18"), &rules), Err(RosterError::NoEligibleDate));
    assert_eq!(names(&t), before);
    assert_eq!(t.postpone(day("2024-06-01"), &weekend_fri_sat()), Err(RosterError::DateNotFound));
}

#[test]
fn drop_missing_date() {
    let mut t = scenario_table();
    assert_eq!(t.clean(day("2024-06-01")), Err(RosterError::DateNotFound));
    assert_eq!(t.collapse(day("2024-06-01")), Err(RosterError::DateNotFound));
    assert_eq!(t.len(), 3);
}

#[test]
fn put_replaces_and_remove_returns() {
    let mut t = scenario_table();
    t.put(day("2024-05-19"), person("Eve", "5"));
    assert_eq!(t.len(), 3);
    assert_eq!(t.get(day("2024-05-19")).unwrap().name, "Eve");
    let gone = t.remove(day("2024-05-19")).unwrap();
    assert_eq!(gone.phone, "5");
    assert!(t.remove(day("2024-05-19")).is_none());
    assert!(!t.is_empty());
}
