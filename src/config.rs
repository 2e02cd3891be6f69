use vstd::prelude::*;

use crate::calendar::{
    hms_text_seconds, int_to_weekday, parse_date, parse_time, weekday_of_number, ymd_text_day,
    Weekday,
};

verus! {

/// The configuration as it is written: dates and times as text, weekdays as
/// numbers from 1 (Sunday) to 7 (Saturday).
#[derive(Debug)]
pub struct ConfigRaw {
    pub start_date: String,
    pub range: usize,
    pub output_file_name: String,
    pub send_time: String,
    pub reset_time: String,
    pub maintainer: String,
    pub alert_day: usize,
    pub weekend: Vec<usize>,
}

/// The configuration: the first day and the length of a generated roster,
/// the file it is stored in, when to notify and when the day starts over
/// (seconds since midnight), whom to alert and on which weekday, and the
/// weekend days.
#[derive(Debug)]
pub struct Config {
    pub start_date: i32,
    pub range: usize,
    pub output_file_name: String,
    pub send_time: u32,
    pub reset_time: u32,
    pub maintainer: String,
    pub alert_day: Weekday,
    pub weekend: Vec<Weekday>,
}

/// The first field of a configuration that does not read.
#[derive(PartialEq, Eq, Structural, Clone, Copy, Debug)]
pub enum ConfigError {
    StartDate,
    SendTime,
    ResetTime,
    AlertDay,
    Weekend,
}

pub open spec fn weekday_number_ok(i: int) -> bool {
    1 <= i <= 7
}

impl Config {
    /// Reads `config`. The stored file name gets the extension `.csv`.
    pub fn from(config: ConfigRaw) -> (r: Result<Config, ConfigError>)
        ensures
            (r == Err::<Config, ConfigError>(ConfigError::StartDate)) == (ymd_text_day(
                config.start_date@,
            ) is None),
            (r == Err::<Config, ConfigError>(ConfigError::SendTime)) == (ymd_text_day(
                config.start_date@,
            ) is Some && hms_text_seconds(config.send_time@) is None),
            (r == Err::<Config, ConfigError>(ConfigError::ResetTime)) == (ymd_text_day(
                config.start_date@,
            ) is Some && hms_text_seconds(config.send_time@) is Some && hms_text_seconds(
                config.reset_time@,
            ) is None),
            (r == Err::<Config, ConfigError>(ConfigError::AlertDay)) == (ymd_text_day(
                config.start_date@,
            ) is Some && hms_text_seconds(config.send_time@) is Some && hms_text_seconds(
                config.reset_time@,
            ) is Some && !weekday_number_ok(config.alert_day as int)),
            r is Ok == (ymd_text_day(config.start_date@) is Some && hms_text_seconds(
                config.send_time@,
            ) is Some && hms_text_seconds(config.reset_time@) is Some && weekday_number_ok(
                config.alert_day as int,
            ) && forall|k: int|
                0 <= k < config.weekend@.len() ==> weekday_number_ok(
                    #[trigger] config.weekend@[k] as int,
                )),
            r matches Ok(c) ==> {
                &&& ymd_text_day(config.start_date@) == Some(c.start_date as int)
                &&& c.range == config.range
                &&& c.output_file_name@ == config.output_file_name@ + ".csv"@
                &&& hms_text_seconds(config.send_time@) == Some(c.send_time as int)
                &&& hms_text_seconds(config.reset_time@) == Some(c.reset_time as int)
                &&& c.maintainer == config.maintainer
                &&& c.alert_day == weekday_of_number(config.alert_day as int)
                &&& c.weekend@.len() == config.weekend@.len()
                &&& forall|k: int|
                    0 <= k < c.weekend@.len() ==> #[trigger] c.weekend@[k] == weekday_of_number(
                        config.weekend@[k] as int,
                    )
            },
    {
        let start_date = match parse_date(config.start_date.as_str()) {
            Some(d) => d,
            None => {
                return Err(ConfigError::StartDate);
            },
        };
        let send_time = match parse_time(config.send_time.as_str()) {
            Some(t) => t,
            None => {
                return Err(ConfigError::SendTime);
            },
        };
        let reset_time = match parse_time(config.reset_time.as_str()) {
            Some(t) => t,
            None => {
                return Err(ConfigError::ResetTime);
            },
        };
        if config.alert_day < 1 || config.alert_day > 7 {
            return Err(ConfigError::AlertDay);
        }
        let alert_day = int_to_weekday(config.alert_day);
        let mut weekend: Vec<Weekday> = Vec::new();
        let mut i: usize = 0;
        while i < config.weekend.len()
            invariant
                i <= config.weekend@.len(),
                weekend@.len() == i,
                ymd_text_day(config.start_date@) == Some(start_date as int),
                hms_text_seconds(config.send_time@) == Some(send_time as int),
                hms_text_seconds(config.reset_time@) == Some(reset_time as int),
                weekday_number_ok(config.alert_day as int),
                forall|k: int| 0 <= k < i ==> weekday_number_ok(#[trigger] config.weekend@[k] as int),
                forall|k: int|
                    0 <= k < i ==> #[trigger] weekend@[k] == weekday_of_number(
                        config.weekend@[k] as int,
                    ),
            decreases config.weekend@.len() - i,
        {
            let n = config.weekend[i];
            if n < 1 || n > 7 {
                return Err(ConfigError::Weekend);
            }
            weekend.push(int_to_weekday(n));
            i = i + 1;
        }
        let mut output_file_name = config.output_file_name;
        output_file_name.append(".csv");
        Ok(
            Config {
                start_date,
                range: config.range,
                output_file_name,
                send_time,
                reset_time,
                maintainer: config.maintainer,
                alert_day,
                weekend,
            },
        )
    }
}

/// Relies on platform-dirs' `UserDirs::new`, and on the `document_dir` that it
/// finds; what comes back depends on the machine, so nothing is promised of it.
#[verifier::external_body]
fn document_dir() -> (r: Option<String>) {
    platform_dirs::UserDirs::new().map(|dirs| dirs.document_dir.display().to_string())
}

/// The application's directory inside the documents directory `docs`.
pub open spec fn app_dir_text(docs: Seq<char>) -> Seq<char> {
    docs + "/cleaning_managment/"@
}

/// The application's directory inside the documents directory `docs`.
pub fn app_dir_in(docs: &str) -> (r: String)
    ensures
        r@ == app_dir_text(docs@),
{
    let mut r = String::from_str(docs);
    r.append("/cleaning_managment/");
    r
}

/// `root` followed by `rel`.
pub fn path_in(root: &str, rel: &str) -> (r: String)
    ensures
        r@ == root@ + rel@,
{
    let mut r = String::from_str(root);
    r.append(rel);
    r
}

/// The application's directory below the user's documents directory; `None`
/// where the machine has no such directory.
pub fn get_root_dir_path() -> (r: Option<String>)
    ensures
        r matches Some(p) ==> exists|docs: Seq<char>| p@ == app_dir_text(docs),
{
    match document_dir() {
        Some(docs) => Some(app_dir_in(docs.as_str())),
        None => None,
    }
}

/// The file `rel` below the application's directory.
fn app_file(rel: &str) -> (r: Option<String>)
    ensures
        r matches Some(p) ==> exists|docs: Seq<char>| p@ == app_dir_text(docs) + rel@,
{
    match get_root_dir_path() {
        Some(root) => Some(path_in(root.as_str(), rel)),
        None => None,
    }
}

/// The file of holiday names to leave in the rotation's way.
pub fn get_excluded_holidays_path() -> (r: Option<String>)
    ensures
        r matches Some(p) ==> exists|docs: Seq<char>| p@ == app_dir_text(docs) + "config/excluded_hebcal.csv"@,
{
    app_file("config/excluded_hebcal.csv")
}

/// The file of the people in the rotation.
pub fn get_names_path() -> (r: Option<String>)
    ensures
        r matches Some(p) ==> exists|docs: Seq<char>| p@ == app_dir_text(docs) + "config/names.csv"@,
{
    app_file("config/names.csv")
}

/// The file that keeps the fetched holiday calendar.
pub fn get_hebdate_path() -> (r: Option<String>)
    ensures
        r matches Some(p) ==> exists|docs: Seq<char>| p@ == app_dir_text(docs) + "config/heb_date.json"@,
{
    app_file("config/heb_date.json")
}

/// The configuration file.
pub fn get_config_path() -> (r: Option<String>)
    ensures
        r matches Some(p) ==> exists|docs: Seq<char>| p@ == app_dir_text(docs) + "config/config.json"@,
{
    app_file("config/config.json")
}

/// The file `filename` in the output directory.
pub fn get_output_path(filename: &str) -> (r: Option<String>)
    ensures
        r matches Some(p) ==> exists|docs: Seq<char>| p@ == app_dir_text(docs) + "output/"@ + filename@,
{
    match app_file("output/") {
        Some(dir) => {
            let r = path_in(dir.as_str(), filename);
            Some(r)
        },
        None => None,
    }
}

/// The commands that the interactive front end takes.
pub fn get_help() -> (r: String)
    ensures
        r@ == help_text(),
{
    String::from_str(HELP)
}

pub open spec fn help_text() -> Seq<char> {
    HELP@
}

pub const HELP: &'static str = "Options:
status                                      - Prints current status.
show NUMBER                                 - Show current and NUMBER of following weeks.
switch YYYY-mm-dd YYYY-mm-dd                - Switch between two given dates and update the stored table.
drop [clean|collapse|postpone] YYYY-mm-dd   - Remove a date.
                                                Clean    - Simply remove the date.
                                                Collapse - Replace given date's name with the next date's one.
                                                           repeat for every following date.
                                                Postpone - Move given date's name one day forward and repeat
                                                           for every following name.
resend                                      - Send the message again disregarding built-in limitation.
help                                        - Display this text.";

} // verus!
