use vstd::prelude::*;

use crate::calendar::{parse_date, ymd_text_day};
use crate::gate::{parse_code, parse_u32, split_words, whitespace_words};
use crate::roster::DropType;
use crate::scheduler::Request;

verus! {

/// Why a command line was not understood.
#[derive(PartialEq, Eq, Structural, Clone, Copy, Debug)]
pub enum CliError {
    /// `show` was given something other than a number of weeks.
    ShowNumber,
    /// The command was given the wrong number of parameters.
    ParamCount,
    /// The first date of `switch` is no `YYYY-MM-DD` date.
    FirstDate,
    /// The second date of `switch` is no `YYYY-MM-DD` date.
    SecondDate,
    /// `drop` was given an action other than `postpone`, `collapse` or `clean`.
    DropAction,
    /// The date of `drop` is no `YYYY-MM-DD` date.
    DropDate,
}

/// The text shown for error `e`.
pub open spec fn error_text(e: CliError) -> Seq<char> {
    match e {
        CliError::ShowNumber => "Error: Could not parse NUMBER in `show NUMBER`. NUMBER must be a positive integer."@,
        CliError::ParamCount => "Incorrect number of parameters"@,
        CliError::FirstDate => "First date could not be parsed. Expecting YYYY-mm-dd"@,
        CliError::SecondDate => "Second date could not be parsed. Expecting YYYY-mm-dd"@,
        CliError::DropAction => "Second parameter must be \"postpone\", \"collapse\" or \"clean\". "@,
        CliError::DropDate => "Date format must be YYYY-MM-DD"@,
    }
}

impl CliError {
    /// The text shown for the error.
    pub fn message(&self) -> (r: String)
        ensures
            r@ == error_text(*self),
    {
        match self {
            CliError::ShowNumber => String::from_str(
                "Error: Could not parse NUMBER in `show NUMBER`. NUMBER must be a positive integer.",
            ),
            CliError::ParamCount => String::from_str("Incorrect number of parameters"),
            CliError::FirstDate => String::from_str(
                "First date could not be parsed. Expecting YYYY-mm-dd",
            ),
            CliError::SecondDate => String::from_str(
                "Second date could not be parsed. Expecting YYYY-mm-dd",
            ),
            CliError::DropAction => String::from_str(
                "Second parameter must be \"postpone\", \"collapse\" or \"clean\". ",
            ),
            CliError::DropDate => String::from_str("Date format must be YYYY-MM-DD"),
        }
    }
}

/// What a command line asks for.
pub enum Command {
    /// A request for the owner of the roster.
    Ask(Request),
    /// The help text.
    Help,
    /// A command that was not understood.
    Invalid(CliError),
    /// Nothing: an empty line or an unknown command.
    Nothing,
}

/// The number of weeks that `show` lists when it is given none.
pub const DEFAULT_WEEKS: usize = 2;

/// What the words `ws` ask for (see the help text): `status`; `show`, with an
/// optional number of following weeks; `switch` with two dates; `resend`;
/// `drop` with an action and a date; `help`.
pub open spec fn command_of(ws: Seq<Seq<char>>) -> Command {
    if ws.len() == 0 {
        Command::Nothing
    } else if ws[0] == "status"@ {
        Command::Ask(Request::Status)
    } else if ws[0] == "show"@ {
        if ws.len() == 1 {
            Command::Ask(Request::Show(DEFAULT_WEEKS))
        } else {
            match parse_u32(ws[1]) {
                Some(v) => if v < u32::MAX {
                    Command::Ask(Request::Show((v + 1) as usize))
                } else {
                    Command::Invalid(CliError::ShowNumber)
                },
                None => Command::Invalid(CliError::ShowNumber),
            }
        }
    } else if ws[0] == "switch"@ {
        if ws.len() != 3 {
            Command::Invalid(CliError::ParamCount)
        } else {
            match (ymd_text_day(ws[1]), ymd_text_day(ws[2])) {
                (Some(d1), Some(d2)) => Command::Ask(Request::Switch(d1 as i32, d2 as i32)),
                (None, _) => Command::Invalid(CliError::FirstDate),
                (Some(_), None) => Command::Invalid(CliError::SecondDate),
            }
        }
    } else if ws[0] == "resend"@ {
        Command::Ask(Request::Resend)
    } else if ws[0] == "drop"@ {
        if ws.len() != 3 {
            Command::Invalid(CliError::ParamCount)
        } else {
            match ymd_text_day(ws[2]) {
                None => Command::Invalid(CliError::DropDate),
                Some(d) => if ws[1] == "postpone"@ {
                    Command::Ask(Request::Drop(DropType::Postpone, d as i32))
                } else if ws[1] == "collapse"@ {
                    Command::Ask(Request::Drop(DropType::Collapse, d as i32))
                } else if ws[1] == "clean"@ {
                    Command::Ask(Request::Drop(DropType::Clean, d as i32))
                } else {
                    Command::Invalid(CliError::DropAction)
                },
            }
        }
    } else if ws[0] == "help"@ {
        Command::Help
    } else {
        Command::Nothing
    }
}

/// Whether `w` is the word `lit`.
fn is_word(w: &String, lit: &str) -> (b: bool)
    ensures
        b == (w@ == lit@),
{
    let l = String::from_str(lit);
    *w == l
}

/// What the words `params` ask for.
pub fn parse_command(params: &Vec<String>) -> (r: Command)
    ensures
        r == command_of(params@.map_values(|w: String| w@)),
{
    let ghost ws = params@.map_values(|w: String| w@);
    if params.len() == 0 {
        return Command::Nothing;
    }
    assert(ws[0] == params@[0]@);
    let n = params.len();
    if is_word(&params[0], "status") {
        Command::Ask(Request::Status)
    } else if is_word(&params[0], "show") {
        if n == 1 {
            Command::Ask(Request::Show(DEFAULT_WEEKS))
        } else {
            assert(ws[1] == params@[1]@);
            match parse_code(params[1].as_str()) {
                Some(v) => if v < u32::MAX {
                    Command::Ask(Request::Show(v as usize + 1))
                } else {
                    Command::Invalid(CliError::ShowNumber)
                },
                None => Command::Invalid(CliError::ShowNumber),
            }
        }
    } else if is_word(&params[0], "switch") {
        if n != 3 {
            Command::Invalid(CliError::ParamCount)
        } else {
            assert(ws[1] == params@[1]@);
            assert(ws[2] == params@[2]@);
            match parse_date(params[1].as_str()) {
                None => Command::Invalid(CliError::FirstDate),
                Some(d1) => match parse_date(params[2].as_str()) {
                    None => Command::Invalid(CliError::SecondDate),
                    Some(d2) => Command::Ask(Request::Switch(d1, d2)),
                },
            }
        }
    } else if is_word(&params[0], "resend") {
        Command::Ask(Request::Resend)
    } else if is_word(&params[0], "drop") {
        if n != 3 {
            Command::Invalid(CliError::ParamCount)
        } else {
            assert(ws[1] == params@[1]@);
            assert(ws[2] == params@[2]@);
            match parse_date(params[2].as_str()) {
                None => Command::Invalid(CliError::DropDate),
                Some(d) => if is_word(&params[1], "postpone") {
                    Command::Ask(Request::Drop(DropType::Postpone, d))
                } else if is_word(&params[1], "collapse") {
                    Command::Ask(Request::Drop(DropType::Collapse, d))
                } else if is_word(&params[1], "clean") {
                    Command::Ask(Request::Drop(DropType::Clean, d))
                } else {
                    Command::Invalid(CliError::DropAction)
                },
            }
        }
    } else if is_word(&params[0], "help") {
        Command::Help
    } else {
        Command::Nothing
    }
}

/// What the command line `line` asks for: its whitespace-separated words read
/// as `parse_command` reads them.
pub fn parse_line(line: &str) -> (r: Command)
    ensures
        r == command_of(whitespace_words(line@)),
{
    let ws = split_words(line);
    parse_command(&ws)
}

} // verus!
