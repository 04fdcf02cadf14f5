//! The maintenance command of the rotation utility, decoded from its
//! command line.

use crate::retention::{keep_days, parse_keep, KeepError};
use crate::text::{parse_u32, parsed_u32, NumberError};
use vstd::prelude::*;

verus! {

/// One decoded maintenance command.
#[allow(non_camel_case_types)]
#[derive(Clone, Copy, Debug, PartialEq, Eq, Structural)]
pub enum ARGUMENT {
    /// Keep the rows of the last so many days and discard older ones.
    KEEP(u32),
    /// Rotate the store through at most so many archive files.
    ROTATE(u32),
    /// Show the earliest and the latest stored instant.
    TIMESTAMP,
    /// Nothing was asked for.
    NONE,
}

/// What the command line holds once options and values are told apart.
#[derive(Debug)]
pub struct RawArguments {
    /// The timestamp flag was given.
    pub timestamp: bool,
    /// The value of the keep option, if given.
    pub keep: Option<String>,
    /// The value of the rotate option, if given.
    pub rotate: Option<String>,
}

/// The content of [`RawArguments`].
pub struct RawArgumentsView {
    /// The timestamp flag was given.
    pub timestamp: bool,
    /// The value of the keep option, if given.
    pub keep: Option<Seq<char>>,
    /// The value of the rotate option, if given.
    pub rotate: Option<Seq<char>>,
}

/// The content of an optional string.
pub open spec fn option_text(s: Option<String>) -> Option<Seq<char>> {
    match s {
        Some(text) => Some(text@),
        None => None,
    }
}

impl View for RawArguments {
    type V = RawArgumentsView;

    open spec fn view(&self) -> RawArgumentsView {
        RawArgumentsView {
            timestamp: self.timestamp,
            keep: option_text(self.keep),
            rotate: option_text(self.rotate),
        }
    }
}

/// The words of a command line.
pub open spec fn words(args: Seq<String>) -> Seq<Seq<char>> {
    args.map_values(|s: String| s@)
}

/// The message for a number that could not be read.
pub open spec fn number_error_text(e: NumberError) -> Seq<char> {
    match e {
        NumberError::Empty => "cannot parse integer from empty string"@,
        NumberError::InvalidDigit => "invalid digit found in string"@,
        NumberError::TooLarge => "number too large to fit in target type"@,
    }
}

/// The message for a horizon that could not be read.
pub open spec fn keep_error_text(e: KeepError) -> Seq<char> {
    match e {
        KeepError::Number(n) => number_error_text(n),
        KeepError::UnknownUnit => "cannot parse argument of unit"@,
    }
}

/// The command that the options denote, or the message that refuses them.
/// The timestamp flag wins over everything else; keep and rotate exclude
/// each other.
pub open spec fn decoded(raw: RawArgumentsView) -> Result<ARGUMENT, Seq<char>> {
    if raw.timestamp {
        Ok(ARGUMENT::TIMESTAMP)
    } else if raw.keep.is_some() && raw.rotate.is_some() {
        Err("cannot use 'keep' and 'rotate' at the same time."@)
    } else if raw.keep.is_some() {
        match keep_days(raw.keep.unwrap()) {
            Ok(days) => Ok(ARGUMENT::KEEP(days)),
            Err(e) => Err(keep_error_text(e)),
        }
    } else if raw.rotate.is_some() {
        match parsed_u32(raw.rotate.unwrap()) {
            Ok(files) => Ok(ARGUMENT::ROTATE(files)),
            Err(e) => Err(number_error_text(e)),
        }
    } else {
        Ok(ARGUMENT::NONE)
    }
}

/// A decoded result and its executable counterpart say the same.
pub open spec fn same_outcome(
    r: Result<ARGUMENT, String>,
    expected: Result<ARGUMENT, Seq<char>>,
) -> bool {
    match r {
        Ok(command) => expected == Ok::<ARGUMENT, Seq<char>>(command),
        Err(message) => expected == Err::<ARGUMENT, Seq<char>>(message@),
    }
}

/// The message for a number that could not be read.
pub fn number_error_message(e: NumberError) -> (r: String)
    ensures
        r@ == number_error_text(e),
{
    match e {
        NumberError::Empty => String::from_str("cannot parse integer from empty string"),
        NumberError::InvalidDigit => String::from_str("invalid digit found in string"),
        NumberError::TooLarge => String::from_str("number too large to fit in target type"),
    }
}

/// The message for a horizon that could not be read.
pub fn keep_error_message(e: KeepError) -> (r: String)
    ensures
        r@ == keep_error_text(e),
{
    match e {
        KeepError::Number(n) => number_error_message(n),
        KeepError::UnknownUnit => String::from_str("cannot parse argument of unit"),
    }
}

/// Decodes the options into one command.
pub fn decode(raw: &RawArguments) -> (r: Result<ARGUMENT, String>)
    ensures
        same_outcome(r, decoded(raw@)),
{
    if raw.timestamp {
        return Ok(ARGUMENT::TIMESTAMP);
    }
    match (&raw.keep, &raw.rotate) {
        (Some(_), Some(_)) => Err(
            String::from_str("cannot use 'keep' and 'rotate' at the same time."),
        ),
        (Some(spec), None) => match parse_keep(spec.as_str()) {
            Ok(days) => Ok(ARGUMENT::KEEP(days)),
            Err(e) => Err(keep_error_message(e)),
        },
        (None, Some(files)) => match parse_u32(files.as_str()) {
            Ok(files) => Ok(ARGUMENT::ROTATE(files)),
            Err(e) => Err(number_error_message(e)),
        },
        (None, None) => Ok(ARGUMENT::NONE),
    }
}

/// What the option parser makes of a command line: the options it found,
/// or `None` where it refuses the line or answers it with a help or version
/// text.
pub uninterp spec fn matched_arguments(args: Seq<Seq<char>>) -> Option<RawArgumentsView>;

/// Runs clap's `App::get_matches_from_safe` on the utility's three options
/// and reads the matches with `ArgMatches::is_present` and
/// `ArgMatches::value_of`. The contract claims only that the options found
/// depend on the words alone; a refusal carries clap's own message.
#[verifier::external_body]
fn match_arguments(args: &Vec<String>) -> (r: Result<RawArguments, String>)
    ensures
        match r {
            Ok(raw) => matched_arguments(words(args@)) == Some(raw@),
            Err(_) => matched_arguments(words(args@)).is_none(),
        },
{
    let app = clap::App::new("dbrot").version("0.1.0").about("rotation log in sqlite3")
        .arg_from_usage("-k, --keep [time_spec] 'Keep log days, months or years.\nFor example, 7d, 1m(60 days) or 2y.'")
        .arg_from_usage("-r, --rotate [rotate] 'Number of log files shoud be kept.'")
        .arg_from_usage("-t, --timestamp 'Display earliest and latest timestamp'");
    match app.get_matches_from_safe(args) {
        Ok(m) => Ok(RawArguments {
            timestamp: m.is_present("timestamp"),
            keep: m.value_of("keep").map(String::from),
            rotate: m.value_of("rotate").map(String::from),
        }),
        Err(e) => Err(e.message),
    }
}

/// Decodes a command line, program name first, into one command.
///
/// Where the option parser refuses the line, its message is the error. The
/// help and version texts name the utility as `dbrot 0.1.0` and carry no
/// author line.
pub fn parse_args(args: Vec<String>) -> (r: Result<ARGUMENT, String>)
    ensures
        match matched_arguments(words(args@)) {
            Some(raw) => same_outcome(r, decoded(raw)),
            None => r.is_err(),
        },
{
    match match_arguments(&args) {
        Ok(raw) => decode(&raw),
        Err(message) => Err(message),
    }
}

} // verus!
