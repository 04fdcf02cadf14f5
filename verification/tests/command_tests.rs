use co2db::command::{decode, parse_args, RawArguments, ARGUMENT};
use co2db::retention::{parse_keep, retain_days, KeepError, TimeUnit};
use co2db::text::NumberError;

fn args(words: &[&str]) -> Vec<String> {
    words.iter().map(|w| w.to_string()).collect()
}

#[test]
fn parse_test() {
    let args: Vec<String> = vec!["dbrot".to_string(), "-k".to_string(), "3".to_string()];
    assert_eq!(parse_args(args), Ok(ARGUMENT::KEEP(3)));
    let args: Vec<String> = vec!["dbrot".to_string(), "-k".to_string(), "3d".to_string()];
    assert_eq!(parse_args(args), Ok(ARGUMENT::KEEP(3)));
    let args: Vec<String> = vec!["dbrot".to_string(), "-k".to_string(), "3w".to_string()];
    assert_eq!(parse_args(args), Ok(ARGUMENT::KEEP(21)));
    let args: Vec<String> = vec!["dbrot".to_string(), "-k".to_string(), "3m".to_string()];
    assert_eq!(parse_args(args), Ok(ARGUMENT::KEEP(90)));
    let args: Vec<String> = vec!["dbrot".to_string(), "-k".to_string(), "3y".to_string()];
    assert_eq!(parse_args(args), Ok(ARGUMENT::KEEP(3 * 365)));
    let args: Vec<String> = vec!["dbrot".to_string(), "--keep".to_string(), "3".to_string()];
    assert_eq!(parse_args(args), Ok(ARGUMENT::KEEP(3)));
    let args: Vec<String> = vec!["dbrot".to_string(), "--keep".to_string(), "3d".to_string()];
    assert_eq!(parse_args(args), Ok(ARGUMENT::KEEP(3)));
    let args: Vec<String> = vec!["dbrot".to_string(), "--keep".to_string(), "3w".to_string()];
    assert_eq!(parse_args(args), Ok(ARGUMENT::KEEP(21)));
    let args: Vec<String> = vec!["dbrot".to_string(), "--keep".to_string(), "3m".to_string()];
    assert_eq!(parse_args(args), Ok(ARGUMENT::KEEP(90)));
    let args: Vec<String> = vec!["dbrot".to_string(), "--keep".to_string(), "3y".to_string()];
    assert_eq!(parse_args(args), Ok(ARGUMENT::KEEP(3 * 365)));

    let args: Vec<String> = vec!["dbrot".to_string(), "-r".to_string(), "3".to_string()];
    assert_eq!(parse_args(args), Ok(ARGUMENT::ROTATE(3)));
    let args: Vec<String> = vec!["dbrot".to_string(), "--rotate".to_string(), "3".to_string()];
    assert_eq!(parse_args(args), Ok(ARGUMENT::ROTATE(3)));
}

#[test]
fn parse_args_without_options_is_no_op() {
    assert_eq!(parse_args(args(&["dbrot"])), Ok(ARGUMENT::NONE));
    assert_eq!(parse_args(Vec::new()), Ok(ARGUMENT::NONE));
}

#[test]
fn parse_args_timestamp_flag() {
    assert_eq!(parse_args(args(&["dbrot", "-t"])), Ok(ARGUMENT::TIMESTAMP));
    assert_eq!(parse_args(args(&["dbrot", "--timestamp"])), Ok(ARGUMENT::TIMESTAMP));
    assert_eq!(parse_args(args(&["dbrot", "-t", "-k", "3", "-r", "4"])), Ok(ARGUMENT::TIMESTAMP));
}

#[test]
fn parse_args_refuses_bad_values() {
    assert!(parse_args(args(&["dbrot", "-k", "10.0"])).is_err());
    assert_eq!(
        parse_args(args(&["dbrot", "--keep", "10x"])),
        Err("cannot parse argument of unit".to_string())
    );
    assert!(parse_args(args(&["dbrot", "-r", "10x"])).is_err());
    assert!(parse_args(args(&["dbrot", "--rotate", "10.0"])).is_err());
    assert_eq!(
        parse_args(args(&["dbrot", "-k", "3", "-r", "4"])),
        Err("cannot use 'keep' and 'rotate' at the same time.".to_string())
    );
}

#[test]
fn parse_args_refuses_unknown_option() {
    let r = parse_args(args(&["dbrot", "-a"]));
    let message = r.unwrap_err();
    assert!(message.contains("which wasn't expected, or isn't valid in this context"));
    assert!(message.contains("USAGE:\n    dbrot [FLAGS] [OPTIONS]"));
}

#[test]
fn parse_args_help_lists_the_options() {
    let message = parse_args(args(&["dbrot", "-h"])).unwrap_err();
    let expected = "rotation log in sqlite3\n\nUSAGE:\n    dbrot [FLAGS] [OPTIONS]\n\nFLAGS:\n    -h, --help         Prints help information\n    -t, --timestamp    Display earliest and latest timestamp\n    -V, --version      Prints version information\n\nOPTIONS:\n    -k, --keep <time_spec>    Keep log days, months or years.\n                              For example, 7d, 1m(60 days) or 2y.\n    -r, --rotate <rotate>     Number of log files shoud be kept.";
    assert!(message.starts_with("dbrot "));
    assert!(message.ends_with(expected));
}

#[test]
fn decode_follows_the_options() {
    let raw = |timestamp: bool, keep: Option<&str>, rotate: Option<&str>| RawArguments {
        timestamp,
        keep: keep.map(String::from),
        rotate: rotate.map(String::from),
    };
    assert_eq!(decode(&raw(false, None, None)), Ok(ARGUMENT::NONE));
    assert_eq!(decode(&raw(true, None, None)), Ok(ARGUMENT::TIMESTAMP));
    assert_eq!(decode(&raw(true, Some("x"), Some("y"))), Ok(ARGUMENT::TIMESTAMP));
    assert_eq!(decode(&raw(false, Some("2y"), None)), Ok(ARGUMENT::KEEP(730)));
    assert_eq!(decode(&raw(false, None, Some("15"))), Ok(ARGUMENT::ROTATE(15)));
    assert_eq!(decode(&raw(false, None, Some("0"))), Ok(ARGUMENT::ROTATE(0)));
    assert_eq!(
        decode(&raw(false, Some("1"), Some("1"))),
        Err("cannot use 'keep' and 'rotate' at the same time.".to_string())
    );
    assert_eq!(
        decode(&raw(false, None, Some(""))),
        Err("cannot parse integer from empty string".to_string())
    );
    assert_eq!(
        decode(&raw(false, None, Some("-1"))),
        Err("invalid digit found in string".to_string())
    );
    assert_eq!(
        decode(&raw(false, None, Some("4294967296"))),
        Err("number too large to fit in target type".to_string())
    );
    assert_eq!(
        decode(&raw(false, Some("1.5d"), None)),
        Err("invalid digit found in string".to_string())
    );
    assert_eq!(
        decode(&raw(false, Some("d"), None)),
        Err("cannot parse integer from empty string".to_string())
    );
    assert_eq!(
        decode(&raw(false, Some("7q"), None)),
        Err("cannot parse argument of unit".to_string())
    );
}

#[test]
fn keep_reads_counts_and_units() {
    assert_eq!(parse_keep("0"), Ok(0));
    assert_eq!(parse_keep("7"), Ok(7));
    assert_eq!(parse_keep("+7"), Ok(7));
    assert_eq!(parse_keep("007"), Ok(7));
    assert_eq!(parse_keep("7d"), Ok(7));
    assert_eq!(parse_keep("2w"), Ok(14));
    assert_eq!(parse_keep("1m"), Ok(30));
    assert_eq!(parse_keep("2y"), Ok(730));
    assert_eq!(parse_keep("4294967295"), Ok(u32::MAX));
    assert_eq!(parse_keep("4294967295d"), Ok(u32::MAX));
}

#[test]
fn keep_refuses_what_is_no_horizon() {
    assert_eq!(parse_keep(""), Err(KeepError::Number(NumberError::Empty)));
    assert_eq!(parse_keep("w"), Err(KeepError::Number(NumberError::Empty)));
    assert_eq!(parse_keep("3x"), Err(KeepError::UnknownUnit));
    assert_eq!(parse_keep("3D"), Err(KeepError::UnknownUnit));
    assert_eq!(parse_keep("3 d"), Err(KeepError::Number(NumberError::InvalidDigit)));
    assert_eq!(parse_keep("-3d"), Err(KeepError::Number(NumberError::InvalidDigit)));
    assert_eq!(parse_keep("10.0"), Err(KeepError::Number(NumberError::InvalidDigit)));
    assert_eq!(parse_keep("+"), Err(KeepError::Number(NumberError::Empty)));
    assert_eq!(parse_keep("4294967296"), Err(KeepError::UnknownUnit));
    assert_eq!(parse_keep("4294967296d"), Err(KeepError::Number(NumberError::TooLarge)));
    assert_eq!(parse_keep("4294967295w"), Err(KeepError::Number(NumberError::TooLarge)));
    assert_eq!(parse_keep("11767034y"), Err(KeepError::Number(NumberError::TooLarge)));
    assert_eq!(parse_keep("11767033y"), Ok(4_294_967_045));
}

#[test]
fn units_last_their_days() {
    assert_eq!(TimeUnit::Day.days(), 1);
    assert_eq!(TimeUnit::Week.days(), 7);
    assert_eq!(TimeUnit::Month.days(), 30);
    assert_eq!(TimeUnit::Year.days(), 365);
    assert_eq!(TimeUnit::from_letter('w'), Some(TimeUnit::Week));
    assert_eq!(TimeUnit::from_letter('W'), None);
    assert_eq!(retain_days(3, TimeUnit::Month), Ok(90));
    assert_eq!(retain_days(u32::MAX, TimeUnit::Week), Err(KeepError::Number(NumberError::TooLarge)));
}
