use jira_summary::args::{ArgParseError, Args, ArgsCommand, ArgsDraft};
use jira_summary::date::Date;

fn line(items: &[&str]) -> Vec<String> {
    items.iter().map(|s| s.to_string()).collect()
}

fn run_args(items: &[&str]) -> Args {
    match Args::from_iter(&line(items)) {
        Ok(ArgsCommand::Run(a)) => a,
        Ok(ArgsCommand::ShowHelp) => panic!("unexpected help"),
        Err(e) => panic!("unexpected error {:?}", e),
    }
}

#[test]
fn full_command_line_is_read() {
    let a = run_args(&[
        "prog", "--uri", "https://x.atlassian.net", "--user", "Ada L", "--output", "out",
        "--start-date", "2023-01-05",
    ]);
    assert_eq!(a.uri, "https://x.atlassian.net");
    assert_eq!(a.user, "Ada L");
    assert_eq!(a.output, "out");
    assert_eq!(a.start_date, Date { year: 2023, month: 1, day: 5 });
}

#[test]
fn options_may_come_in_any_order() {
    let a = run_args(&[
        "prog", "--start-date", "1999-12-31", "--output", "o", "--user", "u", "--uri", "i",
    ]);
    assert_eq!(a.uri, "i");
    assert_eq!(a.start_date, Date { year: 1999, month: 12, day: 31 });
}

#[test]
fn later_occurrence_replaces_earlier() {
    let a = run_args(&[
        "prog", "--user", "first", "--uri", "i", "--output", "o", "--start-date", "2020-01-01",
        "--user", "second", "--start-date", "2021-02-03",
    ]);
    assert_eq!(a.user, "second");
    assert_eq!(a.start_date, Date { year: 2021, month: 2, day: 3 });
}

#[test]
fn trailing_value_option_clears_it() {
    let r = Args::from_iter(&line(&[
        "prog", "--uri", "i", "--output", "o", "--start-date", "2020-01-01", "--user", "u",
        "--user",
    ]));
    assert!(matches!(r, Err(ArgParseError::MissingUser)));
}

#[test]
fn trailing_start_date_keeps_earlier_date() {
    let a = run_args(&[
        "prog", "--uri", "i", "--output", "o", "--user", "u", "--start-date", "2020-01-01",
        "--start-date",
    ]);
    assert_eq!(a.start_date, Date { year: 2020, month: 1, day: 1 });
}

#[test]
fn help_stops_reading() {
    let r = Args::from_iter(&line(&["prog", "--uri", "i", "--help", "--bogus"]));
    assert!(matches!(r, Ok(ArgsCommand::ShowHelp)));
}

#[test]
fn unknown_argument_is_refused() {
    let r = Args::from_iter(&line(&["prog", "--uri", "i", "--colour", "red"]));
    match r {
        Err(ArgParseError::InvalidArg(s)) => assert_eq!(s, "--colour"),
        _ => panic!("expected InvalidArg"),
    }
}

#[test]
fn program_name_is_skipped_even_if_it_looks_like_an_option() {
    let r = Args::from_iter(&line(&["--help"]));
    assert!(matches!(r, Err(ArgParseError::MissingUri)));
}

#[test]
fn empty_command_line_misses_uri() {
    let r = Args::from_iter(&Vec::new());
    assert!(matches!(r, Err(ArgParseError::MissingUri)));
}

#[test]
fn missing_options_are_reported_in_order() {
    assert!(matches!(
        Args::from_iter(&line(&["p", "--user", "u", "--output", "o"])),
        Err(ArgParseError::MissingUri)
    ));
    assert!(matches!(
        Args::from_iter(&line(&["p", "--uri", "i", "--output", "o"])),
        Err(ArgParseError::MissingUser)
    ));
    assert!(matches!(
        Args::from_iter(&line(&["p", "--uri", "i", "--user", "u"])),
        Err(ArgParseError::MissingOutput)
    ));
    assert!(matches!(
        Args::from_iter(&line(&["p", "--uri", "i", "--user", "u", "--output", "o"])),
        Err(ArgParseError::MissingDate)
    ));
}

#[test]
fn unreadable_date_is_refused() {
    let r = Args::from_iter(&line(&["p", "--start-date", "yesterday", "--bogus"]));
    assert!(matches!(r, Err(ArgParseError::InvalidDate(_))));
    let r = Args::from_iter(&line(&["p", "--start-date", "2023-02-30"]));
    assert!(matches!(r, Err(ArgParseError::InvalidDate(_))));
}

#[test]
fn draft_takes_parsed_date() {
    let mut d = ArgsDraft::new();
    assert!(d.take_start_date(Ok(Date { year: 2001, month: 9, day: 9 })).is_ok());
    assert_eq!(d.start_date, Some(Date { year: 2001, month: 9, day: 9 }));
    let err = "nope".parse::<chrono::NaiveDate>().unwrap_err();
    match d.take_start_date(Err(err)) {
        Err(ArgParseError::InvalidDate(e)) => assert_eq!(e, err),
        _ => panic!("expected InvalidDate"),
    }
    assert_eq!(d.start_date, Some(Date { year: 2001, month: 9, day: 9 }));
}

#[test]
fn help_text_names_the_program() {
    let h = Args::help("jira_tool");
    assert_eq!(
        h,
        "Usage:\njira_tool [opts]\n\nExample:\njira_tool --uri https://my-jira-instance.atlassian.net --user \"Display Name\" --output output_folder\n\nOptions:\n--uri          Uri to jira instance\n--user         Display name to filter results with\n--output       Where to output the processed data\n--start-date   Initial date in form of YYYY-MM-DD\n"
    );
}

#[test]
fn argument_error_messages() {
    assert_eq!(ArgParseError::MissingUri.message(), "missing uri");
    assert_eq!(ArgParseError::MissingUser.message(), "missing user");
    assert_eq!(ArgParseError::MissingOutput.message(), "missing output");
    assert_eq!(ArgParseError::MissingDate.message(), "missing date");
    let err = "nope".parse::<chrono::NaiveDate>().unwrap_err();
    assert_eq!(ArgParseError::InvalidDate(err).message(), "invalid date");
    assert_eq!(ArgParseError::InvalidArg("-x".to_string()).message(), "invalid arg: -x");
}

#[test]
fn dates_order_by_year_month_day() {
    let a = Date { year: 2023, month: 1, day: 5 };
    assert!(a.is_on_or_after(&a));
    assert!(a.is_on_or_after(&Date { year: 2022, month: 12, day: 31 }));
    assert!(!a.is_on_or_after(&Date { year: 2023, month: 1, day: 6 }));
    assert!(!a.is_on_or_after(&Date { year: 2023, month: 2, day: 1 }));
    assert!(a.is_on_or_after(&Date { year: 2023, month: 1, day: 4 }));
}

#[test]
fn option_order_gives_same_result() {
    let a = run_args(&["p", "--uri", "i", "--user", "u", "--output", "o", "--start-date", "2022-03-04"]);
    let b = run_args(&["p", "--start-date", "2022-03-04", "--output", "o", "--uri", "i", "--user", "u"]);
    assert_eq!((a.uri, a.user, a.output, a.start_date), (b.uri, b.user, b.output, b.start_date));
    let e1 = Args::from_iter(&line(&["p", "--uri", "i", "--start-date", "bad"]));
    let e2 = Args::from_iter(&line(&["p", "--start-date", "bad", "--uri", "i"]));
    assert!(matches!(e1, Err(ArgParseError::InvalidDate(_))));
    assert!(matches!(e2, Err(ArgParseError::InvalidDate(_))));
}
