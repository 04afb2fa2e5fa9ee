use jira_summary::date::Date;
use jira_summary::jira_api::{Comment, IssueBean, IssueBeanFields, UserDetails};
use jira_summary::summary::{
    auth_file_exists, issue_part, issue_section, issue_step, keep_comment, page_head, page_tail,
    search_jql, select_comments, summary_page, time_comments, AuthData, GetAuthError, IssueStep,
    MainError,
};

fn comment(author: &str, updated: &str, body: &str) -> Comment {
    edited_comment(author, updated, updated, body)
}

fn edited_comment(author: &str, created: &str, updated: &str, body: &str) -> Comment {
    Comment {
        created: created.to_string(),
        updated: updated.to_string(),
        author: UserDetails { display_name: author.to_string() },
        rendered_body: body.to_string(),
    }
}

#[test]
fn jql_writes_the_date_without_padding() {
    assert_eq!(search_jql(&Date { year: 2023, month: 1, day: 5 }), "updated >= 2023-1-5");
    assert_eq!(search_jql(&Date { year: 1999, month: 12, day: 31 }), "updated >= 1999-12-31");
}

#[test]
fn timestamps_are_parsed_in_their_own_offset() {
    let timed = time_comments(vec![
        comment("a", "2023-01-05T23:30:00.000-0500", "x"),
        comment("b", "2023-01-06T00:15:30.250+0100", "y"),
    ])
    .unwrap();
    assert_eq!(timed[0].time.date, Date { year: 2023, month: 1, day: 5 });
    assert_eq!(timed[0].time.text, "2023-01-05 23:30:00 -05:00");
    assert_eq!(timed[1].time.date, Date { year: 2023, month: 1, day: 6 });
    assert_eq!(timed[1].time.text, "2023-01-06 00:15:30.250 +01:00");
    assert_eq!(timed[1].comment.rendered_body, "y");
}

#[test]
fn unparsable_timestamp_gives_none() {
    assert!(time_comments(vec![
        comment("a", "2023-01-05T23:30:00.000-0500", "x"),
        comment("b", "last tuesday", "y"),
    ])
    .is_none());
    assert!(select_comments(vec![comment("z", "2023-01-05", "y")], "a", &Date { year: 2000, month: 1, day: 1 }).is_none());
}

#[test]
fn selection_keeps_the_users_recent_comments_in_order() {
    let start = Date { year: 2023, month: 1, day: 5 };
    let comments = vec![
        comment("Ada", "2023-01-04T12:00:00.000+0000", "too early"),
        comment("Ada", "2023-01-05T00:00:00.000+0000", "first"),
        comment("Bob", "2023-02-01T12:00:00.000+0000", "someone else"),
        comment("Ada", "2024-03-01T08:00:00.000+0200", "second"),
        comment("ada", "2024-03-01T08:00:00.000+0200", "case differs"),
    ];
    let kept = select_comments(comments, "Ada", &start).unwrap();
    let bodies: Vec<&str> = kept.iter().map(|t| t.comment.rendered_body.as_str()).collect();
    assert_eq!(bodies, vec!["first", "second"]);
    for t in &kept {
        assert!(keep_comment(&t.comment, &t.created, "Ada", &start));
    }
}

#[test]
fn no_comment_selected_for_unknown_user() {
    let start = Date { year: 2000, month: 1, day: 1 };
    let kept = select_comments(vec![comment("Ada", "2023-01-04T12:00:00.000+0000", "x")], "Eve", &start).unwrap();
    assert!(kept.is_empty());
}

#[test]
fn page_frame() {
    assert_eq!(
        page_head(),
        "<head>\n\t<link rel=\"stylesheet\" href=\"/water.css\">\n\t<link rel=\"stylesheet\" href=\"/index.css\">\n\t<meta content=\"text/html;charset=utf-8\" http-equiv=\"Content-Type\">\n\t<meta content=\"utf-8\" http-equiv=\"encoding\">\n\t<script src=\"index.js\" defer></script>\n</head>\n<body>\n"
    );
    assert_eq!(page_tail(), "</body>");
}

#[test]
fn issue_section_lists_comments() {
    let issue = IssueBean {
        id: "1".to_string(),
        key: "ABC-1".to_string(),
        fields: IssueBeanFields { summary: "Fix it".to_string() },
    };
    let start = Date { year: 2023, month: 1, day: 1 };
    let kept = select_comments(
        vec![
            comment("Ada", "2023-01-05T10:00:00.000+0100", "<p>one</p>"),
            comment("Ada", "2023-01-06T11:00:00.000+0100", "<p>two</p>"),
        ],
        "Ada",
        &start,
    )
    .unwrap();
    assert_eq!(
        issue_section("https://j", &issue, &kept),
        "<h2 class=collapsible-header>\n<a href=https://j/browse/ABC-1>ABC-1</a>: Fix it\n</h2>\n<div class=collapsible-content>\n<h3>2023-01-05 10:00:00 +01:00</h3>\n<p>one</p>\n<h3>2023-01-06 11:00:00 +01:00</h3>\n<p>two</p>\n</div>\n"
    );
}

#[test]
fn credentials_default_is_unset() {
    let d = AuthData::default();
    assert!(d.is_unset());
    assert!(!AuthData { user: "u".to_string(), password: String::new() }.is_unset());
    assert!(!AuthData { user: String::new(), password: "p".to_string() }.is_unset());
}

#[test]
fn credentials_path_checks() {
    assert!(matches!(auth_file_exists(None), Ok(false)));
    assert!(matches!(auth_file_exists(Some(true)), Ok(true)));
    assert!(matches!(auth_file_exists(Some(false)), Err(GetAuthError::AuthPathNotFile)));
}

#[test]
fn auth_and_main_error_texts() {
    assert_eq!(GetAuthError::NoConfigDir.message(), "no config dir");
    assert_eq!(GetAuthError::AuthPathNotFile.message(), "auth config is not a file");
    let io = || std::io::Error::new(std::io::ErrorKind::Other, "x");
    assert_eq!(GetAuthError::AuthDirCreate(io()).message(), "could not create auth dir");
    assert_eq!(GetAuthError::AuthFileOpen(io()).message(), "failed to open auth file");
    assert_eq!(MainError::DefaultAuth.headline(), "auth is not populated with user data");
    assert_eq!(MainError::WriteCss(io()).headline(), "failed to write css to output");
    assert_eq!(MainError::OutputWriteFailed(io()).headline(), "failed to write to output");
    assert_eq!(
        MainError::ArgParseError(jira_summary::args::ArgParseError::MissingUri).headline(),
        "failed to parse arguments"
    );
}

fn issue(key: &str, summary: &str) -> IssueBean {
    IssueBean {
        id: "1".to_string(),
        key: key.to_string(),
        fields: IssueBeanFields { summary: summary.to_string() },
    }
}

#[test]
fn issue_without_kept_comments_has_no_part() {
    assert_eq!(issue_part("https://j", &issue("A-1", "s"), &Vec::new()), "");
}

#[test]
fn summary_page_has_head_parts_and_tail() {
    let start = Date { year: 2023, month: 1, day: 1 };
    let kept = |body: &str| {
        select_comments(vec![comment("Ada", "2023-01-05T10:00:00.000+0100", body)], "Ada", &start).unwrap()
    };
    let issues = vec![
        (issue("A-1", "first"), kept("<p>a</p>")),
        (issue("A-2", "skipped"), Vec::new()),
        (issue("A-3", "third"), kept("<p>c</p>")),
    ];
    let expected = format!(
        "{}{}{}</body>",
        page_head(),
        issue_section("https://j", &issues[0].0, &issues[0].1),
        issue_section("https://j", &issues[2].0, &issues[2].1)
    );
    assert_eq!(summary_page("https://j", &issues), expected);
    assert!(!expected.contains("A-2"));
}

#[test]
fn empty_summary_page() {
    assert_eq!(summary_page("https://j", &Vec::new()), format!("{}</body>", page_head()));
}

#[test]
fn error_report_head_lines() {
    assert_eq!(MainError::DefaultAuth.report_head(), "auth is not populated with user data\n");
    assert_eq!(
        MainError::ArgParseError(jira_summary::args::ArgParseError::InvalidArg("-q".to_string())).report_head(),
        "failed to parse arguments\ncaused by: invalid arg: -q\n"
    );
    assert_eq!(
        MainError::Auth(GetAuthError::NoConfigDir).report_head(),
        "failed to get authorization\ncaused by: no config dir\n"
    );
    let io = std::io::Error::new(std::io::ErrorKind::Other, "x");
    assert_eq!(MainError::OpenOutput(io).report_head(), "failed to open output\n");
}

#[test]
fn selection_goes_by_the_day_a_comment_was_made() {
    let start = Date { year: 2023, month: 1, day: 5 };
    let comments = vec![
        edited_comment("Ada", "2023-01-04T12:00:00.000+0000", "2023-01-06T12:00:00.000+0000", "old, edited later"),
        edited_comment("Ada", "2023-01-05T09:00:00.000+0000", "2023-01-07T10:30:00.000+0000", "new, edited"),
    ];
    let kept = select_comments(comments, "Ada", &start).unwrap();
    assert_eq!(kept.len(), 1);
    assert_eq!(kept[0].comment.rendered_body, "new, edited");
    assert_eq!(kept[0].created, Date { year: 2023, month: 1, day: 5 });
    assert_eq!(kept[0].time.text, "2023-01-07 10:30:00 +00:00");
}

#[test]
fn unparsable_creation_time_gives_none() {
    let c = edited_comment("Ada", "someday", "2023-01-06T12:00:00.000+0000", "x");
    assert!(time_comments(vec![c]).is_none());
}

#[test]
fn issue_steps() {
    let start = Date { year: 2023, month: 1, day: 5 };
    let err = issue_step(Err(MainError::DefaultAuth), "Ada", &start).unwrap();
    assert!(matches!(err, IssueStep::FetchFailed(MainError::DefaultAuth)));
    let none = issue_step(
        Ok((issue("A-1", "s"), vec![comment("Bob", "2023-01-06T12:00:00.000+0000", "x")])),
        "Ada",
        &start,
    )
    .unwrap();
    assert!(matches!(none, IssueStep::NothingKept));
    let show = issue_step(
        Ok((issue("A-2", "s"), vec![comment("Ada", "2023-01-06T12:00:00.000+0000", "x")])),
        "Ada",
        &start,
    )
    .unwrap();
    match show {
        IssueStep::Show(i, kept) => {
            assert_eq!(i.key, "A-2");
            assert_eq!(kept.len(), 1);
        }
        _ => panic!("expected Show"),
    }
    assert!(issue_step(
        Ok((issue("A-3", "s"), vec![comment("Ada", "bad", "x")])),
        "Ada",
        &start
    )
    .is_none());
}
