use jira_summary::jira_api::{
    check_recording_dir, comment_record_dir, comments_uri, search_uri, ApiRecorder, Comment,
    CommentPager, GetCommentError, GetCommentsResponse, IssueBean, IssueBeanFields,
    JiraClientCreationError, SearchError, SearchPager, SearchResponse, UserDetails,
};

fn issue(key: &str) -> IssueBean {
    IssueBean {
        id: format!("id-{key}"),
        key: key.to_string(),
        fields: IssueBeanFields { summary: format!("summary of {key}") },
    }
}

fn comment(author: &str, updated: &str, body: &str) -> Comment {
    Comment {
        created: updated.to_string(),
        updated: updated.to_string(),
        author: UserDetails { display_name: author.to_string() },
        rendered_body: body.to_string(),
    }
}

#[test]
fn search_starts_at_zero_with_fixed_fields() {
    let p = SearchPager::new("updated >= 2023-1-5".to_string());
    assert_eq!(p.request.jql, "updated >= 2023-1-5");
    assert_eq!(p.request.start_at, 0);
    assert_eq!(p.request.max_results, i32::MAX);
    assert_eq!(p.request.expand, vec!["renderedBody".to_string()]);
    assert_eq!(p.request.fields, vec!["summary".to_string(), "comment".to_string()]);
    assert!(p.issues.is_empty());
}

#[test]
fn search_pages_accumulate_until_total() {
    let mut p = SearchPager::new("q".to_string());
    let page1 = SearchResponse { issues: vec![issue("A-1"), issue("A-2")], start_at: 0, total: 3 };
    assert!(!p.overflows(&page1));
    assert!(matches!(p.take_page(page1), Ok(false)));
    assert_eq!(p.request.start_at, 2);
    let page2 = SearchResponse { issues: vec![issue("A-3")], start_at: 2, total: 3 };
    assert!(matches!(p.take_page(page2), Ok(true)));
    assert_eq!(p.request.start_at, 3);
    let keys: Vec<&str> = p.issues.iter().map(|i| i.key.as_str()).collect();
    assert_eq!(keys, vec!["A-1", "A-2", "A-3"]);
    assert_eq!(p.request.start_at as usize, p.issues.len());
    assert_eq!(p.request.jql, "q");
}

#[test]
fn empty_search_page_with_zero_total_is_last() {
    let mut p = SearchPager::new("q".to_string());
    let page = SearchResponse { issues: vec![], start_at: 0, total: 0 };
    assert!(matches!(p.take_page(page), Ok(true)));
    assert_eq!(p.request.start_at, 0);
}

#[test]
fn search_page_past_total_is_not_last() {
    let mut p = SearchPager::new("q".to_string());
    let page = SearchResponse { issues: vec![issue("A-1")], start_at: 0, total: 0 };
    assert!(matches!(p.take_page(page), Ok(false)));
}

#[test]
fn search_overflow_is_detected() {
    let mut p = SearchPager::new("q".to_string());
    p.request.start_at = i32::MAX;
    let page = SearchResponse { issues: vec![issue("A-1")], start_at: 0, total: 1 };
    assert!(p.overflows(&page));
    let p2 = SearchPager::new("q".to_string());
    let page = SearchResponse { issues: vec![issue("A-1")], start_at: i32::MAX, total: 1 };
    assert!(p2.overflows(&page));
}

#[test]
fn comment_pages_accumulate_until_total() {
    let mut p = CommentPager::new();
    let page1 = GetCommentsResponse {
        comments: vec![comment("a", "t1", "b1")],
        start_at: 0,
        total: 2,
    };
    assert!(!p.overflows(&page1));
    assert!(matches!(p.take_page(page1), Ok(false)));
    assert_eq!(p.start_at, 1);
    let page2 = GetCommentsResponse {
        comments: vec![comment("b", "t2", "b2")],
        start_at: 1,
        total: 2,
    };
    assert!(matches!(p.take_page(page2), Ok(true)));
    assert_eq!(p.start_at, 2);
    let bodies: Vec<&str> = p.comments.iter().map(|c| c.rendered_body.as_str()).collect();
    assert_eq!(bodies, vec!["b1", "b2"]);
}

#[test]
fn comment_overflow_is_detected() {
    let mut p = CommentPager::new();
    p.start_at = i64::MAX;
    let page = GetCommentsResponse { comments: vec![comment("a", "t", "b")], start_at: 0, total: 1 };
    assert!(p.overflows(&page));
}

#[test]
fn addresses_are_built_from_the_base() {
    assert_eq!(search_uri("https://j.example"), "https://j.example/rest/api/3/search");
    assert_eq!(
        comments_uri("https://j.example", "ABC-12", 50),
        "https://j.example/rest/api/3/issue/ABC-12/comment?expand=renderedBody&startAt=50&maxResults=2147483647"
    );
    assert_eq!(comment_record_dir("ABC-12"), "get_comments/ABC-12");
}

#[test]
fn recorder_names_responses_by_count() {
    let mut r = ApiRecorder::new();
    assert_eq!(r.next_file_name(), "0");
    assert_eq!(r.next_file_name(), "1");
    for _ in 0..8 {
        r.next_file_name();
    }
    assert_eq!(r.next_file_name(), "10");
    assert_eq!(r.counter, 11);
}

#[test]
fn recording_dir_must_be_empty() {
    assert!(check_recording_dir(false).is_ok());
    assert!(matches!(
        check_recording_dir(true),
        Err(JiraClientCreationError::RecordingPathNotEmpty)
    ));
}

fn io_error() -> std::io::Error {
    std::io::Error::new(std::io::ErrorKind::Other, "x")
}

fn json_error() -> serde_json::Error {
    serde_json::from_str::<u8>("not json").unwrap_err()
}

fn length_error() -> std::num::TryFromIntError {
    i32::try_from(usize::MAX).unwrap_err()
}

#[test]
fn search_error_messages() {
    assert_eq!(SearchError::SearchResponseParse(json_error()).message(), "failed to parse response");
    assert_eq!(SearchError::ReadResponse(io_error()).message(), "failed to read response");
    assert_eq!(SearchError::InvalidLength(length_error()).message(), "invalid length in response");
    assert_eq!(SearchError::CreateRecorder(io_error()).message(), "failed to create recorder");
    assert_eq!(SearchError::RecordBody(io_error()).message(), "failed to record response");
    assert_eq!(SearchError::ReadReplayDir(io_error()).message(), "failed to read replay dir");
    assert_eq!(SearchError::ReadReplayFile(io_error()).message(), "failed to read replay file");
    let http = isahc::Request::get("\u{0}bad uri").body(()).unwrap_err();
    assert_eq!(SearchError::HttpRequest(http).message(), "failed to generate http request");
}

#[test]
fn comment_error_messages() {
    assert_eq!(GetCommentError::ReadResponse(io_error()).message(), "failed to read http response");
    assert_eq!(
        GetCommentError::GetCommentResponseParse(json_error()).message(),
        "failed to parse response"
    );
    assert_eq!(GetCommentError::InvalidLength(length_error()).message(), "invalid length");
    assert_eq!(GetCommentError::CreateRecorder(io_error()).message(), "failed to create recorder");
    assert_eq!(GetCommentError::RecordBody(io_error()).message(), "failed to record response");
    assert_eq!(GetCommentError::ReadReplayDir(io_error()).message(), "failed to read replay dir");
    assert_eq!(GetCommentError::ReadReplayFile(io_error()).message(), "failed to read replay file");
}

#[test]
fn client_creation_error_messages() {
    assert_eq!(
        JiraClientCreationError::CreateRecordingDir(io_error()).message(),
        "failed to create recording dir"
    );
    assert_eq!(
        JiraClientCreationError::CheckRecordingDir(io_error()).message(),
        "failed to check recording dir content"
    );
    assert_eq!(
        JiraClientCreationError::RecordingPathNotEmpty.message(),
        "recording dir is not empty"
    );
}
