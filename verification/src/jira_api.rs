//! The Jira REST API as the tool uses it: the records it exchanges, the
//! addresses it calls, and the paging through search results and comments.

use vstd::prelude::*;
use vstd::string::*;
use crate::text::{
    int_decimal, int_decimal_reads_back, nat_decimal_injective, push_signed, push_str,
    signed_decimal_value,
};

verus! {

/// The body of a search request.
#[derive(Debug)]
pub struct SearchRequest {
    pub jql: String,
    pub start_at: i32,
    pub expand: Vec<String>,
    pub fields: Vec<String>,
    pub max_results: i32,
}

/// The fields of an issue that a search returns.
#[derive(Debug)]
pub struct IssueBeanFields {
    pub summary: String,
}

/// An issue found by a search.
#[derive(Debug)]
pub struct IssueBean {
    pub id: String,
    pub key: String,
    pub fields: IssueBeanFields,
}

/// One page of search results.
#[derive(Debug)]
pub struct SearchResponse {
    pub issues: Vec<IssueBean>,
    pub start_at: i32,
    pub total: i32,
}

/// The author of a comment.
#[derive(Debug)]
pub struct UserDetails {
    pub display_name: String,
}

/// A comment on an issue, with its body rendered as HTML.
#[derive(Debug)]
pub struct Comment {
    pub created: String,
    pub updated: String,
    pub author: UserDetails,
    pub rendered_body: String,
}

/// One page of the comments on an issue.
#[derive(Debug)]
pub struct GetCommentsResponse {
    pub comments: Vec<Comment>,
    pub start_at: i64,
    pub total: i64,
}

/// Errors while searching for issues.
#[derive(Debug)]
pub enum SearchError {
    SearchResponseParse(serde_json::Error),
    ReadResponse(std::io::Error),
    HttpRequest(isahc::http::Error),
    HttpSend(isahc::Error),
    InvalidLength(core::num::TryFromIntError),
    CreateRecorder(std::io::Error),
    RecordBody(std::io::Error),
    ReadReplayDir(std::io::Error),
    ReadReplayFile(std::io::Error),
}

impl SearchError {
    /// The one-line description of the error.
    pub open spec fn description(&self) -> Seq<char> {
        match self {
            SearchError::SearchResponseParse(_) => "failed to parse response"@,
            SearchError::ReadResponse(_) => "failed to read response"@,
            SearchError::HttpRequest(_) => "failed to generate http request"@,
            SearchError::HttpSend(_) => "failed to send http request"@,
            SearchError::InvalidLength(_) => "invalid length in response"@,
            SearchError::CreateRecorder(_) => "failed to create recorder"@,
            SearchError::RecordBody(_) => "failed to record response"@,
            SearchError::ReadReplayDir(_) => "failed to read replay dir"@,
            SearchError::ReadReplayFile(_) => "failed to read replay file"@,
        }
    }

    /// The one-line description of the error, as text.
    pub fn message(&self) -> (r: String)
        ensures
            r@ == self.description(),
    {
        match self {
            SearchError::SearchResponseParse(_) => String::from_str("failed to parse response"),
            SearchError::ReadResponse(_) => String::from_str("failed to read response"),
            SearchError::HttpRequest(_) => String::from_str("failed to generate http request"),
            SearchError::HttpSend(_) => String::from_str("failed to send http request"),
            SearchError::InvalidLength(_) => String::from_str("invalid length in response"),
            SearchError::CreateRecorder(_) => String::from_str("failed to create recorder"),
            SearchError::RecordBody(_) => String::from_str("failed to record response"),
            SearchError::ReadReplayDir(_) => String::from_str("failed to read replay dir"),
            SearchError::ReadReplayFile(_) => String::from_str("failed to read replay file"),
        }
    }
}

/// Errors while fetching the comments of an issue.
#[derive(Debug)]
pub enum GetCommentError {
    HttpSend(isahc::Error),
    ReadResponse(std::io::Error),
    GetCommentResponseParse(serde_json::Error),
    InvalidLength(core::num::TryFromIntError),
    CreateRecorder(std::io::Error),
    RecordBody(std::io::Error),
    ReadReplayDir(std::io::Error),
    ReadReplayFile(std::io::Error),
}

impl GetCommentError {
    /// The one-line description of the error.
    pub open spec fn description(&self) -> Seq<char> {
        match self {
            GetCommentError::HttpSend(_) => "failed to send http request"@,
            GetCommentError::ReadResponse(_) => "failed to read http response"@,
            GetCommentError::GetCommentResponseParse(_) => "failed to parse response"@,
            GetCommentError::InvalidLength(_) => "invalid length"@,
            GetCommentError::CreateRecorder(_) => "failed to create recorder"@,
            GetCommentError::RecordBody(_) => "failed to record response"@,
            GetCommentError::ReadReplayDir(_) => "failed to read replay dir"@,
            GetCommentError::ReadReplayFile(_) => "failed to read replay file"@,
        }
    }

    /// The one-line description of the error, as text.
    pub fn message(&self) -> (r: String)
        ensures
            r@ == self.description(),
    {
        match self {
            GetCommentError::HttpSend(_) => String::from_str("failed to send http request"),
            GetCommentError::ReadResponse(_) => String::from_str("failed to read http response"),
            GetCommentError::GetCommentResponseParse(_) => String::from_str(
                "failed to parse response",
            ),
            GetCommentError::InvalidLength(_) => String::from_str("invalid length"),
            GetCommentError::CreateRecorder(_) => String::from_str("failed to create recorder"),
            GetCommentError::RecordBody(_) => String::from_str("failed to record response"),
            GetCommentError::ReadReplayDir(_) => String::from_str("failed to read replay dir"),
            GetCommentError::ReadReplayFile(_) => String::from_str("failed to read replay file"),
        }
    }
}

/// Errors while setting up a client.
#[derive(Debug)]
pub enum JiraClientCreationError {
    HttpClient(isahc::Error),
    CreateRecordingDir(std::io::Error),
    CheckRecordingDir(std::io::Error),
    RecordingPathNotEmpty,
}

impl JiraClientCreationError {
    /// The one-line description of the error.
    pub open spec fn description(&self) -> Seq<char> {
        match self {
            JiraClientCreationError::HttpClient(_) => "failed to construct http client"@,
            JiraClientCreationError::CreateRecordingDir(_) => "failed to create recording dir"@,
            JiraClientCreationError::CheckRecordingDir(_) => "failed to check recording dir content"@,
            JiraClientCreationError::RecordingPathNotEmpty => "recording dir is not empty"@,
        }
    }

    /// The one-line description of the error, as text.
    pub fn message(&self) -> (r: String)
        ensures
            r@ == self.description(),
    {
        match self {
            JiraClientCreationError::HttpClient(_) => String::from_str(
                "failed to construct http client",
            ),
            JiraClientCreationError::CreateRecordingDir(_) => String::from_str(
                "failed to create recording dir",
            ),
            JiraClientCreationError::CheckRecordingDir(_) => String::from_str(
                "failed to check recording dir content",
            ),
            JiraClientCreationError::RecordingPathNotEmpty => String::from_str(
                "recording dir is not empty",
            ),
        }
    }
}

pub open spec fn strings_view(v: Seq<String>) -> Seq<Seq<char>> {
    v.map_values(|s: String| s@)
}

/// The address searches are posted to.
pub open spec fn search_uri_model(base: Seq<char>) -> Seq<char> {
    base + "/rest/api/3/search"@
}

/// The address searches are posted to, below the instance's base address.
pub fn search_uri(base: &str) -> (r: String)
    ensures
        r@ == search_uri_model(base@),
{
    let mut r = String::from_str(base);
    push_str(&mut r, "/rest/api/3/search");
    r
}

/// The address of the page of an issue's comments that starts at `start_at`,
/// with rendered bodies and as many comments per page as the server allows.
pub open spec fn comments_uri_model(base: Seq<char>, issue_key: Seq<char>, start_at: int) -> Seq<
    char,
> {
    base + "/rest/api/3/issue/"@ + issue_key + "/comment?expand=renderedBody&startAt="@
        + int_decimal(start_at) + "&maxResults="@ + int_decimal(i32::MAX as int)
}

/// The address of the page of an issue's comments that starts at `start_at`.
pub fn comments_uri(base: &str, issue_key: &str, start_at: i64) -> (r: String)
    ensures
        r@ == comments_uri_model(base@, issue_key@, start_at as int),
{
    let mut r = String::from_str(base);
    push_str(&mut r, "/rest/api/3/issue/");
    push_str(&mut r, issue_key);
    push_str(&mut r, "/comment?expand=renderedBody&startAt=");
    push_signed(&mut r, start_at);
    push_str(&mut r, "&maxResults=");
    push_signed(&mut r, i32::MAX as i64);
    r
}

/// The address of a comment page reads back: after the issue path with the
/// issue key, `startAt=` carries the page's start index and `maxResults=` the
/// largest `i32`, both in decimal.
pub proof fn comments_uri_reads_back(base: Seq<char>, issue_key: Seq<char>, start_at: i64)
    ensures
        exists|s: Seq<char>, m: Seq<char>|
            #![trigger signed_decimal_value(s), signed_decimal_value(m)]
            comments_uri_model(base, issue_key, start_at as int) == base + "/rest/api/3/issue/"@
                + issue_key + "/comment?expand=renderedBody&startAt="@ + s + "&maxResults="@ + m
                && signed_decimal_value(s) == start_at && signed_decimal_value(m) == i32::MAX,
{
    let s = int_decimal(start_at as int);
    let m = int_decimal(i32::MAX as int);
    int_decimal_reads_back(start_at as int);
    int_decimal_reads_back(i32::MAX as int);
    assert(comments_uri_model(base, issue_key, start_at as int) == base + "/rest/api/3/issue/"@
        + issue_key + "/comment?expand=renderedBody&startAt="@ + s + "&maxResults="@ + m
        && signed_decimal_value(s) == start_at && signed_decimal_value(m) == i32::MAX);
}

/// The folder, below the recording folder, where the pages of an issue's
/// comments are recorded.
pub fn comment_record_dir(issue_key: &str) -> (r: String)
    ensures
        r@ == "get_comments/"@ + issue_key@,
{
    let mut r = String::from_str("get_comments/");
    push_str(&mut r, issue_key);
    r
}

/// Numbers the recorded responses of one kind: the n-th response is stored in
/// a file named by the decimal digits of n, counting from 0.
pub struct ApiRecorder {
    pub counter: usize,
}

impl ApiRecorder {
    /// A recorder that has stored nothing yet.
    pub fn new() -> (r: ApiRecorder)
        ensures
            r.counter == 0,
    {
        ApiRecorder { counter: 0 }
    }

    /// The file name for the next response; the count moves on by one.
    pub fn next_file_name(&mut self) -> (r: String)
        requires
            old(self).counter < usize::MAX,
        ensures
            r@ == int_decimal(old(self).counter as int),
            final(self).counter == old(self).counter + 1,
    {
        let mut r = String::new();
        push_count(&mut r, self.counter);
        self.counter = self.counter + 1;
        r
    }
}

/// Two responses recorded under different counts are stored in different
/// files: the decimal texts of different counts differ.
pub proof fn recorded_names_differ(a: usize, b: usize)
    requires
        a != b,
    ensures
        int_decimal(a as int) != int_decimal(b as int),
{
    nat_decimal_injective(a as nat, b as nat);
}

/// A recording folder must start out empty: one that already holds an entry
/// is refused.
pub fn check_recording_dir(has_entry: bool) -> (r: Result<(), JiraClientCreationError>)
    ensures
        has_entry ==> (r matches Err(e) && e is RecordingPathNotEmpty),
        !has_entry ==> r is Ok,
{
    if has_entry {
        Err(JiraClientCreationError::RecordingPathNotEmpty)
    } else {
        Ok(())
    }
}

fn push_count(s: &mut String, n: usize)
    ensures
        final(s)@ == old(s)@ + int_decimal(n as int),
{
    crate::text::push_unsigned(s, n as u64);
}

/// One step of paging: taking in a page of `page` items moves the next
/// index on by the page's length and appends the page's items.
pub open spec fn paging_step<T>(before: (int, Seq<T>), page: Seq<T>, after: (int, Seq<T>)) -> bool {
    after.0 == before.0 + page.len() && after.1 == before.1 + page
}

/// The items of a run of pages, one page after another.
pub open spec fn flatten_pages<T>(pages: Seq<Seq<T>>) -> Seq<T>
    decreases pages.len(),
{
    if pages.len() == 0 {
        seq![]
    } else {
        flatten_pages(pages.drop_last()) + pages.last()
    }
}

/// Paging from the start through a run of pages collects every page's items,
/// in the order of the pages, and the next page then starts after all of
/// them.
pub proof fn paging_collects_every_page<T>(states: Seq<(int, Seq<T>)>, pages: Seq<Seq<T>>)
    requires
        states.len() == pages.len() + 1,
        states[0].0 == 0,
        states[0].1.len() == 0,
        forall|i: int| 0 <= i < pages.len() ==> paging_step(states[i], #[trigger] pages[i], states[i + 1]),
    ensures
        states.last().1 == flatten_pages(pages),
        states.last().0 == flatten_pages(pages).len(),
    decreases pages.len(),
{
    if pages.len() == 0 {
        assert(states.last().1 =~= flatten_pages(pages));
    } else {
        let n = pages.len() - 1;
        paging_collects_every_page(states.drop_last(), pages.drop_last());
        assert(paging_step(states[n], pages[n], states[n + 1]));
        assert(states.drop_last().last() == states[n]);
    }
}

/// The paging state of a search: the request for the next page and the
/// issues received so far.
pub struct SearchPager {
    pub request: SearchRequest,
    pub issues: Vec<IssueBean>,
}

impl SearchPager {
    /// The state before the first page: a request for `jql` from index 0,
    /// asking for as many results as the server allows, with rendered bodies,
    /// and for the fields `summary` and `comment`.
    pub fn new(jql: String) -> (r: SearchPager)
        ensures
            r.request.jql == jql,
            r.request.start_at == 0,
            r.request.max_results == i32::MAX,
            strings_view(r.request.expand@) == seq!["renderedBody"@],
            strings_view(r.request.fields@) == seq!["summary"@, "comment"@],
            r.issues@.len() == 0,
    {
        let mut expand: Vec<String> = Vec::new();
        expand.push(String::from_str("renderedBody"));
        let mut fields: Vec<String> = Vec::new();
        fields.push(String::from_str("summary"));
        fields.push(String::from_str("comment"));
        let request = SearchRequest { jql, start_at: 0, expand, fields, max_results: i32::MAX };
        let r = SearchPager { request, issues: Vec::new() };
        assert(strings_view(r.request.expand@) =~= seq!["renderedBody"@]);
        assert(strings_view(r.request.fields@) =~= seq!["summary"@, "comment"@]);
        r
    }

    /// Whether taking `page` in would overflow the 32-bit indices (a page
    /// whose length does not fit is refused before any index is computed).
    pub open spec fn page_overflows(&self, page: &SearchResponse) -> bool {
        page.issues@.len() <= i32::MAX && (page.start_at + page.issues@.len() > i32::MAX
            || self.request.start_at + page.issues@.len() > i32::MAX)
    }

    /// Whether taking `page` in would overflow the 32-bit indices.
    pub fn overflows(&self, page: &SearchResponse) -> (r: bool)
        ensures
            r == self.page_overflows(page),
    {
        let len = page.issues.len();
        if len > i32::MAX as usize {
            false
        } else {
            page.start_at as i64 + len as i64 > i32::MAX as i64 || self.request.start_at as i64
                + len as i64 > i32::MAX as i64
        }
    }

    /// Takes a page of results in. A page with more issues than an `i32`
    /// counts is refused with `InvalidLength` and changes nothing. Otherwise
    /// its issues are appended, the next request starts that many issues
    /// later, and the result says whether this was the last page: the page's
    /// start plus its length reaches the total.
    pub fn take_page(&mut self, page: SearchResponse) -> (r: Result<bool, SearchError>)
        requires
            !old(self).page_overflows(&page),
        ensures
            page.issues@.len() > i32::MAX ==> (r matches Err(e) && e is InvalidLength)
                && final(self).request == old(self).request && final(self).issues@ == old(self).issues@,
            page.issues@.len() <= i32::MAX ==> {
                &&& r == Ok::<bool, SearchError>(page.start_at + page.issues@.len() == page.total)
                &&& final(self).request.start_at == old(self).request.start_at
                    + page.issues@.len()
                &&& final(self).request.jql == old(self).request.jql
                &&& final(self).request.expand == old(self).request.expand
                &&& final(self).request.fields == old(self).request.fields
                &&& final(self).request.max_results == old(self).request.max_results
                &&& final(self).issues@ == old(self).issues@ + page.issues@
                &&& paging_step(
                    (old(self).request.start_at as int, old(self).issues@),
                    page.issues@,
                    (final(self).request.start_at as int, final(self).issues@),
                )
            },
            old(self).request.start_at == old(self).issues@.len() ==> final(self).request.start_at
                == final(self).issues@.len(),
    {
        let len = page.issues.len();
        let page_len = match i32::try_from(len) {
            Ok(l) => l,
            Err(e) => {
                return Err(SearchError::InvalidLength(e));
            },
        };
        let done = page.start_at + page_len == page.total;
        self.request.start_at = self.request.start_at + page_len;
        let mut issues = page.issues;
        self.issues.append(&mut issues);
        Ok(done)
    }
}

/// The paging state of an issue's comments: the index of the next page and
/// the comments received so far.
pub struct CommentPager {
    pub start_at: i64,
    pub comments: Vec<Comment>,
}

impl CommentPager {
    /// The state before the first page.
    pub fn new() -> (r: CommentPager)
        ensures
            r.start_at == 0,
            r.comments@.len() == 0,
    {
        CommentPager { start_at: 0, comments: Vec::new() }
    }

    /// Whether taking `page` in would overflow the 64-bit indices.
    pub open spec fn page_overflows(&self, page: &GetCommentsResponse) -> bool {
        page.comments@.len() <= i64::MAX && (page.start_at + page.comments@.len() > i64::MAX
            || self.start_at + page.comments@.len() > i64::MAX)
    }

    /// Whether taking `page` in would overflow the 64-bit indices.
    pub fn overflows(&self, page: &GetCommentsResponse) -> (r: bool)
        ensures
            r == self.page_overflows(page),
    {
        let len = page.comments.len();
        if len as u128 > i64::MAX as u128 {
            false
        } else {
            page.start_at as i128 + len as i128 > i64::MAX as i128 || self.start_at as i128
                + len as i128 > i64::MAX as i128
        }
    }

    /// Takes a page of comments in. A page with more comments than an `i64`
    /// counts is refused with `InvalidLength` and changes nothing. Otherwise
    /// its comments are appended, the next page starts that many comments
    /// later, and the result says whether this was the last page.
    pub fn take_page(&mut self, page: GetCommentsResponse) -> (r: Result<bool, GetCommentError>)
        requires
            !old(self).page_overflows(&page),
        ensures
            page.comments@.len() > i64::MAX ==> (r matches Err(e) && e is InvalidLength)
                && final(self).start_at == old(self).start_at && final(self).comments@ == old(self).comments@,
            page.comments@.len() <= i64::MAX ==> {
                &&& r == Ok::<bool, GetCommentError>(page.start_at + page.comments@.len()
                    == page.total)
                &&& final(self).start_at == old(self).start_at + page.comments@.len()
                &&& final(self).comments@ == old(self).comments@ + page.comments@
                &&& paging_step(
                    (old(self).start_at as int, old(self).comments@),
                    page.comments@,
                    (final(self).start_at as int, final(self).comments@),
                )
            },
            old(self).start_at == old(self).comments@.len() ==> final(self).start_at == final(self).comments@.len(),
    {
        let len = page.comments.len();
        let page_len = match i64::try_from(len) {
            Ok(l) => l,
            Err(e) => {
                return Err(GetCommentError::InvalidLength(e));
            },
        };
        let done = page.start_at + page_len == page.total;
        self.start_at = self.start_at + page_len;
        let mut comments = page.comments;
        self.comments.append(&mut comments);
        Ok(done)
    }
}

}
