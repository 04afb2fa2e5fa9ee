//! The summary page: which comments go into it and the HTML that shows them,
//! with the checks around the stored credentials and the run's errors.

use vstd::prelude::*;
use vstd::string::*;
use crate::args::ArgParseError;
use crate::date::{Date, Timestamp, parse_timestamp, timestamp_parts, ymd_on_or_after};
use crate::images::ImageDownloadError;
use crate::jira_api::{Comment, GetCommentError, IssueBean, SearchError};
use crate::text::{
    all_digits, decimal_value, int_decimal, int_decimal_reads_back, nat_decimal_reads_back,
    push_signed, push_str, signed_decimal_value, str_eq,
};

verus! {

/// The JQL query for the issues updated on `date` or later. The date is
/// written as year, month and day in plain decimal, without padding.
pub open spec fn search_jql_model(date: Date) -> Seq<char> {
    "updated >= "@ + int_decimal(date.year as int) + "-"@ + int_decimal(date.month as int) + "-"@
        + int_decimal(date.day as int)
}

/// The JQL query for the issues updated on `date` or later.
pub fn search_jql(date: &Date) -> (r: String)
    ensures
        r@ == search_jql_model(*date),
{
    let mut r = String::from_str("updated >= ");
    push_signed(&mut r, date.year as i64);
    push_str(&mut r, "-");
    push_signed(&mut r, date.month as i64);
    push_str(&mut r, "-");
    push_signed(&mut r, date.day as i64);
    r
}

/// The query reads back as the start date: after `updated >= ` it holds the
/// year, a `-`, the month in digits, a `-` and the day in digits, each of
/// which spells the date's own year, month and day.
pub proof fn jql_reads_back_the_date(date: Date)
    ensures
        exists|y: Seq<char>, m: Seq<char>, d: Seq<char>|
            #![trigger signed_decimal_value(y), decimal_value(m), decimal_value(d)]
            search_jql_model(date) == "updated >= "@ + y + "-"@ + m + "-"@ + d
                && signed_decimal_value(y) == date.year && all_digits(m) && decimal_value(m)
                == date.month && all_digits(d) && decimal_value(d) == date.day,
{
    let y = int_decimal(date.year as int);
    let m = int_decimal(date.month as int);
    let d = int_decimal(date.day as int);
    int_decimal_reads_back(date.year as int);
    nat_decimal_reads_back(date.month as nat);
    nat_decimal_reads_back(date.day as nat);
    assert(search_jql_model(date) == "updated >= "@ + y + "-"@ + m + "-"@ + d
        && signed_decimal_value(y) == date.year && all_digits(m) && decimal_value(m)
        == date.month && all_digits(d) && decimal_value(d) == date.day);
}

/// The start of the page, up to and including the opening `body` tag and the
/// line break after it: the style sheets, the character set and the script.
pub open spec fn page_head_model() -> Seq<char> {
    "<head>\n\t<link rel=\"stylesheet\" href=\"/water.css\">\n\t<link rel=\"stylesheet\" href=\"/index.css\">\n\t<meta content=\"text/html;charset=utf-8\" http-equiv=\"Content-Type\">\n\t<meta content=\"utf-8\" http-equiv=\"encoding\">\n\t<script src=\"index.js\" defer></script>\n</head>\n<body>\n"@
}

/// The start of the page.
pub fn page_head() -> (r: String)
    ensures
        r@ == page_head_model(),
{
    String::from_str(
        "<head>\n\t<link rel=\"stylesheet\" href=\"/water.css\">\n\t<link rel=\"stylesheet\" href=\"/index.css\">\n\t<meta content=\"text/html;charset=utf-8\" http-equiv=\"Content-Type\">\n\t<meta content=\"utf-8\" http-equiv=\"encoding\">\n\t<script src=\"index.js\" defer></script>\n</head>\n<body>\n",
    )
}

/// The end of the page.
pub fn page_tail() -> (r: String)
    ensures
        r@ == "</body>"@,
{
    String::from_str("</body>")
}

/// Whether a comment belongs in the summary, given the date it was made (in
/// its timestamp's own offset): it was written by `user` (compared by display
/// name) on `start` or later.
pub open spec fn keeps(comment: Comment, created: (int, int, int), user: Seq<char>, start: Date) -> bool {
    comment.author.display_name@ == user && ymd_on_or_after(created, start.ymd())
}

/// Whether a comment made on `created` belongs in the summary.
pub fn keep_comment(comment: &Comment, created: &Date, user: &str, start: &Date) -> (r: bool)
    ensures
        r == keeps(*comment, created.ymd(), user@, *start),
{
    str_eq(comment.author.display_name.as_str(), user) && created.is_on_or_after(start)
}

/// A comment with the date it was made and its last-edit timestamp, which the
/// page shows.
pub struct TimedComment {
    pub comment: Comment,
    pub created: Date,
    pub time: Timestamp,
}

/// The comments of `timed` that belong in the summary, in their order.
pub open spec fn kept_comments(timed: Seq<TimedComment>, user: Seq<char>, start: Date) -> Seq<
    TimedComment,
>
    decreases timed.len(),
{
    if timed.len() == 0 {
        seq![]
    } else {
        let earlier = kept_comments(timed.drop_last(), user, start);
        let t = timed.last();
        if keeps(t.comment, t.created.ymd(), user, start) {
            earlier.push(t)
        } else {
            earlier
        }
    }
}

/// Keeps the comments written by `user` on `start` or later, in order.
pub fn filter_comments(timed: Vec<TimedComment>, user: &str, start: &Date) -> (r: Vec<TimedComment>)
    ensures
        r@ == kept_comments(timed@, user@, *start),
{
    let ghost all = timed@;
    let mut kept: Vec<TimedComment> = Vec::new();
    let mut rest = timed;
    let ghost n = all.len();
    while rest.len() > 0
        invariant
            n == all.len(),
            rest@.len() <= n,
            rest@ == all.skip(n - rest@.len()),
            kept@ == kept_comments(all.take(n - rest@.len()), user@, *start),
        decreases rest@.len(),
    {
        let ghost done = n - rest@.len();
        let t = rest.remove(0);
        assert(t == all[done]);
        assert(rest@ =~= all.skip(done + 1));
        assert(all.take(done + 1).drop_last() =~= all.take(done));
        if keep_comment(&t.comment, &t.created, user, start) {
            kept.push(t);
        }
    }
    assert(all.take(n as int) =~= all);
    kept
}

/// Whether both timestamps of a comment, `created` and `updated`, can be
/// parsed.
pub open spec fn timestamps_parse(c: Comment) -> bool {
    timestamp_parts(c.created@) is Some && timestamp_parts(c.updated@) is Some
}

/// Whether both timestamps of every comment can be parsed.
pub open spec fn all_timestamps_parse(comments: Seq<Comment>) -> bool {
    forall|i: int| 0 <= i < comments.len() ==> #[trigger] timestamps_parse(comments[i])
}

/// Whether `t` is comment `c` with its parsed timestamps: the date of
/// `created` and the parts of `updated`.
pub open spec fn times_of(t: TimedComment, c: Comment) -> bool {
    &&& t.comment == c
    &&& timestamp_parts(c.created@) matches Some(p) && p.0 == t.created.ymd()
    &&& timestamp_parts(c.updated@) == Some((t.time.date.ymd(), t.time.text@))
}

/// Pairs every comment with its parsed timestamps, in order, or `None` where
/// some timestamp cannot be parsed.
pub fn time_comments(comments: Vec<Comment>) -> (r: Option<Vec<TimedComment>>)
    ensures
        r is Some <==> all_timestamps_parse(comments@),
        r matches Some(v) ==> v@.len() == comments@.len() && forall|i: int|
            0 <= i < v@.len() ==> #[trigger] times_of(v@[i], comments@[i]),
{
    let ghost all = comments@;
    let ghost n = all.len();
    let mut timed: Vec<TimedComment> = Vec::new();
    let mut rest = comments;
    while rest.len() > 0
        invariant
            n == all.len(),
            rest@.len() <= n,
            rest@ == all.skip(n - rest@.len()),
            all == comments@,
            timed@.len() == n - rest@.len(),
            forall|i: int| 0 <= i < timed@.len() ==> #[trigger] times_of(timed@[i], all[i]),
        decreases rest@.len(),
    {
        let ghost done = n - rest@.len();
        let comment = rest.remove(0);
        assert(comment == all[done]);
        assert(rest@ =~= all.skip(done + 1));
        let created = match parse_timestamp(comment.created.as_str()) {
            Some(t) => t.date,
            None => {
                assert(!timestamps_parse(all[done]));
                return None;
            },
        };
        match parse_timestamp(comment.updated.as_str()) {
            Some(time) => {
                timed.push(TimedComment { comment, created, time });
                assert(times_of(timed@[done], all[done]));
            },
            None => {
                assert(!timestamps_parse(all[done]));
                return None;
            },
        }
    }
    assert forall|i: int| 0 <= i < all.len() implies #[trigger] timestamps_parse(all[i]) by {
        assert(times_of(timed@[i], all[i]));
    }
    Some(timed)
}

/// A timed comment as the comment, the date it was made and the parts of its
/// last-edit timestamp.
pub open spec fn timed_model(t: TimedComment) -> (Comment, (int, int, int), ((int, int, int), Seq<char>)) {
    (t.comment, t.created.ymd(), (t.time.date.ymd(), t.time.text@))
}

/// The comments the summary shows, in their order: those written by `user`
/// whose `created` timestamp falls on `start` or later, each with the date it
/// was made and the parts of its `updated` timestamp.
pub open spec fn selection(comments: Seq<Comment>, user: Seq<char>, start: Date) -> Seq<
    (Comment, (int, int, int), ((int, int, int), Seq<char>)),
>
    decreases comments.len(),
{
    if comments.len() == 0 {
        seq![]
    } else {
        let earlier = selection(comments.drop_last(), user, start);
        let c = comments.last();
        match (timestamp_parts(c.created@), timestamp_parts(c.updated@)) {
            (Some(made), Some(edited)) => if keeps(c, made.0, user, start) {
                earlier.push((c, made.0, edited))
            } else {
                earlier
            },
            _ => earlier,
        }
    }
}

proof fn lemma_kept_is_selection(
    timed: Seq<TimedComment>,
    comments: Seq<Comment>,
    user: Seq<char>,
    start: Date,
)
    requires
        timed.len() == comments.len(),
        forall|i: int| 0 <= i < timed.len() ==> #[trigger] times_of(timed[i], comments[i]),
    ensures
        kept_comments(timed, user, start).map_values(|t: TimedComment| timed_model(t))
            == selection(comments, user, start),
    decreases timed.len(),
{
    if timed.len() > 0 {
        let last = (timed.len() - 1) as int;
        assert(times_of(timed[last], comments[last]));
        assert forall|i: int| 0 <= i < timed.drop_last().len() implies #[trigger] times_of(
            timed.drop_last()[i],
            comments.drop_last()[i],
        ) by {
            assert(times_of(timed[i], comments[i]));
        }
        lemma_kept_is_selection(timed.drop_last(), comments.drop_last(), user, start);
        let earlier = kept_comments(timed.drop_last(), user, start);
        assert(earlier.push(timed.last()).map_values(|t: TimedComment| timed_model(t))
            =~= earlier.map_values(|t: TimedComment| timed_model(t)).push(timed_model(timed.last())));
    } else {
        assert(kept_comments(timed, user, start).map_values(|t: TimedComment| timed_model(t))
            =~= seq![]);
    }
}

/// The comments the summary shows: every comment paired with its parsed
/// timestamps, then those by `user` made on `start` or later, in order;
/// `None` where some comment's timestamp cannot be parsed.
pub fn select_comments(comments: Vec<Comment>, user: &str, start: &Date) -> (r: Option<
    Vec<TimedComment>,
>)
    ensures
        r is Some <==> all_timestamps_parse(comments@),
        r matches Some(v) ==> v@.map_values(|t: TimedComment| timed_model(t)) == selection(
            comments@,
            user@,
            *start,
        ),
{
    let ghost all = comments@;
    match time_comments(comments) {
        None => None,
        Some(timed) => {
            proof {
                lemma_kept_is_selection(timed@, all, user@, *start);
            }
            Some(filter_comments(timed, user, start))
        },
    }
}

/// The summary keeps exactly the comments written by the user on the start
/// date or later: each kept comment is one of the given ones and passes the
/// test, and each given one that passes the test is kept.
pub proof fn kept_exactly_the_matching(timed: Seq<TimedComment>, user: Seq<char>, start: Date)
    ensures
        forall|i: int|
            0 <= i < kept_comments(timed, user, start).len() ==> #[trigger] timed.contains(
                kept_comments(timed, user, start)[i],
            ) && keeps(
                kept_comments(timed, user, start)[i].comment,
                kept_comments(timed, user, start)[i].created.ymd(),
                user,
                start,
            ),
        forall|j: int|
            0 <= j < timed.len() && keeps(timed[j].comment, timed[j].created.ymd(), user, start)
                ==> #[trigger] kept_comments(timed, user, start).contains(timed[j]),
    decreases timed.len(),
{
    if timed.len() > 0 {
        let init = timed.drop_last();
        kept_exactly_the_matching(init, user, start);
        let kept = kept_comments(timed, user, start);
        let earlier = kept_comments(init, user, start);
        assert forall|i: int| 0 <= i < kept.len() implies #[trigger] timed.contains(kept[i])
            && keeps(kept[i].comment, kept[i].created.ymd(), user, start) by {
            if i < earlier.len() {
                assert(kept[i] == earlier[i]);
                assert(init.contains(earlier[i]));
                let k = choose|k: int| 0 <= k < init.len() && init[k] == earlier[i];
                assert(timed[k] == init[k]);
            } else {
                assert(kept[i] == timed.last());
                assert(timed[timed.len() - 1] == timed.last());
            }
        }
        assert forall|j: int|
            0 <= j < timed.len() && keeps(timed[j].comment, timed[j].created.ymd(), user, start)
            implies #[trigger] kept.contains(timed[j]) by {
            if j < timed.len() - 1 {
                assert(init[j] == timed[j]);
                assert(earlier.contains(init[j]));
                let k = choose|k: int| 0 <= k < earlier.len() && earlier[k] == init[j];
                assert(kept[k] == earlier[k]);
            } else {
                assert(timed[j] == timed.last());
                assert(kept[kept.len() - 1] == timed[j]);
            }
        }
    }
}

/// Whether a comment is kept follows its author and the calendar: only the
/// user's comments are kept, and of those, every one made in a later year
/// than the start date is kept and none made in an earlier year; in the start
/// date's year, every one made in a later month is kept and none made in an
/// earlier month; in its month, exactly those made on its day or later.
pub proof fn keeps_follows_the_calendar(c: Comment, made: (int, int, int), user: Seq<char>, start: Date)
    ensures
        keeps(c, made, user, start) ==> c.author.display_name@ == user,
        c.author.display_name@ == user ==> {
            &&& made.0 > start.year ==> keeps(c, made, user, start)
            &&& made.0 < start.year ==> !keeps(c, made, user, start)
            &&& made.0 == start.year && made.1 > start.month ==> keeps(c, made, user, start)
            &&& made.0 == start.year && made.1 < start.month ==> !keeps(c, made, user, start)
            &&& made.0 == start.year && made.1 == start.month ==> (keeps(c, made, user, start)
                <==> made.2 >= start.day)
        },
{
}

/// The selection holds exactly the comments the user made on the start date
/// or later: each selected entry is one of the comments, by the user, paired
/// with the date of its `created` timestamp and the parts of its `updated`
/// one, and passing the calendar test; and each comment whose timestamps
/// parse and that passes the test is selected.
pub proof fn selection_holds_exactly_the_kept(comments: Seq<Comment>, user: Seq<char>, start: Date)
    ensures
        forall|i: int|
            0 <= i < selection(comments, user, start).len() ==> {
                let e = #[trigger] selection(comments, user, start)[i];
                &&& comments.contains(e.0)
                &&& e.0.author.display_name@ == user
                &&& timestamp_parts(e.0.created@) matches Some(p) && p.0 == e.1
                &&& timestamp_parts(e.0.updated@) == Some(e.2)
                &&& keeps(e.0, e.1, user, start)
            },
        forall|j: int|
            0 <= j < comments.len() && timestamps_parse(comments[j]) && keeps(
                comments[j],
                timestamp_parts(comments[j].created@).unwrap().0,
                user,
                start,
            ) ==> exists|i: int|
                0 <= i < selection(comments, user, start).len() && (#[trigger] selection(
                    comments,
                    user,
                    start,
                )[i]).0 == comments[j],
    decreases comments.len(),
{
    if comments.len() > 0 {
        let init = comments.drop_last();
        selection_holds_exactly_the_kept(init, user, start);
        let sel = selection(comments, user, start);
        let earlier = selection(init, user, start);
        let c = comments.last();
        assert forall|i: int| 0 <= i < sel.len() implies {
            let e = #[trigger] sel[i];
            &&& comments.contains(e.0)
            &&& e.0.author.display_name@ == user
            &&& timestamp_parts(e.0.created@) matches Some(p) && p.0 == e.1
            &&& timestamp_parts(e.0.updated@) == Some(e.2)
            &&& keeps(e.0, e.1, user, start)
        } by {
            if i < earlier.len() {
                assert(sel[i] == earlier[i]);
                let e = earlier[i];
                assert(init.contains(e.0));
                let k = choose|k: int| 0 <= k < init.len() && init[k] == e.0;
                assert(comments[k] == init[k]);
            } else {
                assert(sel[i].0 == c);
                assert(comments[comments.len() - 1] == c);
            }
        }
        assert forall|j: int|
            0 <= j < comments.len() && timestamps_parse(comments[j]) && keeps(
                comments[j],
                timestamp_parts(comments[j].created@).unwrap().0,
                user,
                start,
            ) implies exists|i: int| 0 <= i < sel.len() && (#[trigger] sel[i]).0 == comments[j] by {
            if j < comments.len() - 1 {
                assert(init[j] == comments[j]);
                let i = choose|i: int| 0 <= i < earlier.len() && (#[trigger] earlier[i]).0 == init[j];
                assert(sel[i] == earlier[i]);
            } else {
                assert(comments[j] == c);
                assert(sel[sel.len() - 1].0 == c);
            }
        }
    }
}

/// The heading of an issue's part of the page: a link to the issue, then its
/// summary.
pub open spec fn issue_heading_model(uri: Seq<char>, key: Seq<char>, summary: Seq<char>) -> Seq<char> {
    "<h2 class=collapsible-header>\n<a href="@ + uri + "/browse/"@ + key + ">"@ + key + "</a>: "@
        + summary + "\n</h2>\n<div class=collapsible-content>\n"@
}

/// One comment on the page: its time as a third-level heading, then its body.
pub open spec fn comment_entry_model(time: Seq<char>, body: Seq<char>) -> Seq<char> {
    "<h3>"@ + time + "</h3>\n"@ + body + "\n"@
}

/// The entries of a sequence of comments, one after another.
pub open spec fn comment_entries_model(timed: Seq<TimedComment>) -> Seq<char>
    decreases timed.len(),
{
    if timed.len() == 0 {
        seq![]
    } else {
        comment_entries_model(timed.drop_last()) + comment_entry_model(
            timed.last().time.text@,
            timed.last().comment.rendered_body@,
        )
    }
}

/// An issue's part of the page: its heading, then a collapsible block with
/// its comments.
pub open spec fn issue_section_model(uri: Seq<char>, issue: IssueBean, timed: Seq<TimedComment>) -> Seq<
    char,
> {
    issue_heading_model(uri, issue.key@, issue.fields.summary@) + comment_entries_model(timed)
        + "</div>\n"@
}

/// An issue's part of the page.
pub fn issue_section(uri: &str, issue: &IssueBean, timed: &Vec<TimedComment>) -> (r: String)
    ensures
        r@ == issue_section_model(uri@, *issue, timed@),
{
    let mut r = String::from_str("<h2 class=collapsible-header>\n<a href=");
    push_str(&mut r, uri);
    push_str(&mut r, "/browse/");
    push_str(&mut r, issue.key.as_str());
    push_str(&mut r, ">");
    push_str(&mut r, issue.key.as_str());
    push_str(&mut r, "</a>: ");
    push_str(&mut r, issue.fields.summary.as_str());
    push_str(&mut r, "\n</h2>\n<div class=collapsible-content>\n");
    let ghost heading = r@;
    assert(heading == issue_heading_model(uri@, issue.key@, issue.fields.summary@));
    let mut i: usize = 0;
    while i < timed.len()
        invariant
            i <= timed@.len(),
            r@ == heading + comment_entries_model(timed@.take(i as int)),
        decreases timed.len() - i,
    {
        let t = &timed[i];
        push_str(&mut r, "<h3>");
        push_str(&mut r, t.time.text.as_str());
        push_str(&mut r, "</h3>\n");
        push_str(&mut r, t.comment.rendered_body.as_str());
        push_str(&mut r, "\n");
        assert(timed@.take(i + 1).drop_last() =~= timed@.take(i as int));
        i = i + 1;
    }
    assert(timed@.take(i as int) =~= timed@);
    push_str(&mut r, "</div>\n");
    r
}

/// An issue's section lists every kept comment: with no comment it is the
/// heading and the closing tag; one more comment adds its entry (its time as a
/// `<h3>` heading, then its body) right before the closing `</div>`, however
/// many comments come before it.
pub proof fn section_lists_every_comment(
    uri: Seq<char>,
    issue: IssueBean,
    timed: Seq<TimedComment>,
    t: TimedComment,
)
    ensures
        issue_section_model(uri, issue, seq![]) == "<h2 class=collapsible-header>\n<a href="@ + uri
            + "/browse/"@ + issue.key@ + ">"@ + issue.key@ + "</a>: "@ + issue.fields.summary@
            + "\n</h2>\n<div class=collapsible-content>\n</div>\n"@,
        issue_section_model(uri, issue, timed).len() >= 7,
        issue_section_model(uri, issue, timed.push(t)) == issue_section_model(
            uri,
            issue,
            timed,
        ).subrange(0, issue_section_model(uri, issue, timed).len() - 7) + "<h3>"@ + t.time.text@
            + "</h3>\n"@ + t.comment.rendered_body@ + "\n"@ + "</div>\n"@,
{
    reveal_strlit("</div>\n");
    reveal_strlit("\n</h2>\n<div class=collapsible-content>\n");
    reveal_strlit("\n</h2>\n<div class=collapsible-content>\n</div>\n");
    let head = issue_heading_model(uri, issue.key@, issue.fields.summary@);
    assert(comment_entries_model(seq![]) =~= Seq::<char>::empty());
    assert(issue_section_model(uri, issue, seq![]) =~= head + "</div>\n"@);
    assert("\n</h2>\n<div class=collapsible-content>\n</div>\n"@ =~= "\n</h2>\n<div class=collapsible-content>\n"@
        + "</div>\n"@);
    let before = head + comment_entries_model(timed);
    assert(issue_section_model(uri, issue, timed) == before + "</div>\n"@);
    assert((before + "</div>\n"@).subrange(0, before.len() as int) =~= before);
    assert(timed.push(t).drop_last() =~= timed);
    assert(comment_entries_model(timed.push(t)) == comment_entries_model(timed) + comment_entry_model(
        t.time.text@,
        t.comment.rendered_body@,
    ));
}

/// An issue's part of the page: its section when at least one of its
/// comments is kept, and nothing otherwise.
pub open spec fn issue_part_model(uri: Seq<char>, issue: IssueBean, timed: Seq<TimedComment>) -> Seq<
    char,
> {
    if timed.len() == 0 {
        seq![]
    } else {
        issue_section_model(uri, issue, timed)
    }
}

/// An issue's part of the page.
pub fn issue_part(uri: &str, issue: &IssueBean, timed: &Vec<TimedComment>) -> (r: String)
    ensures
        r@ == issue_part_model(uri@, *issue, timed@),
{
    if timed.len() == 0 {
        String::new()
    } else {
        issue_section(uri, issue, timed)
    }
}

/// The parts of a sequence of issues, one after another.
pub open spec fn issue_parts_model(uri: Seq<char>, issues: Seq<(IssueBean, Vec<TimedComment>)>) -> Seq<
    char,
>
    decreases issues.len(),
{
    if issues.len() == 0 {
        seq![]
    } else {
        issue_parts_model(uri, issues.drop_last()) + issue_part_model(
            uri,
            issues.last().0,
            issues.last().1@,
        )
    }
}

/// The whole page: the head, then the part of each issue in order (issues
/// without a kept comment contribute nothing), then the closing `body` tag.
pub open spec fn summary_page_model(uri: Seq<char>, issues: Seq<(IssueBean, Vec<TimedComment>)>) -> Seq<
    char,
> {
    page_head_model() + issue_parts_model(uri, issues) + "</body>"@
}

/// The page lists the issues in order: with no issue it is the head and the
/// closing tag; one more issue adds its section right before the closing
/// `</body>` when it has a kept comment, and nothing when it has none.
pub proof fn page_lists_issues_in_order(
    uri: Seq<char>,
    issues: Seq<(IssueBean, Vec<TimedComment>)>,
    next: (IssueBean, Vec<TimedComment>),
)
    ensures
        summary_page_model(uri, seq![]) == page_head_model() + "</body>"@,
        summary_page_model(uri, issues).len() >= 7,
        next.1@.len() == 0 ==> summary_page_model(uri, issues.push(next)) == summary_page_model(
            uri,
            issues,
        ),
        next.1@.len() > 0 ==> summary_page_model(uri, issues.push(next)) == summary_page_model(
            uri,
            issues,
        ).subrange(0, summary_page_model(uri, issues).len() - 7) + issue_section_model(
            uri,
            next.0,
            next.1@,
        ) + "</body>"@,
{
    reveal_strlit("</body>");
    assert(issue_parts_model(uri, seq![]) =~= Seq::<char>::empty());
    assert(summary_page_model(uri, seq![]) =~= page_head_model() + "</body>"@);
    assert(issues.push(next).drop_last() =~= issues);
    let before = page_head_model() + issue_parts_model(uri, issues);
    assert(summary_page_model(uri, issues) == before + "</body>"@);
    assert((before + "</body>"@).subrange(0, before.len() as int) =~= before);
    if next.1@.len() == 0 {
        assert(issue_parts_model(uri, issues.push(next)) =~= issue_parts_model(uri, issues));
    }
}

/// The whole page for issues paired with their kept comments.
pub fn summary_page(uri: &str, issues: &Vec<(IssueBean, Vec<TimedComment>)>) -> (r: String)
    ensures
        r@ == summary_page_model(uri@, issues@),
{
    let mut r = page_head();
    let ghost head = r@;
    let mut i: usize = 0;
    while i < issues.len()
        invariant
            i <= issues@.len(),
            head == page_head_model(),
            r@ == head + issue_parts_model(uri@, issues@.take(i as int)),
        decreases issues.len() - i,
    {
        let part = issue_part(uri, &issues[i].0, &issues[i].1);
        push_str(&mut r, part.as_str());
        assert(issues@.take(i + 1).drop_last() =~= issues@.take(i as int));
        i = i + 1;
    }
    assert(issues@.take(i as int) =~= issues@);
    let tail = page_tail();
    push_str(&mut r, tail.as_str());
    r
}

/// The stored credentials.
#[derive(Debug)]
pub struct AuthData {
    pub user: String,
    pub password: String,
}

impl Default for AuthData {
    /// Empty credentials, as written to a fresh credentials file.
    fn default() -> (r: Self)
        ensures
            r.user@.len() == 0,
            r.password@.len() == 0,
    {
        AuthData { user: String::new(), password: String::new() }
    }
}

impl AuthData {
    /// Whether the credentials are still the empty ones of a fresh file.
    pub fn is_unset(&self) -> (r: bool)
        ensures
            r == (self.user@.len() == 0 && self.password@.len() == 0),
    {
        self.user.as_str().is_empty() && self.password.as_str().is_empty()
    }
}

/// Errors while reading the stored credentials.
#[derive(Debug)]
pub enum GetAuthError {
    NoConfigDir,
    AuthPathNotFile,
    AuthDirCreate(std::io::Error),
    AuthFileCreate(std::io::Error),
    SampleSerialize(serde_json::Error),
    AuthFileOpen(std::io::Error),
    Deserialize(serde_json::Error),
}

impl GetAuthError {
    /// The one-line description of the error.
    pub open spec fn description(&self) -> Seq<char> {
        match self {
            GetAuthError::NoConfigDir => "no config dir"@,
            GetAuthError::AuthPathNotFile => "auth config is not a file"@,
            GetAuthError::AuthDirCreate(_) => "could not create auth dir"@,
            GetAuthError::AuthFileCreate(_) => "failed to create auth file"@,
            GetAuthError::SampleSerialize(_) => "failed to serialize auth file"@,
            GetAuthError::AuthFileOpen(_) => "failed to open auth file"@,
            GetAuthError::Deserialize(_) => "failed to deserialize auth file"@,
        }
    }

    /// The one-line description of the error, as text.
    pub fn message(&self) -> (r: String)
        ensures
            r@ == self.description(),
    {
        match self {
            GetAuthError::NoConfigDir => String::from_str("no config dir"),
            GetAuthError::AuthPathNotFile => String::from_str("auth config is not a file"),
            GetAuthError::AuthDirCreate(_) => String::from_str("could not create auth dir"),
            GetAuthError::AuthFileCreate(_) => String::from_str("failed to create auth file"),
            GetAuthError::SampleSerialize(_) => String::from_str("failed to serialize auth file"),
            GetAuthError::AuthFileOpen(_) => String::from_str("failed to open auth file"),
            GetAuthError::Deserialize(_) => String::from_str("failed to deserialize auth file"),
        }
    }
}

/// What to do with the credentials path, given what is there: `None` when
/// nothing is, `Some(is_file)` otherwise. Something that is not a file is
/// refused; the result says whether the file already exists (when it does
/// not, an empty one is written first).
pub fn auth_file_exists(found: Option<bool>) -> (r: Result<bool, GetAuthError>)
    ensures
        match found {
            None => r == Ok::<bool, GetAuthError>(false),
            Some(true) => r == Ok::<bool, GetAuthError>(true),
            Some(false) => r matches Err(e) && e is AuthPathNotFile,
        },
{
    match found {
        None => Ok(false),
        Some(true) => Ok(true),
        Some(false) => Err(GetAuthError::AuthPathNotFile),
    }
}

/// Errors that end a run.
pub enum MainError {
    ArgParseError(ArgParseError),
    Auth(GetAuthError),
    Search(SearchError),
    GetComments(GetCommentError),
    WriteCss(std::io::Error),
    WriteJs(std::io::Error),
    OpenOutput(std::io::Error),
    OutputWriteFailed(std::io::Error),
    DownloadImageFailed(ImageDownloadError),
    DefaultAuth,
}

impl MainError {
    /// The first line of the report of the error; the causes follow it.
    pub open spec fn headline_model(&self) -> Seq<char> {
        match self {
            MainError::ArgParseError(_) => "failed to parse arguments"@,
            MainError::Auth(_) => "failed to get authorization"@,
            MainError::Search(_) => "failed to execute search"@,
            MainError::GetComments(_) => "failed to get comments"@,
            MainError::WriteCss(_) => "failed to write css to output"@,
            MainError::WriteJs(_) => "failed to write js to output"@,
            MainError::OpenOutput(_) => "failed to open output"@,
            MainError::OutputWriteFailed(_) => "failed to write to output"@,
            MainError::DownloadImageFailed(_) => "failed to download image"@,
            MainError::DefaultAuth => "auth is not populated with user data"@,
        }
    }

    /// The first line of the report of the error.
    pub fn headline(&self) -> (r: String)
        ensures
            r@ == self.headline_model(),
    {
        match self {
            MainError::ArgParseError(_) => String::from_str("failed to parse arguments"),
            MainError::Auth(_) => String::from_str("failed to get authorization"),
            MainError::Search(_) => String::from_str("failed to execute search"),
            MainError::GetComments(_) => String::from_str("failed to get comments"),
            MainError::WriteCss(_) => String::from_str("failed to write css to output"),
            MainError::WriteJs(_) => String::from_str("failed to write js to output"),
            MainError::OpenOutput(_) => String::from_str("failed to open output"),
            MainError::OutputWriteFailed(_) => String::from_str("failed to write to output"),
            MainError::DownloadImageFailed(_) => String::from_str("failed to download image"),
            MainError::DefaultAuth => String::from_str("auth is not populated with user data"),
        }
    }

    /// The lines a run's error report starts with: the headline, then, where
    /// the cause is one of the library's own errors, a `caused by:` line with
    /// that error's description. Causes of outside types follow in the
    /// report, one line each.
    pub open spec fn report_head_model(&self) -> Seq<char> {
        let first = self.headline_model() + "\n"@;
        match self {
            MainError::ArgParseError(e) => first + "caused by: "@ + e.description() + "\n"@,
            MainError::Auth(e) => first + "caused by: "@ + e.description() + "\n"@,
            MainError::Search(e) => first + "caused by: "@ + e.description() + "\n"@,
            MainError::GetComments(e) => first + "caused by: "@ + e.description() + "\n"@,
            MainError::DownloadImageFailed(e) => first + "caused by: "@ + e.description() + "\n"@,
            _ => first,
        }
    }

    /// The lines a run's error report starts with.
    pub fn report_head(&self) -> (r: String)
        ensures
            r@ == self.report_head_model(),
    {
        let mut r = self.headline();
        push_str(&mut r, "\n");
        let cause = match self {
            MainError::ArgParseError(e) => Some(e.message()),
            MainError::Auth(e) => Some(e.message()),
            MainError::Search(e) => Some(e.message()),
            MainError::GetComments(e) => Some(e.message()),
            MainError::DownloadImageFailed(e) => Some(e.message()),
            _ => None,
        };
        match cause {
            Some(text) => {
                push_str(&mut r, "caused by: ");
                push_str(&mut r, text.as_str());
                push_str(&mut r, "\n");
            },
            None => {},
        }
        r
    }
}

/// What the run does with one issue once its comments were fetched.
pub enum IssueStep {
    /// Fetching its comments failed: the error is logged and the run goes on
    /// with the next issue.
    FetchFailed(MainError),
    /// None of its comments is kept: the run goes on with the next issue.
    NothingKept,
    /// The images of the kept comments are fetched, then the issue's part of
    /// the page is written.
    Show(IssueBean, Vec<TimedComment>),
}

/// The step for one issue, given the outcome of fetching its comments; `None`
/// where some comment's timestamp cannot be parsed.
pub fn issue_step(
    fetched: Result<(IssueBean, Vec<Comment>), MainError>,
    user: &str,
    start: &Date,
) -> (r: Option<IssueStep>)
    ensures
        match fetched {
            Err(e) => r == Some(IssueStep::FetchFailed(e)),
            Ok((issue, comments)) => {
                &&& r is Some <==> all_timestamps_parse(comments@)
                &&& r matches Some(step) ==> match step {
                    IssueStep::FetchFailed(_) => false,
                    IssueStep::NothingKept => selection(comments@, user@, *start).len() == 0,
                    IssueStep::Show(i, v) => {
                        &&& i == issue
                        &&& v@.len() > 0
                        &&& v@.map_values(|t: TimedComment| timed_model(t)) == selection(
                            comments@,
                            user@,
                            *start,
                        )
                    },
                }
            },
        },
{
    match fetched {
        Err(e) => Some(IssueStep::FetchFailed(e)),
        Ok((issue, comments)) => match select_comments(comments, user, start) {
            None => None,
            Some(kept) => {
                if kept.len() == 0 {
                    assert(kept@.map_values(|t: TimedComment| timed_model(t)).len() == 0);
                    Some(IssueStep::NothingKept)
                } else {
                    Some(IssueStep::Show(issue, kept))
                }
            },
        },
    }
}

}
