//! A pull request on display: its labels, its timeline, its reviews and its
//! checks, and what is under way for it.
use crate::github::review_types::{
    CheckRun, CombinedStatus, Commit, CommitStatus, GitHubCheckRun, GitHubCombinedStatus,
    GitHubCommitStatus, GitHubIssueComment, GitHubPullRequestCommit, GitHubPullRequestReview,
    GitHubPullRequestReviewComment, IssueComment, Review, ReviewComment,
};
use crate::github::types::{GitHubPullRequest, PullRequest};
use crate::models::told;
use crate::outside::times::{parse_rfc3339, rfc3339_time};
use crate::sorting::{
    in_order, lemma_sorted_holds, lemma_sorted_successively, lemma_stably_sorted, orders,
    stable_sort, stably_sorted, Sortable,
};
use crate::text::{
    clone_optional, comes_before, decimal, is_blank, lemma_precedes_irreflexive,
    lemma_precedes_total, lemma_precedes_transitive, lines, lines_of, number_text, precedes,
    same_text, trimmed,
};
use vstd::prelude::*;
use vstd::string::*;
use vstd::utf8::*;

verus! {

/// What a row of a list of pull requests says.
#[derive(Clone, Debug, PartialEq, Eq)]
pub struct GitHubPullRequestRowMeta {
    pub title: String,
    pub metadata: String,
}

/// A time, in nanoseconds since the epoch, and where it was told, in seconds east
/// of UTC.
#[derive(Clone, Copy, Debug, PartialEq, Eq, Structural)]
pub struct Timestamp {
    pub unix_nanoseconds: i128,
    pub offset_seconds: i32,
}

/// The time that `timestamp` says, ready to be told relative to another.
pub fn github_format_timestamp(timestamp: &str) -> (result: Option<Timestamp>)
    ensures
        result == timestamp_of(rfc3339_time(timestamp@)),
        result is None <==> rfc3339_time(timestamp@) is None,
        result matches Some(time) ==> rfc3339_time(timestamp@) == Some(
            (time.unix_nanoseconds, time.offset_seconds),
        ),
{
    make_timestamp(parse_rfc3339(timestamp))
}

/// The time that was read, if one was.
pub open spec fn timestamp_of(read: Option<(i128, i32)>) -> Option<Timestamp> {
    match read {
        Some((unix_nanoseconds, offset_seconds)) => Some(
            Timestamp { unix_nanoseconds, offset_seconds },
        ),
        None => None,
    }
}

/// The time that was read, if one was.
pub fn make_timestamp(read: Option<(i128, i32)>) -> (result: Option<Timestamp>)
    ensures
        result == timestamp_of(read),
        result is None <==> read is None,
        result matches Some(time) ==> read == Some((time.unix_nanoseconds, time.offset_seconds)),
{
    match read {
        Some((unix_nanoseconds, offset_seconds)) => Some(
            Timestamp { unix_nanoseconds, offset_seconds },
        ),
        None => None,
    }
}

/// How a time is shown, which is written as `formatted` if it is known.
pub open spec fn shown_time(formatted: Option<Seq<char>>) -> Seq<char> {
    match formatted {
        Some(text) => text,
        None => "unknown"@,
    }
}

/// How a time is shown, which is written as `formatted` if it is known.
pub fn time_or_unknown(formatted: Option<String>) -> (result: String)
    ensures
        result@ == shown_time(formatted.deep_view()),
        formatted matches Some(text) ==> result@ == text@,
        formatted is None ==> result@ == "unknown"@,
{
    match formatted {
        Some(text) => text,
        None => "unknown".to_owned(),
    }
}

/// What a row of a list of pull requests says, where `updated` is how the time of
/// the last update is written.
pub fn github_pull_request_row_meta(
    repo_name_with_owner: &str,
    pull: &GitHubPullRequest,
    updated: Option<String>,
) -> (result: GitHubPullRequestRowMeta)
    ensures
        result.title@ == pull.title@,
        result.metadata@ == repo_name_with_owner@ + " #"@ + decimal(pull.number as nat) + " · @"@
            + pull.user.login@ + " · "@ + shown_time(updated.deep_view()),
        result.metadata@ == repo_name_with_owner@ + " #"@ + decimal(pull.number as nat) + " · @"@
            + pull.user.login@ + " · "@ + match updated {
            Some(text) => text@,
            None => "unknown"@,
        },
{
    let mut metadata = repo_name_with_owner.to_owned();
    metadata.append(" #");
    metadata.append(&number_text(pull.number));
    metadata.append(" · @");
    metadata.append(&pull.user.login);
    metadata.append(" · ");
    metadata.append(&time_or_unknown(updated));
    GitHubPullRequestRowMeta { title: pull.title.clone(), metadata }
}

/// The word for the state of a pull request.
pub open spec fn state_label(pull: PullRequest) -> Seq<char> {
    if pull.draft {
        "Draft"@
    } else if pull.state == "closed"@ {
        "Closed"@
    } else if pull.state == "open"@ {
        "Open"@
    } else {
        "Unknown"@
    }
}

/// The word for the state of a pull request.
pub fn github_pull_request_state_label(pull: &GitHubPullRequest) -> (result: &'static str)
    ensures
        result@ == state_label(pull.deep_view()),
        pull.draft ==> result@ == "Draft"@,
        !pull.draft && pull.state@ == "closed"@ ==> result@ == "Closed"@,
        !pull.draft && pull.state@ == "open"@ ==> result@ == "Open"@,
        !pull.draft && pull.state@ != "closed"@ && pull.state@ != "open"@ ==> result@
            == "Unknown"@,
{
    proof {
        lemma_words_differ();
    }
    if pull.draft {
        "Draft"
    } else if same_text(&pull.state, "closed") {
        "Closed"
    } else if same_text(&pull.state, "open") {
        "Open"
    } else {
        "Unknown"
    }
}

/// How many boxes show the share of additions and deletions.
pub const BOX_COUNT: usize = 5;

/// How many boxes stand for additions and how many for deletions, where
/// `rounded_share` is the share of the boxes that the additions would take, rounded
/// to a whole number.
pub fn github_pull_request_diff_boxes(additions: u32, deletions: u32, rounded_share: usize) -> (result:
    (usize, usize))
    requires
        additions + deletions <= u32::MAX,
    ensures
        additions + deletions == 0 ==> result == (0usize, 0usize),
        additions + deletions > 0 ==> {
            &&& result.0 == if rounded_share < BOX_COUNT {
                rounded_share
            } else {
                BOX_COUNT
            }
            &&& result.0 + result.1 == BOX_COUNT
        },
        additions + deletions > 0 ==> {
            &&& result.0 + result.1 == 5
            &&& result.0 == rounded_share || (result.0 == 5 && rounded_share > 5)
        },
{
    let total: u32 = additions + deletions;
    if total == 0 {
        return (0, 0);
    }
    let added: usize = if rounded_share < BOX_COUNT {
        rounded_share
    } else {
        BOX_COUNT
    };
    (added, BOX_COUNT - added)
}

/// What a pull request says of itself.
pub open spec fn described(body: Option<Seq<char>>) -> Seq<char> {
    match body {
        Some(body) => if trimmed(body).len() > 0 {
            body
        } else {
            "No description provided."@
        },
        None => "No description provided."@,
    }
}

/// What a pull request says of itself.
pub fn github_pull_request_body_text(pull: &GitHubPullRequest) -> (result: String)
    ensures
        result@ == described(pull.deep_view().body),
        result@ == if pull.body is Some && trimmed(pull.body->0@).len() > 0 {
            pull.body->0@
        } else {
            "No description provided."@
        },
{
    match &pull.body {
        Some(body) => if is_blank(body) {
            "No description provided.".to_owned()
        } else {
            body.clone()
        },
        None => "No description provided.".to_owned(),
    }
}

/// What an entry of a timeline is.
#[derive(Clone, Copy, Debug, PartialEq, Eq, Structural)]
pub enum GitHubPullRequestTimelineItemKind {
    Commit,
    Comment,
    Review,
    ReviewComment,
}

/// An entry of the timeline of a pull request.
#[derive(Clone, Debug, PartialEq, Eq)]
pub struct GitHubPullRequestTimelineItem {
    pub kind: GitHubPullRequestTimelineItemKind,
    pub author: String,
    pub timestamp: Option<String>,
    pub title: String,
    pub metadata: Option<String>,
    pub markdown: Option<String>,
    pub url: Option<String>,
}

/// What a `GitHubPullRequestTimelineItem` holds.
#[verifier::ext_equal]
pub struct TimelineItem {
    pub kind: GitHubPullRequestTimelineItemKind,
    pub author: Seq<char>,
    pub timestamp: Option<Seq<char>>,
    pub title: Seq<char>,
    pub metadata: Option<Seq<char>>,
    pub markdown: Option<Seq<char>>,
    pub url: Option<Seq<char>>,
}

impl DeepView for GitHubPullRequestTimelineItem {
    type V = TimelineItem;

    open spec fn deep_view(&self) -> TimelineItem {
        TimelineItem {
            kind: self.kind,
            author: self.author@,
            timestamp: self.timestamp.deep_view(),
            title: self.title@,
            metadata: self.metadata.deep_view(),
            markdown: self.markdown.deep_view(),
            url: self.url.deep_view(),
        }
    }
}

/// The first line of a text.
pub open spec fn first_line(text: Seq<char>) -> Seq<char> {
    let lines = lines_of(text);
    if lines.len() > 0 {
        lines[0]
    } else {
        Seq::empty()
    }
}

/// The first line of a text.
fn take_first_line(text: &str) -> (result: String)
    ensures
        result@ == first_line(text@),
        lines_of(text@).len() > 0 ==> result@ == lines_of(text@)[0],
        lines_of(text@).len() == 0 ==> result@.len() == 0,
{
    let all = lines(text);
    if all.len() > 0 {
        assert(all.deep_view()[0] == all[0]@);
        all[0].clone()
    } else {
        String::new()
    }
}

/// The first seven bytes of an id, if they are characters of it, or else the id.
pub open spec fn short_id(sha: Seq<char>) -> Seq<char> {
    let bytes = encode_utf8(sha);
    if is_char_boundary(bytes, 7) {
        decode_utf8(bytes.subrange(0, 7))
    } else {
        sha
    }
}

/// The first seven bytes of an id, if they are characters of it, or else the id.
fn shorten_id(sha: &str) -> (result: String)
    ensures
        result@ == short_id(sha@),
        is_char_boundary(encode_utf8(sha@), 7) ==> result@ == decode_utf8(
            encode_utf8(sha@).subrange(0, 7),
        ),
        !is_char_boundary(encode_utf8(sha@), 7) ==> result@ == sha@,
{
    broadcast use encode_utf8_decode_utf8;

    if sha.is_char_boundary(7) {
        let (head, _) = sha.split_at(7);
        assert(decode_utf8(encode_utf8(head@)) == head@);
        head.to_owned()
    } else {
        sha.to_owned()
    }
}

/// Who a commit is by.
pub open spec fn commit_author(commit: Commit) -> Seq<char> {
    match commit.author {
        Some(login) => login,
        None => match commit.commit_author {
            Some(author) => match author.name {
                Some(name) => name,
                None => "unknown"@,
            },
            None => "unknown"@,
        },
    }
}

/// The entry for a commit.
pub open spec fn commit_item(commit: Commit) -> TimelineItem {
    TimelineItem {
        kind: GitHubPullRequestTimelineItemKind::Commit,
        author: commit_author(commit),
        timestamp: match commit.commit_author {
            Some(author) => author.date,
            None => None,
        },
        title: first_line(commit.message),
        metadata: Some(short_id(commit.sha)),
        markdown: None,
        url: Some(commit.html_url),
    }
}

/// The entry for a commit.
pub fn github_pr_commit_timeline_item(commit: GitHubPullRequestCommit) -> (result:
    GitHubPullRequestTimelineItem)
    ensures
        result.deep_view() == commit_item(commit.deep_view()),
        result.kind == GitHubPullRequestTimelineItemKind::Commit,
        commit.author matches Some(author) ==> result.author@ == author.login@,
        commit.author is None ==> (match commit.commit.author {
            Some(author) => result.author@ == (match author.name {
                Some(name) => name@,
                None => "unknown"@,
            }),
            None => result.author@ == "unknown"@,
        }),
        commit.commit.author matches Some(author) ==> result.timestamp.deep_view()
            == author.date.deep_view(),
        commit.commit.author is None ==> result.timestamp is None,
        lines_of(commit.commit.message@).len() > 0 ==> result.title@ == lines_of(
            commit.commit.message@,
        )[0],
        lines_of(commit.commit.message@).len() == 0 ==> result.title@.len() == 0,
        result.metadata.deep_view() == Some(
            if is_char_boundary(encode_utf8(commit.sha@), 7) {
                decode_utf8(encode_utf8(commit.sha@).subrange(0, 7))
            } else {
                commit.sha@
            },
        ),
        result.markdown is None,
        result.url.deep_view() == Some(commit.html_url@),
{
    let title = take_first_line(&commit.commit.message);
    let metadata = Some(shorten_id(&commit.sha));
    let (name, timestamp) = match commit.commit.author {
        Some(author) => (author.name, author.date),
        None => (None, None),
    };
    let author = match commit.author {
        Some(author) => author.login,
        None => match name {
            Some(name) => name,
            None => "unknown".to_owned(),
        },
    };
    GitHubPullRequestTimelineItem {
        kind: GitHubPullRequestTimelineItemKind::Commit,
        author,
        timestamp,
        title,
        metadata,
        markdown: None,
        url: Some(commit.html_url),
    }
}

/// The entry for a comment.
pub open spec fn comment_item(comment: IssueComment) -> TimelineItem {
    TimelineItem {
        kind: GitHubPullRequestTimelineItemKind::Comment,
        author: comment.user,
        timestamp: Some(comment.created_at),
        title: "Commented"@,
        metadata: None,
        markdown: Some(comment.body),
        url: Some(comment.html_url),
    }
}

/// The entry for a comment.
pub fn github_pr_issue_comment_timeline_item(comment: GitHubIssueComment) -> (result:
    GitHubPullRequestTimelineItem)
    ensures
        result.deep_view() == comment_item(comment.deep_view()),
        result.kind == GitHubPullRequestTimelineItemKind::Comment,
        result.author@ == comment.user.login@,
        result.timestamp.deep_view() == Some(comment.created_at@),
        result.title@ == "Commented"@,
        result.metadata is None,
        result.markdown.deep_view() == Some(comment.body@),
        result.url.deep_view() == Some(comment.html_url@),
{
    GitHubPullRequestTimelineItem {
        kind: GitHubPullRequestTimelineItemKind::Comment,
        author: comment.user.login,
        timestamp: Some(comment.created_at),
        title: "Commented".to_owned(),
        metadata: None,
        markdown: Some(comment.body),
        url: Some(comment.html_url),
    }
}

/// The words for the state of a review.
pub open spec fn review_state_label(state: Seq<char>) -> Seq<char> {
    if state == "APPROVED"@ {
        "Approved"@
    } else if state == "CHANGES_REQUESTED"@ {
        "Requested changes"@
    } else if state == "COMMENTED"@ {
        "Reviewed"@
    } else if state == "DISMISSED"@ {
        "Review dismissed"@
    } else if state == "PENDING"@ {
        "Review pending"@
    } else {
        "Reviewed"@
    }
}

/// The words for the state of a review.
pub fn github_pr_review_state_label(state: &str) -> (result: &'static str)
    ensures
        result@ == review_state_label(state@),
        state@ == "APPROVED"@ ==> result@ == "Approved"@,
        state@ == "CHANGES_REQUESTED"@ ==> result@ == "Requested changes"@,
        state@ == "DISMISSED"@ ==> result@ == "Review dismissed"@,
        state@ == "PENDING"@ ==> result@ == "Review pending"@,
        state@ != "APPROVED"@ && state@ != "CHANGES_REQUESTED"@ && state@ != "DISMISSED"@ && state@
            != "PENDING"@ ==> result@ == "Reviewed"@,
{
    proof {
        lemma_words_differ();
    }
    if same_text(state, "APPROVED") {
        "Approved"
    } else if same_text(state, "CHANGES_REQUESTED") {
        "Requested changes"
    } else if same_text(state, "COMMENTED") {
        "Reviewed"
    } else if same_text(state, "DISMISSED") {
        "Review dismissed"
    } else if same_text(state, "PENDING") {
        "Review pending"
    } else {
        "Reviewed"
    }
}

/// A text, unless it is blank.
pub open spec fn unless_blank(text: Option<Seq<char>>) -> Option<Seq<char>> {
    match text {
        Some(text) => if trimmed(text).len() > 0 {
            Some(text)
        } else {
            None
        },
        None => None,
    }
}

/// The entry for a review.
pub open spec fn review_item(review: Review) -> TimelineItem {
    TimelineItem {
        kind: GitHubPullRequestTimelineItemKind::Review,
        author: review.user,
        timestamp: review.submitted_at,
        title: review_state_label(review.state),
        metadata: Some(review.state),
        markdown: unless_blank(review.body),
        url: review.html_url,
    }
}

/// The entry for a review.
pub fn github_pr_review_timeline_item(review: &GitHubPullRequestReview) -> (result:
    GitHubPullRequestTimelineItem)
    ensures
        result.deep_view() == review_item(review.deep_view()),
        result.kind == GitHubPullRequestTimelineItemKind::Review,
        result.author@ == review.user.login@,
        result.timestamp.deep_view() == review.submitted_at.deep_view(),
        result.title@ == review_state_label(review.state@),
        result.metadata.deep_view() == Some(review.state@),
        result.markdown.deep_view() == if review.body is Some && trimmed(review.body->0@).len()
            > 0 {
            Some(review.body->0@)
        } else {
            None
        },
        result.url.deep_view() == review.html_url.deep_view(),
{
    let markdown = match &review.body {
        Some(body) => if is_blank(body) {
            None
        } else {
            Some(body.clone())
        },
        None => None,
    };
    GitHubPullRequestTimelineItem {
        kind: GitHubPullRequestTimelineItemKind::Review,
        author: review.user.login.clone(),
        timestamp: clone_optional(&review.submitted_at),
        title: github_pr_review_state_label(&review.state).to_owned(),
        metadata: Some(review.state.clone()),
        markdown,
        url: clone_optional(&review.html_url),
    }
}

/// How a line is written behind a path.
pub open spec fn line_suffix(line: Option<u64>, original_line: Option<u64>) -> Seq<char> {
    match (line, original_line) {
        (Some(line), _) => ":"@ + decimal(line as nat),
        (None, Some(line)) => ":"@ + decimal(line as nat),
        (None, None) => Seq::empty(),
    }
}

/// The entry for a comment on a line.
pub open spec fn review_comment_item(comment: ReviewComment) -> TimelineItem {
    TimelineItem {
        kind: GitHubPullRequestTimelineItemKind::ReviewComment,
        author: comment.user,
        timestamp: Some(comment.created_at),
        title: "Review comment"@,
        metadata: Some(comment.path + line_suffix(comment.line, comment.original_line)),
        markdown: Some(comment.body),
        url: Some(comment.html_url),
    }
}

/// The entry for a comment on a line.
pub fn github_pr_review_comment_timeline_item(comment: GitHubPullRequestReviewComment) -> (result:
    GitHubPullRequestTimelineItem)
    ensures
        result.deep_view() == review_comment_item(comment.deep_view()),
        result.kind == GitHubPullRequestTimelineItemKind::ReviewComment,
        result.author@ == comment.user.login@,
        result.timestamp.deep_view() == Some(comment.created_at@),
        result.title@ == "Review comment"@,
        result.metadata.deep_view() == Some(
            comment.path@ + match (comment.line, comment.original_line) {
                (Some(line), _) => ":"@ + decimal(line as nat),
                (None, Some(line)) => ":"@ + decimal(line as nat),
                (None, None) => Seq::<char>::empty(),
            },
        ),
        result.markdown.deep_view() == Some(comment.body@),
        result.url.deep_view() == Some(comment.html_url@),
{
    let line = match comment.line {
        Some(line) => Some(line),
        None => comment.original_line,
    };
    let mut metadata = comment.path.clone();
    if let Some(line) = line {
        let mut suffix = ":".to_owned();
        suffix.append(&number_text(line));
        metadata.append(&suffix);
    } else {
        assert(metadata@ + Seq::<char>::empty() == metadata@);
    }
    GitHubPullRequestTimelineItem {
        kind: GitHubPullRequestTimelineItemKind::ReviewComment,
        author: comment.user.login,
        timestamp: Some(comment.created_at),
        title: "Review comment".to_owned(),
        metadata: Some(metadata),
        markdown: Some(comment.body),
        url: Some(comment.html_url),
    }
}

/// The time by which an entry is placed in a timeline.
pub open spec fn placing_time(item: TimelineItem) -> Seq<char> {
    match item.timestamp {
        Some(time) => time,
        None => Seq::empty(),
    }
}

impl Sortable for GitHubPullRequestTimelineItem {
    open spec fn order() -> spec_fn(TimelineItem, TimelineItem) -> bool {
        |a: TimelineItem, b: TimelineItem| precedes(placing_time(a), placing_time(b))
    }

    fn goes_before(&self, other: &Self) -> (result: bool) {
        match &other.timestamp {
            Some(right) => match &self.timestamp {
                Some(left) => comes_before(left, right),
                None => !right.as_str().is_empty(),
            },
            None => false,
        }
    }
}

/// How many reviews came out which way, and how many are still asked for.
#[derive(Clone, Copy, Debug, PartialEq, Eq, Structural)]
pub struct GitHubPullRequestReviewSummary {
    pub approved: usize,
    pub changes_requested: usize,
    pub commented: usize,
    pub pending_reviewers: usize,
}

impl Default for GitHubPullRequestReviewSummary {
    fn default() -> (result: Self)
        ensures
            result.approved == 0,
            result.changes_requested == 0,
            result.commented == 0,
            result.pending_reviewers == 0,
    {
        GitHubPullRequestReviewSummary {
            approved: 0,
            changes_requested: 0,
            commented: 0,
            pending_reviewers: 0,
        }
    }
}

/// How many of `reviews` are in the state `state`.
pub open spec fn reviews_in_state(reviews: Seq<Review>, state: Seq<char>) -> nat {
    reviews.filter(|review: Review| review.state == state).len()
}

/// Of the first reviews no more than all are in a state, and no more than there
/// are.
proof fn lemma_reviews_in_state(reviews: Seq<Review>, n: int, state: Seq<char>)
    requires
        0 <= n < reviews.len(),
    ensures
        reviews_in_state(reviews.take(n + 1), state) == reviews_in_state(reviews.take(n), state)
            + if reviews[n].state == state {
            1nat
        } else {
            0nat
        },
        reviews_in_state(reviews.take(n), state) <= n,
{
    reveal(Seq::filter);
    let in_state = |review: Review| review.state == state;
    assert(reviews.take(n + 1).drop_last() == reviews.take(n));
    reviews.take(n).lemma_filter_len(in_state);
}

/// How many reviews came out which way.
pub fn github_pr_review_summary(
    reviews: &Vec<GitHubPullRequestReview>,
    pending_reviewers: usize,
) -> (result: GitHubPullRequestReviewSummary)
    ensures
        result.approved == reviews_in_state(reviews.deep_view(), "APPROVED"@),
        result.changes_requested == reviews_in_state(reviews.deep_view(), "CHANGES_REQUESTED"@),
        result.commented == reviews_in_state(reviews.deep_view(), "COMMENTED"@),
        result.pending_reviewers == pending_reviewers,
        result.approved == reviews.deep_view().filter(
            |review: Review| review.state == "APPROVED"@,
        ).len(),
        result.changes_requested == reviews.deep_view().filter(
            |review: Review| review.state == "CHANGES_REQUESTED"@,
        ).len(),
        result.commented == reviews.deep_view().filter(
            |review: Review| review.state == "COMMENTED"@,
        ).len(),
{
    let ghost models = reviews.deep_view();
    let mut summary = GitHubPullRequestReviewSummary {
        approved: 0,
        changes_requested: 0,
        commented: 0,
        pending_reviewers,
    };
    proof {
        reveal(Seq::filter);
        reveal_strlit("APPROVED");
        reveal_strlit("CHANGES_REQUESTED");
        reveal_strlit("COMMENTED");
    }
    for i in 0..reviews.len()
        invariant
            models == reviews.deep_view(),
            "APPROVED"@.len() == 8,
            "CHANGES_REQUESTED"@.len() == 17,
            "COMMENTED"@.len() == 9,
            summary.approved == reviews_in_state(models.take(i as int), "APPROVED"@),
            summary.changes_requested == reviews_in_state(
                models.take(i as int),
                "CHANGES_REQUESTED"@,
            ),
            summary.commented == reviews_in_state(models.take(i as int), "COMMENTED"@),
            summary.pending_reviewers == pending_reviewers,
    {
        let state = &reviews[i].state;
        proof {
            assert(models[i as int].state == state@);
            lemma_reviews_in_state(models, i as int, "APPROVED"@);
            lemma_reviews_in_state(models, i as int, "CHANGES_REQUESTED"@);
            lemma_reviews_in_state(models, i as int, "COMMENTED"@);
        }
        if same_text(state, "APPROVED") {
            summary.approved = summary.approved + 1;
        } else if same_text(state, "CHANGES_REQUESTED") {
            summary.changes_requested = summary.changes_requested + 1;
        } else if same_text(state, "COMMENTED") {
            summary.commented = summary.commented + 1;
        }
    }
    assert(models.take(models.len() as int) == models);
    summary
}

/// How a check came out.
#[derive(Clone, Copy, Debug, PartialEq, Eq, Structural)]
pub enum GitHubPullRequestCheckState {
    Passed,
    Failed,
    Pending,
    Skipped,
    Missing,
}

/// A check of a pull request.
#[derive(Clone, Debug, PartialEq, Eq)]
pub struct GitHubPullRequestCheckItem {
    pub name: String,
    pub state: GitHubPullRequestCheckState,
    pub description: Option<String>,
    pub url: Option<String>,
}

/// What a `GitHubPullRequestCheckItem` holds.
#[verifier::ext_equal]
pub struct CheckItem {
    pub name: Seq<char>,
    pub state: GitHubPullRequestCheckState,
    pub description: Option<Seq<char>>,
    pub url: Option<Seq<char>>,
}

impl DeepView for GitHubPullRequestCheckItem {
    type V = CheckItem;

    open spec fn deep_view(&self) -> CheckItem {
        CheckItem {
            name: self.name@,
            state: self.state,
            description: self.description.deep_view(),
            url: self.url.deep_view(),
        }
    }
}

/// The checks of a pull request, and how they came out together.
#[derive(Clone, Debug, PartialEq, Eq)]
pub struct GitHubPullRequestChecksSummary {
    pub overall: GitHubPullRequestCheckState,
    pub items: Vec<GitHubPullRequestCheckItem>,
}

/// What a `GitHubPullRequestChecksSummary` holds.
#[verifier::ext_equal]
pub struct ChecksSummary {
    pub overall: GitHubPullRequestCheckState,
    pub items: Seq<CheckItem>,
}

impl DeepView for GitHubPullRequestChecksSummary {
    type V = ChecksSummary;

    open spec fn deep_view(&self) -> ChecksSummary {
        ChecksSummary { overall: self.overall, items: self.items.deep_view() }
    }
}

/// How a run of a check came out.
pub open spec fn run_state(run: CheckRun) -> GitHubPullRequestCheckState {
    if run.status != "completed"@ {
        GitHubPullRequestCheckState::Pending
    } else {
        match run.conclusion {
            None => GitHubPullRequestCheckState::Pending,
            Some(conclusion) => if conclusion == "success"@ || conclusion == "neutral"@ {
                GitHubPullRequestCheckState::Passed
            } else if conclusion == "skipped"@ {
                GitHubPullRequestCheckState::Skipped
            } else if conclusion == "cancelled"@ || conclusion == "timed_out"@ || conclusion
                == "failure"@ || conclusion == "action_required"@ {
                GitHubPullRequestCheckState::Failed
            } else {
                GitHubPullRequestCheckState::Pending
            },
        }
    }
}

/// How a run of a check came out.
pub fn check_run_state(run: &GitHubCheckRun) -> (result: GitHubPullRequestCheckState)
    ensures
        result == run_state(run.deep_view()),
        run.status@ != "completed"@ ==> result is Pending,
        run.conclusion is None ==> result is Pending,
        result is Passed <==> run.status@ == "completed"@ && run.conclusion is Some && (
        run.conclusion->0@ == "success"@ || run.conclusion->0@ == "neutral"@),
        result is Skipped <==> run.status@ == "completed"@ && run.conclusion is Some
            && run.conclusion->0@ == "skipped"@,
        result is Failed <==> run.status@ == "completed"@ && run.conclusion is Some && (
        run.conclusion->0@ == "cancelled"@ || run.conclusion->0@ == "timed_out"@
            || run.conclusion->0@ == "failure"@ || run.conclusion->0@ == "action_required"@),
        !(result is Missing),
{
    proof {
        lemma_words_differ();
    }
    if !same_text(&run.status, "completed") {
        return GitHubPullRequestCheckState::Pending;
    }
    match &run.conclusion {
        None => GitHubPullRequestCheckState::Pending,
        Some(conclusion) => {
            if same_text(conclusion, "success") || same_text(conclusion, "neutral") {
                GitHubPullRequestCheckState::Passed
            } else if same_text(conclusion, "skipped") {
                GitHubPullRequestCheckState::Skipped
            } else if same_text(conclusion, "cancelled") || same_text(conclusion, "timed_out")
                || same_text(conclusion, "failure") || same_text(conclusion, "action_required") {
                GitHubPullRequestCheckState::Failed
            } else {
                GitHubPullRequestCheckState::Pending
            }
        },
    }
}

/// How a status of a commit came out.
pub open spec fn status_state(state: Seq<char>) -> GitHubPullRequestCheckState {
    if state == "success"@ {
        GitHubPullRequestCheckState::Passed
    } else if state == "failure"@ || state == "error"@ {
        GitHubPullRequestCheckState::Failed
    } else if state == "pending"@ {
        GitHubPullRequestCheckState::Pending
    } else {
        GitHubPullRequestCheckState::Missing
    }
}

/// How a status of a commit came out.
pub fn combined_status_state(state: &str) -> (result: GitHubPullRequestCheckState)
    ensures
        result == status_state(state@),
        result is Passed <==> state@ == "success"@,
        result is Failed <==> state@ == "failure"@ || state@ == "error"@,
        result is Pending <==> state@ == "pending"@,
        !(result is Skipped),
{
    proof {
        lemma_status_state(state@);
    }
    if same_text(state, "success") {
        GitHubPullRequestCheckState::Passed
    } else if same_text(state, "failure") || same_text(state, "error") {
        GitHubPullRequestCheckState::Failed
    } else if same_text(state, "pending") {
        GitHubPullRequestCheckState::Pending
    } else {
        GitHubPullRequestCheckState::Missing
    }
}

/// How a status of a commit came out.
pub fn commit_status_state(status: &GitHubCommitStatus) -> (result: GitHubPullRequestCheckState)
    ensures
        result == status_state(status.deep_view().state),
        result is Passed <==> status.state@ == "success"@,
        result is Failed <==> status.state@ == "failure"@ || status.state@ == "error"@,
        result is Pending <==> status.state@ == "pending"@,
        !(result is Skipped),
{
    combined_status_state(&status.state)
}

/// The check that a run stands for.
pub open spec fn run_item(run: CheckRun) -> CheckItem {
    CheckItem {
        name: run.name,
        state: run_state(run),
        description: match run.conclusion {
            Some(conclusion) => Some(conclusion),
            None => Some(run.status),
        },
        url: Some(run.html_url),
    }
}

/// The check that a run stands for.
fn item_for_run(run: GitHubCheckRun) -> (result: GitHubPullRequestCheckItem)
    ensures
        result.deep_view() == run_item(run.deep_view()),
        result.name@ == run.name@,
        result.state == run_state(run.deep_view()),
        result.description.deep_view() == Some(
            match run.conclusion {
                Some(conclusion) => conclusion@,
                None => run.status@,
            },
        ),
        result.url.deep_view() == Some(run.html_url@),
{
    let state = check_run_state(&run);
    let description = match run.conclusion {
        Some(conclusion) => Some(conclusion),
        None => Some(run.status),
    };
    GitHubPullRequestCheckItem { name: run.name, state, description, url: Some(run.html_url) }
}

/// The check that a status stands for.
pub open spec fn status_item(status: CommitStatus) -> CheckItem {
    CheckItem {
        name: status.context,
        state: status_state(status.state),
        description: status.description,
        url: status.target_url,
    }
}

/// The check that a status stands for.
fn item_for_status(status: GitHubCommitStatus) -> (result: GitHubPullRequestCheckItem)
    ensures
        result.deep_view() == status_item(status.deep_view()),
        result.name@ == status.context@,
        result.state == status_state(status.state@),
        result.description.deep_view() == status.description.deep_view(),
        result.url.deep_view() == status.target_url.deep_view(),
{
    let state = commit_status_state(&status);
    GitHubPullRequestCheckItem {
        name: status.context,
        state,
        description: status.description,
        url: status.target_url,
    }
}

/// The checks of a pull request: its runs, then its statuses, or the statuses all
/// in one where they are counted but neither is listed.
pub open spec fn check_items(runs: Seq<CheckRun>, status: Option<CombinedStatus>) -> Seq<CheckItem> {
    let from_runs = runs.map_values(|run: CheckRun| run_item(run));
    match status {
        None => from_runs,
        Some(status) => {
            let listed = from_runs + status.statuses.map_values(
                |status: CommitStatus| status_item(status),
            );
            if listed.len() == 0 && status.total_count > 0 {
                seq![
                    CheckItem {
                        name: "Commit status"@,
                        state: status_state(status.state),
                        description: Some(status.state),
                        url: None,
                    },
                ]
            } else {
                listed
            }
        },
    }
}

/// Whether some check is in the state `state`.
pub open spec fn some_in_state(items: Seq<CheckItem>, state: GitHubPullRequestCheckState) -> bool {
    exists|i: int| 0 <= i < items.len() && (#[trigger] items[i]).state == state
}

/// Whether every check is in the state `state`.
pub open spec fn all_in_state(items: Seq<CheckItem>, state: GitHubPullRequestCheckState) -> bool {
    forall|i: int| 0 <= i < items.len() ==> (#[trigger] items[i]).state == state
}

/// How checks came out together: failed if one failed, else pending if one is,
/// else skipped if all were.
pub open spec fn overall_state(items: Seq<CheckItem>) -> GitHubPullRequestCheckState {
    if items.len() == 0 {
        GitHubPullRequestCheckState::Missing
    } else if some_in_state(items, GitHubPullRequestCheckState::Failed) {
        GitHubPullRequestCheckState::Failed
    } else if some_in_state(items, GitHubPullRequestCheckState::Pending) {
        GitHubPullRequestCheckState::Pending
    } else if all_in_state(items, GitHubPullRequestCheckState::Skipped) {
        GitHubPullRequestCheckState::Skipped
    } else {
        GitHubPullRequestCheckState::Passed
    }
}

/// Whether some check is in the state `state`.
fn any_in_state(
    items: &Vec<GitHubPullRequestCheckItem>,
    state: GitHubPullRequestCheckState,
) -> (result: bool)
    ensures
        result == some_in_state(items.deep_view(), state),
{
    for i in 0..items.len()
        invariant
            forall|j: int| 0 <= j < i ==> (#[trigger] items.deep_view()[j]).state != state,
    {
        if items[i].state == state {
            assert(items.deep_view()[i as int].state == state);
            return true;
        }
        assert(items.deep_view()[i as int].state != state);
    }
    false
}

/// How checks came out together.
pub fn checks_overall_state(items: &Vec<GitHubPullRequestCheckItem>) -> (result:
    GitHubPullRequestCheckState)
    ensures
        result == overall_state(items.deep_view()),
        result is Missing <==> items@.len() == 0,
        result is Failed <==> exists|i: int|
            0 <= i < items@.len() && (#[trigger] items@[i]).state
                == GitHubPullRequestCheckState::Failed,
        result is Pending <==> !(result is Failed) && exists|i: int|
            0 <= i < items@.len() && (#[trigger] items@[i]).state
                == GitHubPullRequestCheckState::Pending,
        result is Skipped <==> items@.len() > 0 && forall|i: int|
            0 <= i < items@.len() ==> (#[trigger] items@[i]).state
                == GitHubPullRequestCheckState::Skipped,
{
    proof {
        lemma_overall_state(items.deep_view());
        assert forall|i: int| 0 <= i < items@.len() implies (#[trigger] items@[i]).state
            == items.deep_view()[i].state by {}
        assert forall|i: int| 0 <= i < items.deep_view().len() implies (
        #[trigger] items.deep_view()[i]).state == items@[i].state by {}
    }
    if items.len() == 0 {
        return GitHubPullRequestCheckState::Missing;
    }
    if any_in_state(items, GitHubPullRequestCheckState::Failed) {
        return GitHubPullRequestCheckState::Failed;
    }
    if any_in_state(items, GitHubPullRequestCheckState::Pending) {
        return GitHubPullRequestCheckState::Pending;
    }
    for i in 0..items.len()
        invariant
            forall|j: int|
                0 <= j < i ==> (#[trigger] items.deep_view()[j]).state
                    == GitHubPullRequestCheckState::Skipped,
            items.len() > 0,
            forall|j: int|
                0 <= j < items@.len() ==> (#[trigger] items@[j]).state
                    == items.deep_view()[j].state,
            !some_in_state(items.deep_view(), GitHubPullRequestCheckState::Failed),
            !some_in_state(items.deep_view(), GitHubPullRequestCheckState::Pending),
    {
        if items[i].state != GitHubPullRequestCheckState::Skipped {
            assert(items.deep_view()[i as int].state != GitHubPullRequestCheckState::Skipped);
            return GitHubPullRequestCheckState::Passed;
        }
        assert(items.deep_view()[i as int].state == GitHubPullRequestCheckState::Skipped);
    }
    GitHubPullRequestCheckState::Skipped
}

/// One failed check is enough for all of them to have failed.
pub proof fn lemma_failure_prevails(items: Seq<CheckItem>, i: int)
    requires
        0 <= i < items.len(),
        items[i].state == GitHubPullRequestCheckState::Failed,
    ensures
        overall_state(items) == GitHubPullRequestCheckState::Failed,
{
}

/// Checks have passed together only if none of them failed or is pending, and one
/// of them was not skipped.
pub proof fn lemma_passed(items: Seq<CheckItem>)
    ensures
        overall_state(items) == GitHubPullRequestCheckState::Passed <==> {
            &&& forall|i: int|
                0 <= i < items.len() ==> (#[trigger] items[i]).state
                    != GitHubPullRequestCheckState::Failed && items[i].state
                    != GitHubPullRequestCheckState::Pending
            &&& exists|i: int|
                0 <= i < items.len() && (#[trigger] items[i]).state
                    != GitHubPullRequestCheckState::Skipped
        },
{
    if forall|i: int|
        0 <= i < items.len() ==> (#[trigger] items[i]).state != GitHubPullRequestCheckState::Failed
            && items[i].state != GitHubPullRequestCheckState::Pending {
        assert(!some_in_state(items, GitHubPullRequestCheckState::Failed));
        assert(!some_in_state(items, GitHubPullRequestCheckState::Pending));
    }
}

/// The checks of a pull request, and how they came out together.
pub open spec fn checks_summary(runs: Seq<CheckRun>, status: Option<CombinedStatus>) -> ChecksSummary {
    ChecksSummary {
        overall: overall_state(check_items(runs, status)),
        items: check_items(runs, status),
    }
}

/// The checks of a pull request, and how they came out together.
pub fn github_pr_checks_summary(
    check_runs: Vec<GitHubCheckRun>,
    combined_status: Option<GitHubCombinedStatus>,
) -> (result: GitHubPullRequestChecksSummary)
    ensures
        result.deep_view() == checks_summary(check_runs.deep_view(), combined_status.deep_view()),
        combined_status matches Some(status) ==> ((exists|i: int|
            0 <= i < status.statuses@.len() && ((#[trigger] status.statuses@[i]).state@
                == "failure"@ || status.statuses@[i].state@ == "error"@)) ==> result.overall
            == GitHubPullRequestCheckState::Failed),
        combined_status matches Some(status) ==> (check_runs@.len() == 0 && status.statuses@.len()
            == 0 && status.total_count > 0 && (status.state@ == "failure"@ || status.state@
            == "error"@) ==> result.overall == GitHubPullRequestCheckState::Failed),
        (exists|i: int|
            0 <= i < check_runs@.len() && run_state((#[trigger] check_runs@[i]).deep_view())
                == GitHubPullRequestCheckState::Failed) ==> result.overall
            == GitHubPullRequestCheckState::Failed,
        forall|i: int|
            0 <= i < check_runs@.len() ==> i < result.items@.len() && (#[trigger]
            result.items@[i]).name@ == check_runs@[i].name@,
{
    let ghost from_runs = check_runs.deep_view().map_values(|run: CheckRun| run_item(run));
    let ghost runs = check_runs.deep_view();
    let ghost combined = combined_status.deep_view();
    let ghost given = combined_status;
    let mut items: Vec<GitHubPullRequestCheckItem> = Vec::new();
    for run in iter: check_runs
        invariant
            iter.seq() == check_runs@,
            runs == check_runs.deep_view(),
            from_runs == runs.map_values(|run: CheckRun| run_item(run)),
            items.deep_view() == from_runs.take(iter.index() as int),
    {
        let ghost before = items.deep_view();
        let ghost n = iter.index() as int;
        assert(runs[n] == run.deep_view());
        items.push(item_for_run(run));
        assert(items.deep_view() == before.push(from_runs[n]));
    }
    assert(items.deep_view() == from_runs);
    if let Some(status) = combined_status {
        let ghost statuses = status.statuses.deep_view();
        let ghost from_statuses = statuses.map_values(|status: CommitStatus| status_item(status));
        for each in iter: status.statuses
            invariant
                iter.seq() == status.statuses@,
                statuses == status.statuses.deep_view(),
                from_statuses == statuses.map_values(|status: CommitStatus| status_item(status)),
                items.deep_view() == from_runs + from_statuses.take(iter.index() as int),
        {
            let ghost before = items.deep_view();
            let ghost n = iter.index() as int;
            assert(statuses[n] == each.deep_view());
            items.push(item_for_status(each));
            assert(items.deep_view() == before.push(from_statuses[n]));
        }
        assert(items.deep_view() == from_runs + from_statuses);
        assert(items.deep_view().len() == items.len());
        if items.len() == 0 && status.total_count > 0 {
            let state = combined_status_state(&status.state);
            let ghost before = items.deep_view();
            items.push(
                GitHubPullRequestCheckItem {
                    name: "Commit status".to_owned(),
                    state,
                    description: Some(status.state),
                    url: None,
                },
            );
            assert(items.deep_view().len() == 1);
            assert(items.deep_view()[0] == check_items(runs, combined)[0]);
        }
    }
    assert(items.deep_view() == check_items(runs, combined));
    let overall = checks_overall_state(&items);
    proof {
        assert forall|i: int| 0 <= i < runs.len() implies i < items@.len() && (#[trigger]
        items@[i]).name@ == check_runs@[i].name@ && items@[i].state == run_state(
            check_runs@[i].deep_view(),
        ) by {
            lemma_run_is_listed(runs, combined, i);
            assert(items.deep_view()[i] == items@[i].deep_view());
            assert(runs[i] == check_runs@[i].deep_view());
        }
        if exists|i: int|
            0 <= i < check_runs@.len() && run_state((#[trigger] check_runs@[i]).deep_view())
                == GitHubPullRequestCheckState::Failed {
            let i = choose|i: int|
                0 <= i < check_runs@.len() && run_state((#[trigger] check_runs@[i]).deep_view())
                    == GitHubPullRequestCheckState::Failed;
            assert(items@[i].state == GitHubPullRequestCheckState::Failed);
        }
        if let Some(status) = given {
            let statuses = status.statuses@;
            if exists|i: int|
                0 <= i < statuses.len() && ((#[trigger] statuses[i]).state@ == "failure"@
                    || statuses[i].state@ == "error"@) {
                let i = choose|i: int|
                    0 <= i < statuses.len() && ((#[trigger] statuses[i]).state@ == "failure"@
                        || statuses[i].state@ == "error"@);
                assert(status.statuses.deep_view()[i] == statuses[i].deep_view());
                lemma_status_is_listed(runs, combined, i);
            }
            lemma_status_state(status.state@);
        }
    }
    GitHubPullRequestChecksSummary { overall, items }
}

/// A part of what is known about the review of a pull request.
#[derive(Clone, Copy, Debug, PartialEq, Eq, Structural)]
pub enum ReviewDetailPart {
    Commits,
    IssueComments,
    Reviews,
    ReviewComments,
    CheckRuns,
    CombinedStatus,
}

/// What a part is asked of: a pull request or a commit.
#[derive(Clone, Debug, PartialEq, Eq)]
pub enum ReviewSubject {
    Pull { number: u64 },
    Commit { sha: String },
}

/// What a `ReviewSubject` holds.
pub enum SubjectModel {
    Pull { number: u64 },
    Commit { sha: Seq<char> },
}

impl DeepView for ReviewSubject {
    type V = SubjectModel;

    open spec fn deep_view(&self) -> SubjectModel {
        match self {
            ReviewSubject::Pull { number } => SubjectModel::Pull { number: *number },
            ReviewSubject::Commit { sha } => SubjectModel::Commit { sha: sha@ },
        }
    }
}

/// What is to be loaded.
#[derive(Clone, Debug, PartialEq, Eq)]
pub struct ReviewDetailQuery {
    pub part: ReviewDetailPart,
    pub subject: ReviewSubject,
}

impl DeepView for ReviewDetailQuery {
    type V = (ReviewDetailPart, SubjectModel);

    open spec fn deep_view(&self) -> (ReviewDetailPart, SubjectModel) {
        (self.part, self.subject.deep_view())
    }
}

/// What is to be loaded about the review of a pull request, in this order. The
/// checks are those of the last commit of the branch that is to be merged.
pub fn load_github_pull_request_review_detail(pull: &GitHubPullRequest) -> (result: Vec<
    ReviewDetailQuery,
>)
    ensures
        result.deep_view() == seq![
            (ReviewDetailPart::Commits, SubjectModel::Pull { number: pull.number }),
            (ReviewDetailPart::IssueComments, SubjectModel::Pull { number: pull.number }),
            (ReviewDetailPart::Reviews, SubjectModel::Pull { number: pull.number }),
            (ReviewDetailPart::ReviewComments, SubjectModel::Pull { number: pull.number }),
            (ReviewDetailPart::CheckRuns, SubjectModel::Commit { sha: pull.deep_view().head.sha }),
            (
                ReviewDetailPart::CombinedStatus,
                SubjectModel::Commit { sha: pull.deep_view().head.sha },
            ),
        ],
        result@.len() == 6,
        forall|i: int|
            0 <= i < 4 ==> (#[trigger] result@[i]).subject == (ReviewSubject::Pull {
                number: pull.number,
            }),
        forall|i: int|
            4 <= i < 6 ==> ((#[trigger] result@[i]).subject matches ReviewSubject::Commit { sha }
                && sha@ == pull.head.sha@),
{
    let number = pull.number;
    let result = vec![
        ReviewDetailQuery {
            part: ReviewDetailPart::Commits,
            subject: ReviewSubject::Pull { number },
        },
        ReviewDetailQuery {
            part: ReviewDetailPart::IssueComments,
            subject: ReviewSubject::Pull { number },
        },
        ReviewDetailQuery {
            part: ReviewDetailPart::Reviews,
            subject: ReviewSubject::Pull { number },
        },
        ReviewDetailQuery {
            part: ReviewDetailPart::ReviewComments,
            subject: ReviewSubject::Pull { number },
        },
        ReviewDetailQuery {
            part: ReviewDetailPart::CheckRuns,
            subject: ReviewSubject::Commit { sha: pull.head.sha.clone() },
        },
        ReviewDetailQuery {
            part: ReviewDetailPart::CombinedStatus,
            subject: ReviewSubject::Commit { sha: pull.head.sha.clone() },
        },
    ];
    assert(result.deep_view() == seq![
        (ReviewDetailPart::Commits, SubjectModel::Pull { number }),
        (ReviewDetailPart::IssueComments, SubjectModel::Pull { number }),
        (ReviewDetailPart::Reviews, SubjectModel::Pull { number }),
        (ReviewDetailPart::ReviewComments, SubjectModel::Pull { number }),
        (ReviewDetailPart::CheckRuns, SubjectModel::Commit { sha: pull.head.sha@ }),
        (ReviewDetailPart::CombinedStatus, SubjectModel::Commit { sha: pull.head.sha@ }),
    ]);
    result
}

/// What was loaded about the review of a pull request, or why it was not.
pub struct GitHubPullRequestReviewDetailLoad {
    pub commits: Result<Vec<GitHubPullRequestCommit>, String>,
    pub issue_comments: Result<Vec<GitHubIssueComment>, String>,
    pub reviews: Result<Vec<GitHubPullRequestReview>, String>,
    pub review_comments: Result<Vec<GitHubPullRequestReviewComment>, String>,
    pub check_runs: Result<Vec<GitHubCheckRun>, String>,
    pub combined_status: Result<GitHubCombinedStatus, String>,
}

/// What a `GitHubPullRequestReviewDetailLoad` holds.
pub struct ReviewDetailLoad {
    pub commits: Result<Seq<Commit>, Seq<char>>,
    pub issue_comments: Result<Seq<IssueComment>, Seq<char>>,
    pub reviews: Result<Seq<Review>, Seq<char>>,
    pub review_comments: Result<Seq<ReviewComment>, Seq<char>>,
    pub check_runs: Result<Seq<CheckRun>, Seq<char>>,
    pub combined_status: Result<CombinedStatus, Seq<char>>,
}

impl DeepView for GitHubPullRequestReviewDetailLoad {
    type V = ReviewDetailLoad;

    open spec fn deep_view(&self) -> ReviewDetailLoad {
        ReviewDetailLoad {
            commits: told(self.commits),
            issue_comments: told(self.issue_comments),
            reviews: told(self.reviews),
            review_comments: told(self.review_comments),
            check_runs: told(self.check_runs),
            combined_status: told(self.combined_status),
        }
    }
}

/// What is shown about the review of a pull request.
#[derive(Clone, Debug, PartialEq, Eq)]
pub struct GitHubPullRequestReviewDetail {
    pub timeline: Vec<GitHubPullRequestTimelineItem>,
    pub review_summary: GitHubPullRequestReviewSummary,
    pub checks_summary: GitHubPullRequestChecksSummary,
    pub errors: Vec<String>,
}

/// The list that was loaded, or an empty one.
pub open spec fn loaded<A>(list: Result<Seq<A>, Seq<char>>) -> Seq<A> {
    match list {
        Ok(list) => list,
        Err(_) => Seq::empty(),
    }
}

/// What is said of something that was not loaded.
pub open spec fn load_error<A>(what: Seq<char>, list: Result<A, Seq<char>>) -> Seq<Seq<char>> {
    match list {
        Ok(_) => Seq::empty(),
        Err(problem) => seq![what + ": "@ + problem],
    }
}

/// The entries of the timeline before they are placed: commits, comments, reviews
/// and comments on lines.
pub open spec fn unplaced_timeline(load: ReviewDetailLoad) -> Seq<TimelineItem> {
    loaded(load.commits).map_values(|commit: Commit| commit_item(commit)) + loaded(
        load.issue_comments,
    ).map_values(|comment: IssueComment| comment_item(comment)) + loaded(load.reviews).map_values(
        |review: Review| review_item(review),
    ) + loaded(load.review_comments).map_values(
        |comment: ReviewComment| review_comment_item(comment),
    )
}

/// The timeline: what happened first comes first, and what has no time before
/// that.
pub open spec fn timeline(load: ReviewDetailLoad) -> Seq<TimelineItem> {
    stably_sorted(
        unplaced_timeline(load),
        |a: TimelineItem, b: TimelineItem| precedes(placing_time(a), placing_time(b)),
    )
}

/// What is said of all that was not loaded.
pub open spec fn load_errors(load: ReviewDetailLoad) -> Seq<Seq<char>> {
    load_error("Commits"@, load.commits) + load_error("Comments"@, load.issue_comments)
        + load_error("Reviews"@, load.reviews) + load_error(
        "Review comments"@,
        load.review_comments,
    ) + load_error("Check runs"@, load.check_runs) + load_error(
        "Commit status"@,
        load.combined_status,
    )
}

/// The combined status that was loaded, if it was.
pub open spec fn loaded_status(status: Result<CombinedStatus, Seq<char>>) -> Option<
    CombinedStatus,
> {
    match status {
        Ok(status) => Some(status),
        Err(_) => None,
    }
}

/// Notes that something was not loaded.
fn note_error(errors: &mut Vec<String>, what: &str, problem: &str)
    ensures
        final(errors).deep_view() == old(errors).deep_view() + seq![what@ + ": "@ + problem@],
{
    let ghost before = errors.deep_view();
    let mut message = what.to_owned();
    message.append(": ");
    message.append(problem);
    errors.push(message);
    assert(errors.deep_view() == before.push(what@ + ": "@ + problem@));
    assert(before.push(what@ + ": "@ + problem@) == before + seq![what@ + ": "@ + problem@]);
}

/// Adds an entry for each commit.
fn add_commits(
    timeline: &mut Vec<GitHubPullRequestTimelineItem>,
    commits: Vec<GitHubPullRequestCommit>,
)
    ensures
        final(timeline).deep_view() == old(timeline).deep_view()
            + commits.deep_view().map_values(|commit: Commit| commit_item(commit)),
{
    let ghost start = timeline.deep_view();
    let ghost models = commits.deep_view();
    let ghost added = models.map_values(|commit: Commit| commit_item(commit));
    for commit in iter: commits
        invariant
            iter.seq() == commits@,
            models == commits.deep_view(),
            added == models.map_values(|commit: Commit| commit_item(commit)),
            timeline.deep_view() == start + added.take(iter.index() as int),
    {
        let ghost before = timeline.deep_view();
        let ghost n = iter.index() as int;
        assert(models[n] == commit.deep_view());
        timeline.push(github_pr_commit_timeline_item(commit));
        assert(timeline.deep_view() == before.push(added[n]));
    }
    assert(added.take(added.len() as int) == added);
}

/// Adds an entry for each comment.
fn add_comments(
    timeline: &mut Vec<GitHubPullRequestTimelineItem>,
    comments: Vec<GitHubIssueComment>,
)
    ensures
        final(timeline).deep_view() == old(timeline).deep_view()
            + comments.deep_view().map_values(|comment: IssueComment| comment_item(comment)),
{
    let ghost start = timeline.deep_view();
    let ghost models = comments.deep_view();
    let ghost added = models.map_values(|comment: IssueComment| comment_item(comment));
    for comment in iter: comments
        invariant
            iter.seq() == comments@,
            models == comments.deep_view(),
            added == models.map_values(|comment: IssueComment| comment_item(comment)),
            timeline.deep_view() == start + added.take(iter.index() as int),
    {
        let ghost before = timeline.deep_view();
        let ghost n = iter.index() as int;
        assert(models[n] == comment.deep_view());
        timeline.push(github_pr_issue_comment_timeline_item(comment));
        assert(timeline.deep_view() == before.push(added[n]));
    }
    assert(added.take(added.len() as int) == added);
}

/// Adds an entry for each review.
fn add_reviews(
    timeline: &mut Vec<GitHubPullRequestTimelineItem>,
    reviews: &Vec<GitHubPullRequestReview>,
)
    ensures
        final(timeline).deep_view() == old(timeline).deep_view()
            + reviews.deep_view().map_values(|review: Review| review_item(review)),
{
    let ghost start = timeline.deep_view();
    let ghost models = reviews.deep_view();
    let ghost added = models.map_values(|review: Review| review_item(review));
    for i in 0..reviews.len()
        invariant
            models == reviews.deep_view(),
            added == models.map_values(|review: Review| review_item(review)),
            timeline.deep_view() == start + added.take(i as int),
    {
        let ghost before = timeline.deep_view();
        assert(models[i as int] == reviews[i as int].deep_view());
        timeline.push(github_pr_review_timeline_item(&reviews[i]));
        assert(timeline.deep_view() == before.push(added[i as int]));
    }
    assert(added.take(added.len() as int) == added);
}

/// Adds an entry for each comment on a line.
fn add_review_comments(
    timeline: &mut Vec<GitHubPullRequestTimelineItem>,
    comments: Vec<GitHubPullRequestReviewComment>,
)
    ensures
        final(timeline).deep_view() == old(timeline).deep_view()
            + comments.deep_view().map_values(
            |comment: ReviewComment| review_comment_item(comment),
        ),
{
    let ghost start = timeline.deep_view();
    let ghost models = comments.deep_view();
    let ghost added = models.map_values(|comment: ReviewComment| review_comment_item(comment));
    for comment in iter: comments
        invariant
            iter.seq() == comments@,
            models == comments.deep_view(),
            added == models.map_values(|comment: ReviewComment| review_comment_item(comment)),
            timeline.deep_view() == start + added.take(iter.index() as int),
    {
        let ghost before = timeline.deep_view();
        let ghost n = iter.index() as int;
        assert(models[n] == comment.deep_view());
        timeline.push(github_pr_review_comment_timeline_item(comment));
        assert(timeline.deep_view() == before.push(added[n]));
    }
    assert(added.take(added.len() as int) == added);
}

/// What is shown about the review of a pull request, from what was loaded about
/// it.
pub fn build_review_detail(
    detail: GitHubPullRequestReviewDetailLoad,
    requested_reviewers: usize,
) -> (result: GitHubPullRequestReviewDetail)
    ensures
        result.timeline.deep_view() == timeline(detail.deep_view()),
        result.errors.deep_view() == load_errors(detail.deep_view()),
        result.checks_summary.deep_view() == checks_summary(
            loaded(detail.deep_view().check_runs),
            loaded_status(detail.deep_view().combined_status),
        ),
        result.review_summary.approved == reviews_in_state(
            loaded(detail.deep_view().reviews),
            "APPROVED"@,
        ),
        result.review_summary.changes_requested == reviews_in_state(
            loaded(detail.deep_view().reviews),
            "CHANGES_REQUESTED"@,
        ),
        result.review_summary.commented == reviews_in_state(
            loaded(detail.deep_view().reviews),
            "COMMENTED"@,
        ),
        result.review_summary.pending_reviewers == requested_reviewers,
        detail.reviews matches Ok(reviews) ==> {
            &&& result.review_summary.approved == reviews.deep_view().filter(
                |review: Review| review.state == "APPROVED"@,
            ).len()
            &&& result.review_summary.changes_requested == reviews.deep_view().filter(
                |review: Review| review.state == "CHANGES_REQUESTED"@,
            ).len()
            &&& result.review_summary.commented == reviews.deep_view().filter(
                |review: Review| review.state == "COMMENTED"@,
            ).len()
        },
        detail.check_runs matches Ok(runs) ==> result.checks_summary.deep_view() == checks_summary(
            runs.deep_view(),
            match detail.combined_status {
                Ok(status) => Some(status.deep_view()),
                Err(_) => None,
            },
        ),
        detail.check_runs is Err ==> result.checks_summary.deep_view() == checks_summary(
            Seq::empty(),
            match detail.combined_status {
                Ok(status) => Some(status.deep_view()),
                Err(_) => None,
            },
        ),
        result.errors@.len() == 0 <==> detail.commits is Ok && detail.issue_comments is Ok
            && detail.reviews is Ok && detail.review_comments is Ok && detail.check_runs is Ok
            && detail.combined_status is Ok,
{
    let ghost load = detail.deep_view();
    let mut errors: Vec<String> = Vec::new();
    let mut items: Vec<GitHubPullRequestTimelineItem> = Vec::new();
    let ghost commits = loaded(load.commits).map_values(|commit: Commit| commit_item(commit));
    let ghost comments = loaded(load.issue_comments).map_values(
        |comment: IssueComment| comment_item(comment),
    );
    let ghost reviewed = loaded(load.reviews).map_values(|review: Review| review_item(review));
    let ghost line_comments = loaded(load.review_comments).map_values(
        |comment: ReviewComment| review_comment_item(comment),
    );
    match detail.commits {
        Ok(commits) => add_commits(&mut items, commits),
        Err(error) => note_error(&mut errors, "Commits", &error),
    }
    assert(items.deep_view() == commits);
    assert(errors.deep_view() == load_error("Commits"@, load.commits));
    match detail.issue_comments {
        Ok(comments) => add_comments(&mut items, comments),
        Err(error) => note_error(&mut errors, "Comments", &error),
    }
    assert(items.deep_view() == commits + comments);
    assert(errors.deep_view() == load_error("Commits"@, load.commits) + load_error(
        "Comments"@,
        load.issue_comments,
    ));
    let reviews = match detail.reviews {
        Ok(reviews) => {
            add_reviews(&mut items, &reviews);
            reviews
        },
        Err(error) => {
            note_error(&mut errors, "Reviews", &error);
            Vec::new()
        },
    };
    assert(reviews.deep_view() == loaded(load.reviews));
    assert(items.deep_view() == commits + comments + reviewed);
    assert(errors.deep_view() == load_error("Commits"@, load.commits) + load_error(
        "Comments"@,
        load.issue_comments,
    ) + load_error("Reviews"@, load.reviews));
    match detail.review_comments {
        Ok(comments) => add_review_comments(&mut items, comments),
        Err(error) => note_error(&mut errors, "Review comments", &error),
    }
    assert(items.deep_view() == unplaced_timeline(load));
    assert(errors.deep_view() == load_error("Commits"@, load.commits) + load_error(
        "Comments"@,
        load.issue_comments,
    ) + load_error("Reviews"@, load.reviews) + load_error(
        "Review comments"@,
        load.review_comments,
    ));
    let check_runs = match detail.check_runs {
        Ok(check_runs) => check_runs,
        Err(error) => {
            note_error(&mut errors, "Check runs", &error);
            Vec::new()
        },
    };
    assert(check_runs.deep_view() == loaded(load.check_runs));
    assert(errors.deep_view() == load_error("Commits"@, load.commits) + load_error(
        "Comments"@,
        load.issue_comments,
    ) + load_error("Reviews"@, load.reviews) + load_error(
        "Review comments"@,
        load.review_comments,
    ) + load_error("Check runs"@, load.check_runs));
    let combined_status = match detail.combined_status {
        Ok(status) => Some(status),
        Err(error) => {
            note_error(&mut errors, "Commit status", &error);
            None
        },
    };
    assert(combined_status.deep_view() == loaded_status(load.combined_status));
    assert(errors.deep_view() == load_errors(load));
    let review_summary = github_pr_review_summary(&reviews, requested_reviewers);
    let checks_summary = github_pr_checks_summary(check_runs, combined_status);
    GitHubPullRequestReviewDetail {
        timeline: stable_sort(items),
        review_summary,
        checks_summary,
        errors,
    }
}

/// The order of a timeline is an order.
proof fn lemma_placing_orders()
    ensures
        orders(|a: TimelineItem, b: TimelineItem| precedes(placing_time(a), placing_time(b))),
{
    let before = |a: TimelineItem, b: TimelineItem| precedes(placing_time(a), placing_time(b));
    assert forall|a: TimelineItem| !#[trigger] before(a, a) by {
        lemma_precedes_irreflexive(placing_time(a));
    }
    assert forall|a: TimelineItem, b: TimelineItem, c: TimelineItem|
        #![trigger before(a, b), before(b, c)]
        before(a, b) && before(b, c) implies before(a, c) by {
        lemma_precedes_transitive(placing_time(a), placing_time(b), placing_time(c));
    }
    assert forall|a: TimelineItem, b: TimelineItem, c: TimelineItem|
        #![trigger before(a, c), before(a, b)]
        #![trigger before(a, c), before(b, c)]
        before(a, c) implies before(a, b) || before(b, c) by {
        lemma_precedes_total(placing_time(a), placing_time(b));
        if before(b, a) {
            lemma_precedes_transitive(placing_time(b), placing_time(a), placing_time(c));
        }
    }
}

/// The timeline holds an entry for each commit, comment, review and comment on a
/// line that was loaded and nothing else, and no entry stands behind one with a
/// later time.
pub proof fn lemma_timeline(load: ReviewDetailLoad)
    ensures
        timeline(load).to_multiset() == unplaced_timeline(load).to_multiset(),
        timeline(load).len() == loaded(load.commits).len() + loaded(load.issue_comments).len()
            + loaded(load.reviews).len() + loaded(load.review_comments).len(),
        in_order(
            timeline(load),
            |a: TimelineItem, b: TimelineItem| precedes(placing_time(a), placing_time(b)),
        ),
{
    let before = |a: TimelineItem, b: TimelineItem| precedes(placing_time(a), placing_time(b));
    lemma_placing_orders();
    lemma_stably_sorted(unplaced_timeline(load), before);
}

/// Something is said of each part that was not loaded, and of nothing else.
pub proof fn lemma_load_errors(load: ReviewDetailLoad)
    ensures
        load_errors(load).len() == 0 <==> load.commits is Ok && load.issue_comments is Ok
            && load.reviews is Ok && load.review_comments is Ok && load.check_runs is Ok
            && load.combined_status is Ok,
{
}

/// How far the loading of the review has come.
#[derive(Clone, Debug, PartialEq, Eq)]
pub enum GitHubPullRequestReviewDetailState {
    NotLoaded,
    Loading,
    Loaded(GitHubPullRequestReviewDetail),
    Error(String),
}

/// What is to be fetched and checked out for a pull request.
#[derive(Clone, Debug, PartialEq, Eq)]
pub struct CheckoutOperation {
    pub remote_name: String,
    pub local_branch: String,
    pub refspec: String,
}

/// What is to be done next for a checkout.
#[derive(Debug, PartialEq, Eq)]
pub enum CheckoutAction {
    /// Fetch from a remote.
    Fetch { remote_name: String, refspec: String },
    /// Change to a branch.
    ChangeBranch { branch: String },
    /// Nothing more: the checkout went as told.
    Finish { outcome: Result<(), String> },
}

/// What a checkout does last.
#[derive(Clone, Copy, Debug, PartialEq, Eq, Structural)]
pub enum CheckoutStage {
    Fetching,
    ChangingBranch,
}

/// The branch of the remote that is checked out.
pub open spec fn remote_branch(operation: CheckoutOperation) -> Seq<char> {
    operation.remote_name@ + "/"@ + operation.local_branch@
}

/// A pull request on display.
#[derive(Clone, Debug, PartialEq, Eq)]
pub struct GitHubPullRequestView {
    pub repo_name_with_owner: String,
    pub pull: GitHubPullRequest,
    pub body_text: String,
    pub review_detail: GitHubPullRequestReviewDetailState,
    pub checking_out: bool,
    pub viewing_changes: bool,
}

impl GitHubPullRequestView {
    /// Whether nothing is loaded and nothing is under way.
    pub open spec fn is_fresh(&self) -> bool {
        &&& self.body_text@ == described(self.pull.deep_view().body)
        &&& self.review_detail is NotLoaded
        &&& !self.checking_out
        &&& !self.viewing_changes
    }

    /// A display of a pull request.
    pub fn new(repo_name_with_owner: String, pull: GitHubPullRequest) -> (result: Self)
        ensures
            result.repo_name_with_owner == repo_name_with_owner,
            result.pull == pull,
            result.is_fresh(),
            result.review_detail is NotLoaded,
            !result.checking_out,
            !result.viewing_changes,
            result.body_text@ == if pull.body is Some && trimmed(pull.body->0@).len() > 0 {
                pull.body->0@
            } else {
                "No description provided."@
            },
    {
        let body_text = github_pull_request_body_text(&pull);
        GitHubPullRequestView {
            repo_name_with_owner,
            pull,
            body_text,
            review_detail: GitHubPullRequestReviewDetailState::NotLoaded,
            checking_out: false,
            viewing_changes: false,
        }
    }

    /// Displays another pull request. Nothing of the one before is kept.
    pub fn set_pull_request(&mut self, repo_name_with_owner: String, pull: GitHubPullRequest)
        ensures
            final(self).repo_name_with_owner == repo_name_with_owner,
            final(self).pull == pull,
            final(self).is_fresh(),
            final(self).review_detail is NotLoaded,
            !final(self).checking_out,
            !final(self).viewing_changes,
            final(self).body_text@ == if pull.body is Some && trimmed(pull.body->0@).len() > 0 {
                pull.body->0@
            } else {
                "No description provided."@
            },
    {
        self.repo_name_with_owner = repo_name_with_owner;
        self.checking_out = false;
        self.viewing_changes = false;
        self.body_text = github_pull_request_body_text(&pull);
        self.pull = pull;
        self.review_detail = GitHubPullRequestReviewDetailState::NotLoaded;
    }

    /// Starts to load the review, unless that is under way. Whether it was started
    /// is returned.
    pub fn load_review_detail(&mut self) -> (started: bool)
        ensures
            started == !(old(self).review_detail is Loading),
            final(self).review_detail is Loading,
            final(self).repo_name_with_owner == old(self).repo_name_with_owner,
            final(self).pull == old(self).pull,
            final(self).body_text == old(self).body_text,
            final(self).checking_out == old(self).checking_out,
            final(self).viewing_changes == old(self).viewing_changes,
    {
        match self.review_detail {
            GitHubPullRequestReviewDetailState::Loading => false,
            _ => {
                self.review_detail = GitHubPullRequestReviewDetailState::Loading;
                true
            },
        }
    }

    /// Takes what was loaded of the review, or why nothing was.
    pub fn finish_loading(&mut self, detail: Result<GitHubPullRequestReviewDetailLoad, String>)
        ensures
            match detail {
                Ok(load) => final(self).review_detail matches
                    GitHubPullRequestReviewDetailState::Loaded(shown) && {
                    &&& shown.timeline.deep_view() == timeline(load.deep_view())
                    &&& shown.errors.deep_view() == load_errors(load.deep_view())
                    &&& shown.checks_summary.deep_view() == checks_summary(
                        loaded(load.deep_view().check_runs),
                        loaded_status(load.deep_view().combined_status),
                    )
                    &&& shown.review_summary.approved == reviews_in_state(
                        loaded(load.deep_view().reviews),
                        "APPROVED"@,
                    )
                    &&& shown.review_summary.changes_requested == reviews_in_state(
                        loaded(load.deep_view().reviews),
                        "CHANGES_REQUESTED"@,
                    )
                    &&& shown.review_summary.commented == reviews_in_state(
                        loaded(load.deep_view().reviews),
                        "COMMENTED"@,
                    )
                    &&& shown.review_summary.pending_reviewers
                        == old(self).pull.requested_reviewers@.len()
                },
                Err(message) => final(self).review_detail
                    == GitHubPullRequestReviewDetailState::Error(message),
            },
            final(self).repo_name_with_owner == old(self).repo_name_with_owner,
            final(self).pull == old(self).pull,
            final(self).body_text == old(self).body_text,
            final(self).checking_out == old(self).checking_out,
            final(self).viewing_changes == old(self).viewing_changes,
    {
        match detail {
            Ok(load) => {
                let requested = self.pull.requested_reviewers.len();
                self.review_detail = GitHubPullRequestReviewDetailState::Loaded(
                    build_review_detail(load, requested),
                );
            },
            Err(message) => {
                self.review_detail = GitHubPullRequestReviewDetailState::Error(message);
            },
        }
    }

    /// Starts to check the pull request out, if it can be: what to do first is
    /// returned.
    pub fn checkout_pull_request(&mut self, operation: Option<&CheckoutOperation>) -> (result:
        Option<CheckoutAction>)
        ensures
            match operation {
                None => result is None && *final(self) == *old(self),
                Some(operation) => {
                    &&& result == Some(
                        CheckoutAction::Fetch {
                            remote_name: operation.remote_name,
                            refspec: operation.refspec,
                        },
                    )
                    &&& *final(self) == (GitHubPullRequestView {
                        checking_out: true,
                        ..*old(self)
                    })
                },
            },
    {
        match operation {
            None => None,
            Some(operation) => {
                self.checking_out = true;
                Some(
                    CheckoutAction::Fetch {
                        remote_name: operation.remote_name.clone(),
                        refspec: operation.refspec.clone(),
                    },
                )
            },
        }
    }

    /// What to do next for a checkout, whose last stage went as told. The branch is
    /// changed only once the fetch succeeded, and the checkout is over after that
    /// or after a failure.
    pub fn continue_checkout(
        &mut self,
        operation: &CheckoutOperation,
        stage: CheckoutStage,
        outcome: Result<(), String>,
    ) -> (result: CheckoutAction)
        ensures
            if stage == CheckoutStage::Fetching && outcome is Ok {
                &&& result matches CheckoutAction::ChangeBranch { branch } && branch@
                    == remote_branch(*operation)
                &&& *final(self) == *old(self)
            } else {
                &&& result == (CheckoutAction::Finish { outcome })
                &&& *final(self) == (GitHubPullRequestView { checking_out: false, ..*old(self) })
            },
            result matches CheckoutAction::ChangeBranch { branch } ==> branch@
                == operation.remote_name@ + "/"@ + operation.local_branch@,
    {
        if stage == CheckoutStage::Fetching && outcome.is_ok() {
            let mut branch = operation.remote_name.clone();
            branch.append("/");
            branch.append(&operation.local_branch);
            CheckoutAction::ChangeBranch { branch }
        } else {
            self.checking_out = false;
            CheckoutAction::Finish { outcome }
        }
    }

    /// Starts to show the changes of the pull request, if that can be done. Whether
    /// it was started is returned.
    pub fn view_changes(&mut self, prepared: bool) -> (started: bool)
        ensures
            started == prepared,
            *final(self) == (GitHubPullRequestView {
                viewing_changes: old(self).viewing_changes || prepared,
                ..*old(self)
            }),
    {
        if prepared {
            self.viewing_changes = true;
        }
        prepared
    }

    /// The changes of the pull request are shown, or could not be.
    pub fn finish_view_changes(&mut self)
        ensures
            *final(self) == (GitHubPullRequestView { viewing_changes: false, ..*old(self) }),
    {
        self.viewing_changes = false;
    }

    /// What the display's tab is called.
    pub fn tab_content_text(&self) -> (result: String)
        ensures
            result@ == "#"@ + decimal(self.pull.number as nat) + " "@ + self.pull.title@,
    {
        let mut result = "#".to_owned();
        result.append(&number_text(self.pull.number));
        result.append(" ");
        result.append(&self.pull.title);
        result
    }

    /// What is said of the display where its tab is pointed at.
    pub fn tab_tooltip_text(&self) -> (result: String)
        ensures
            result@ == self.pull.html_url@,
    {
        self.pull.html_url.clone()
    }
}

/// The words for states differ from each other.
proof fn lemma_words_differ()
    ensures
        "success"@ != "failure"@,
        "success"@ != "error"@,
        "success"@ != "pending"@,
        "failure"@ != "error"@,
        "failure"@ != "pending"@,
        "error"@ != "pending"@,
        "success"@ != "neutral"@,
        "success"@ != "skipped"@,
        "success"@ != "cancelled"@,
        "success"@ != "timed_out"@,
        "success"@ != "action_required"@,
        "neutral"@ != "skipped"@,
        "neutral"@ != "cancelled"@,
        "neutral"@ != "timed_out"@,
        "neutral"@ != "failure"@,
        "neutral"@ != "action_required"@,
        "skipped"@ != "cancelled"@,
        "skipped"@ != "timed_out"@,
        "skipped"@ != "failure"@,
        "skipped"@ != "action_required"@,
        "cancelled"@ != "timed_out"@,
        "cancelled"@ != "failure"@,
        "cancelled"@ != "action_required"@,
        "timed_out"@ != "failure"@,
        "timed_out"@ != "action_required"@,
        "failure"@ != "action_required"@,
        "APPROVED"@ != "CHANGES_REQUESTED"@,
        "APPROVED"@ != "COMMENTED"@,
        "APPROVED"@ != "DISMISSED"@,
        "APPROVED"@ != "PENDING"@,
        "CHANGES_REQUESTED"@ != "COMMENTED"@,
        "CHANGES_REQUESTED"@ != "DISMISSED"@,
        "CHANGES_REQUESTED"@ != "PENDING"@,
        "COMMENTED"@ != "DISMISSED"@,
        "COMMENTED"@ != "PENDING"@,
        "DISMISSED"@ != "PENDING"@,
        "closed"@ != "open"@,
{
    reveal_strlit("success");
    reveal_strlit("failure");
    reveal_strlit("error");
    reveal_strlit("pending");
    reveal_strlit("neutral");
    reveal_strlit("skipped");
    reveal_strlit("cancelled");
    reveal_strlit("timed_out");
    reveal_strlit("action_required");
    reveal_strlit("APPROVED");
    reveal_strlit("CHANGES_REQUESTED");
    reveal_strlit("COMMENTED");
    reveal_strlit("DISMISSED");
    reveal_strlit("PENDING");
    reveal_strlit("closed");
    reveal_strlit("open");
    assert("success"@[0] != "failure"@[0]);
    assert("success"@.len() != "error"@.len());
    assert("success"@[0] != "pending"@[0]);
    assert("failure"@.len() != "error"@.len());
    assert("failure"@[0] != "pending"@[0]);
    assert("error"@.len() != "pending"@.len());
    assert("success"@[0] != "neutral"@[0]);
    assert("success"@[1] != "skipped"@[1]);
    assert("success"@.len() != "cancelled"@.len());
    assert("success"@.len() != "timed_out"@.len());
    assert("success"@.len() != "action_required"@.len());
    assert("neutral"@[0] != "skipped"@[0]);
    assert("neutral"@.len() != "cancelled"@.len());
    assert("neutral"@.len() != "timed_out"@.len());
    assert("neutral"@[0] != "failure"@[0]);
    assert("neutral"@.len() != "action_required"@.len());
    assert("skipped"@.len() != "cancelled"@.len());
    assert("skipped"@.len() != "timed_out"@.len());
    assert("skipped"@[0] != "failure"@[0]);
    assert("skipped"@.len() != "action_required"@.len());
    assert("cancelled"@[0] != "timed_out"@[0]);
    assert("cancelled"@.len() != "failure"@.len());
    assert("cancelled"@.len() != "action_required"@.len());
    assert("timed_out"@.len() != "failure"@.len());
    assert("timed_out"@.len() != "action_required"@.len());
    assert("failure"@.len() != "action_required"@.len());
    assert("APPROVED"@.len() != "CHANGES_REQUESTED"@.len());
    assert("APPROVED"@.len() != "COMMENTED"@.len());
    assert("APPROVED"@.len() != "DISMISSED"@.len());
    assert("APPROVED"@.len() != "PENDING"@.len());
    assert("CHANGES_REQUESTED"@.len() != "COMMENTED"@.len());
    assert("CHANGES_REQUESTED"@.len() != "DISMISSED"@.len());
    assert("CHANGES_REQUESTED"@.len() != "PENDING"@.len());
    assert("COMMENTED"@[0] != "DISMISSED"@[0]);
    assert("COMMENTED"@.len() != "PENDING"@.len());
    assert("DISMISSED"@.len() != "PENDING"@.len());
    assert("closed"@.len() != "open"@.len());
}

/// A status failed exactly if it says "failure" or "error", passed exactly if it says
/// "success", and is pending exactly if it says "pending".
pub proof fn lemma_status_state(state: Seq<char>)
    ensures
        status_state(state) == GitHubPullRequestCheckState::Failed <==> state == "failure"@ || state
            == "error"@,
        status_state(state) == GitHubPullRequestCheckState::Passed <==> state == "success"@,
        status_state(state) == GitHubPullRequestCheckState::Pending <==> state == "pending"@,
        status_state(state) != GitHubPullRequestCheckState::Skipped,
{
    lemma_words_differ();
}

/// A run failed exactly if it was completed and was cancelled, timed out, failed or
/// needs an action; it passed exactly if it was completed with success or neutrally, and
/// was skipped exactly if it was completed as skipped. Every other run is pending.
pub proof fn lemma_run_state(run: CheckRun)
    ensures
        run_state(run) == GitHubPullRequestCheckState::Failed <==> run.status == "completed"@ && (
        run.conclusion == Some("cancelled"@) || run.conclusion == Some("timed_out"@)
            || run.conclusion == Some("failure"@) || run.conclusion == Some("action_required"@)),
        run_state(run) == GitHubPullRequestCheckState::Passed <==> run.status == "completed"@ && (
        run.conclusion == Some("success"@) || run.conclusion == Some("neutral"@)),
        run_state(run) == GitHubPullRequestCheckState::Skipped <==> run.status == "completed"@
            && run.conclusion == Some("skipped"@),
        run_state(run) != GitHubPullRequestCheckState::Missing,
{
    lemma_words_differ();
}

/// Checks failed together exactly if one of them failed, are pending exactly if none
/// failed and one is pending, were skipped exactly if there are some and all were
/// skipped, and are missing exactly if there are none.
pub proof fn lemma_overall_state(items: Seq<CheckItem>)
    ensures
        overall_state(items) == GitHubPullRequestCheckState::Failed <==> exists|i: int|
            0 <= i < items.len() && (#[trigger] items[i]).state
                == GitHubPullRequestCheckState::Failed,
        overall_state(items) == GitHubPullRequestCheckState::Pending <==> (forall|i: int|
            0 <= i < items.len() ==> (#[trigger] items[i]).state
                != GitHubPullRequestCheckState::Failed) && exists|i: int|
            0 <= i < items.len() && (#[trigger] items[i]).state
                == GitHubPullRequestCheckState::Pending,
        overall_state(items) == GitHubPullRequestCheckState::Skipped <==> items.len() > 0
            && forall|i: int|
            0 <= i < items.len() ==> (#[trigger] items[i]).state
                == GitHubPullRequestCheckState::Skipped,
        overall_state(items) == GitHubPullRequestCheckState::Missing <==> items.len() == 0,
{
    if items.len() > 0 && (forall|i: int|
        0 <= i < items.len() ==> (#[trigger] items[i]).state
            == GitHubPullRequestCheckState::Skipped) {
        assert forall|i: int| 0 <= i < items.len() implies (#[trigger] items[i]).state
            != GitHubPullRequestCheckState::Failed && items[i].state
            != GitHubPullRequestCheckState::Pending by {}
        assert(all_in_state(items, GitHubPullRequestCheckState::Skipped));
        assert(!some_in_state(items, GitHubPullRequestCheckState::Failed));
        assert(!some_in_state(items, GitHubPullRequestCheckState::Pending));
    }
    if overall_state(items) == GitHubPullRequestCheckState::Skipped {
        assert(all_in_state(items, GitHubPullRequestCheckState::Skipped));
    }
}

/// Every run is one of the checks, under its name and with its outcome.
pub proof fn lemma_run_is_listed(runs: Seq<CheckRun>, status: Option<CombinedStatus>, i: int)
    requires
        0 <= i < runs.len(),
    ensures
        checks_summary(runs, status).items.len() >= runs.len(),
        ({
            let item = checks_summary(runs, status).items[i];
            &&& item.name == runs[i].name
            &&& item.state == run_state(runs[i])
            &&& item.description == Some(
                match runs[i].conclusion {
                    Some(conclusion) => conclusion,
                    None => runs[i].status,
                },
            )
            &&& item.url == Some(runs[i].html_url)
        }),
        run_state(runs[i]) == GitHubPullRequestCheckState::Failed ==> checks_summary(
            runs,
            status,
        ).overall == GitHubPullRequestCheckState::Failed,
{
    let items = checks_summary(runs, status).items;
    lemma_overall_state(items);
    assert(items[i] == run_item(runs[i]));
}

/// Every status that is listed is one of the checks, behind the runs, under its context
/// and with its outcome. One that says "failure" or "error" is enough for the checks to
/// have failed.
pub proof fn lemma_status_is_listed(runs: Seq<CheckRun>, status: Option<CombinedStatus>, i: int)
    requires
        status matches Some(combined) && 0 <= i < combined.statuses.len(),
    ensures
        ({
            let each = status->0.statuses[i];
            let item = checks_summary(runs, status).items[runs.len() + i];
            &&& checks_summary(runs, status).items.len() == runs.len() + status->0.statuses.len()
            &&& item.name == each.context
            &&& item.description == each.description
            &&& item.url == each.target_url
            &&& item.state == GitHubPullRequestCheckState::Failed <==> each.state == "failure"@
                || each.state == "error"@
            &&& item.state == GitHubPullRequestCheckState::Passed <==> each.state == "success"@
            &&& item.state == GitHubPullRequestCheckState::Pending <==> each.state == "pending"@
            &&& each.state == "failure"@ || each.state == "error"@ ==> checks_summary(
                runs,
                status,
            ).overall == GitHubPullRequestCheckState::Failed
        }),
{
    let each = status->0.statuses[i];
    let items = checks_summary(runs, status).items;
    lemma_status_state(each.state);
    lemma_overall_state(items);
    assert(items[runs.len() + i] == status_item(each));
}

/// Where neither a run nor a status is listed but statuses are counted, they are one
/// check, with what they say together; where nothing is counted either, there is none.
pub proof fn lemma_unlisted_statuses(status: CombinedStatus)
    requires
        status.statuses.len() == 0,
    ensures
        status.total_count > 0 ==> ({
            let items = checks_summary(Seq::empty(), Some(status)).items;
            &&& items.len() == 1
            &&& items[0].name == "Commit status"@
            &&& items[0].description == Some(status.state)
            &&& items[0].url is None
            &&& items[0].state == GitHubPullRequestCheckState::Failed <==> status.state
                == "failure"@ || status.state == "error"@
            &&& items[0].state == GitHubPullRequestCheckState::Passed <==> status.state
                == "success"@
            &&& items[0].state == GitHubPullRequestCheckState::Pending <==> status.state
                == "pending"@
        }),
        status.total_count == 0 ==> checks_summary(Seq::empty(), Some(status)).items.len() == 0,
        checks_summary(Seq::empty(), None).items.len() == 0,
{
    lemma_status_state(status.state);
}

/// Every commit that was loaded is shown, by whom it is and when it was made, under the
/// first line of its message.
pub proof fn lemma_commit_is_shown(load: ReviewDetailLoad, i: int)
    requires
        load.commits matches Ok(list) && 0 <= i < list.len(),
    ensures
        ({
            let commit = load.commits->Ok_0[i];
            exists|item: TimelineItem| #[trigger]
                timeline(load).contains(item) && item.kind == GitHubPullRequestTimelineItemKind::Commit && item.url
                == Some(commit.html_url) && item.markdown is None && (lines_of(commit.message).len()
                > 0 ==> item.title == lines_of(commit.message)[0]) && (lines_of(
                commit.message,
            ).len() == 0 ==> item.title.len() == 0) && (match commit.author {
                Some(login) => item.author == login,
                None => match commit.commit_author {
                    Some(author) => item.author == (match author.name {
                        Some(name) => name,
                        None => "unknown"@,
                    }),
                    None => item.author == "unknown"@,
                },
            }) && (match commit.commit_author {
                Some(author) => item.timestamp == author.date,
                None => item.timestamp is None,
            }) && item.metadata == Some(
                if is_char_boundary(encode_utf8(commit.sha), 7) {
                    decode_utf8(encode_utf8(commit.sha).subrange(0, 7))
                } else {
                    commit.sha
                },
            )
        }),
{
    let before = |a: TimelineItem, b: TimelineItem| precedes(placing_time(a), placing_time(b));
    lemma_placing_orders();
    lemma_words_differ();
    let all = unplaced_timeline(load);
    let item = all[0 + i];
    assert(all.contains(item));
    lemma_sorted_holds(all, before, item);
    assert(timeline(load).contains(item));
}

/// Every comment that was loaded is shown with what it says.
pub proof fn lemma_comment_is_shown(load: ReviewDetailLoad, i: int)
    requires
        load.issue_comments matches Ok(list) && 0 <= i < list.len(),
    ensures
        ({
            let comment = load.issue_comments->Ok_0[i];
            exists|item: TimelineItem| #[trigger]
                timeline(load).contains(item) && item.kind == GitHubPullRequestTimelineItemKind::Comment && item.author
                == comment.user && item.timestamp == Some(comment.created_at) && item.title
                == "Commented"@ && item.metadata is None && item.markdown == Some(comment.body)
                && item.url == Some(comment.html_url)
        }),
{
    let before = |a: TimelineItem, b: TimelineItem| precedes(placing_time(a), placing_time(b));
    lemma_placing_orders();
    lemma_words_differ();
    let all = unplaced_timeline(load);
    let item = all[loaded(load.commits).len() + i];
    assert(all.contains(item));
    lemma_sorted_holds(all, before, item);
    assert(timeline(load).contains(item));
}

/// Every review that was loaded is shown with its outcome and what it says, if it says
/// anything.
pub proof fn lemma_review_is_shown(load: ReviewDetailLoad, i: int)
    requires
        load.reviews matches Ok(list) && 0 <= i < list.len(),
    ensures
        ({
            let review = load.reviews->Ok_0[i];
            exists|item: TimelineItem| #[trigger]
                timeline(load).contains(item) && item.kind == GitHubPullRequestTimelineItemKind::Review && item.author
                == review.user && item.timestamp == review.submitted_at && item.metadata == Some(
                review.state,
            ) && item.url == review.html_url && (review.state == "APPROVED"@ ==> item.title
                == "Approved"@) && (review.state == "CHANGES_REQUESTED"@ ==> item.title
                == "Requested changes"@) && (review.state == "COMMENTED"@ ==> item.title
                == "Reviewed"@) && (review.state == "DISMISSED"@ ==> item.title
                == "Review dismissed"@) && (review.state == "PENDING"@ ==> item.title
                == "Review pending"@) && (match review.body {
                Some(body) => item.markdown == if trimmed(body).len() > 0 {
                    Some(body)
                } else {
                    None
                },
                None => item.markdown is None,
            })
        }),
{
    let before = |a: TimelineItem, b: TimelineItem| precedes(placing_time(a), placing_time(b));
    lemma_placing_orders();
    lemma_words_differ();
    let all = unplaced_timeline(load);
    let item = all[loaded(load.commits).len() + loaded(load.issue_comments).len() + i];
    assert(all.contains(item));
    lemma_sorted_holds(all, before, item);
    assert(timeline(load).contains(item));
}

/// Every comment on a line that was loaded is shown with its place and what it says.
pub proof fn lemma_review_comment_is_shown(load: ReviewDetailLoad, i: int)
    requires
        load.review_comments matches Ok(list) && 0 <= i < list.len(),
    ensures
        ({
            let comment = load.review_comments->Ok_0[i];
            exists|item: TimelineItem| #[trigger]
                timeline(load).contains(item) && item.kind == GitHubPullRequestTimelineItemKind::ReviewComment
                && item.author == comment.user && item.timestamp == Some(comment.created_at)
                && item.title == "Review comment"@ && item.markdown == Some(comment.body)
                && item.url == Some(comment.html_url) && (match (
                comment.line,
                comment.original_line,
            ) {
                (Some(line), _) => item.metadata == Some(
                    comment.path + (":"@ + decimal(line as nat)),
                ),
                (None, Some(line)) => item.metadata == Some(
                    comment.path + (":"@ + decimal(line as nat)),
                ),
                (None, None) => item.metadata == Some(comment.path + Seq::<char>::empty()),
            })
        }),
{
    let before = |a: TimelineItem, b: TimelineItem| precedes(placing_time(a), placing_time(b));
    lemma_placing_orders();
    lemma_words_differ();
    let all = unplaced_timeline(load);
    let item = all[loaded(load.commits).len() + loaded(load.issue_comments).len() + loaded(
        load.reviews,
    ).len() + i];
    assert(all.contains(item));
    lemma_sorted_holds(all, before, item);
    assert(timeline(load).contains(item));
}

/// No entry of a timeline is later than one that stands behind it, and entries without
/// a time come first.
pub proof fn lemma_timeline_order(load: ReviewDetailLoad, i: int, j: int)
    requires
        0 <= i < j < timeline(load).len(),
    ensures
        match (timeline(load)[i].timestamp, timeline(load)[j].timestamp) {
            (Some(first), Some(second)) => !precedes(second, first),
            (Some(first), None) => first.len() == 0,
            (None, _) => true,
        },
{
    lemma_timeline(load);
    let before = |a: TimelineItem, b: TimelineItem| precedes(placing_time(a), placing_time(b));
    assert(!before(timeline(load)[j], timeline(load)[i]));
}

/// What was not loaded is told of, each part under its name and with the problem it
/// met, in this order, and there is nothing else to tell of.
pub proof fn lemma_errors_told(load: ReviewDetailLoad)
    ensures
        load.commits matches Err(problem) ==> load_errors(load).contains(
            "Commits"@ + ": "@ + problem,
        ),
        load.issue_comments matches Err(problem) ==> load_errors(load).contains(
            "Comments"@ + ": "@ + problem,
        ),
        load.reviews matches Err(problem) ==> load_errors(load).contains(
            "Reviews"@ + ": "@ + problem,
        ),
        load.review_comments matches Err(problem) ==> load_errors(load).contains(
            "Review comments"@ + ": "@ + problem,
        ),
        load.check_runs matches Err(problem) ==> load_errors(load).contains(
            "Check runs"@ + ": "@ + problem,
        ),
        load.combined_status matches Err(problem) ==> load_errors(load).contains(
            "Commit status"@ + ": "@ + problem,
        ),
        load_errors(load) == (match load.commits {
            Err(problem) => seq!["Commits"@ + ": "@ + problem],
            Ok(_) => Seq::<Seq<char>>::empty(),
        }) + (match load.issue_comments {
            Err(problem) => seq!["Comments"@ + ": "@ + problem],
            Ok(_) => Seq::<Seq<char>>::empty(),
        }) + (match load.reviews {
            Err(problem) => seq!["Reviews"@ + ": "@ + problem],
            Ok(_) => Seq::<Seq<char>>::empty(),
        }) + (match load.review_comments {
            Err(problem) => seq!["Review comments"@ + ": "@ + problem],
            Ok(_) => Seq::<Seq<char>>::empty(),
        }) + (match load.check_runs {
            Err(problem) => seq!["Check runs"@ + ": "@ + problem],
            Ok(_) => Seq::<Seq<char>>::empty(),
        }) + (match load.combined_status {
            Err(problem) => seq!["Commit status"@ + ": "@ + problem],
            Ok(_) => Seq::<Seq<char>>::empty(),
        }),
{
    let all = load_errors(load);
    let a = load_error("Commits"@, load.commits);
    let b = load_error("Comments"@, load.issue_comments);
    let c = load_error("Reviews"@, load.reviews);
    let d = load_error("Review comments"@, load.review_comments);
    let e = load_error("Check runs"@, load.check_runs);
    let f = load_error("Commit status"@, load.combined_status);
    if load.commits is Err {
        assert(all[0] == a[0]);
    }
    if load.issue_comments is Err {
        assert(all[a.len() as int] == b[0]);
    }
    if load.reviews is Err {
        assert(all[(a.len() + b.len()) as int] == c[0]);
    }
    if load.review_comments is Err {
        assert(all[(a.len() + b.len() + c.len()) as int] == d[0]);
    }
    if load.check_runs is Err {
        assert(all[(a.len() + b.len() + c.len() + d.len()) as int] == e[0]);
    }
    if load.combined_status is Err {
        assert(all[(a.len() + b.len() + c.len() + d.len() + e.len()) as int] == f[0]);
    }
}

/// Where entries of a timeline have the same time, commits come before comments,
/// comments before reviews, and reviews before comments on lines.
pub proof fn lemma_timeline_ties(load: ReviewDetailLoad, i: int, j: int)
    requires
        0 <= i < j < timeline(load).len(),
        timeline(load)[i].timestamp == timeline(load)[j].timestamp,
    ensures
        timeline(load)[j].kind is Commit ==> timeline(load)[i].kind is Commit,
        timeline(load)[j].kind is Comment ==> timeline(load)[i].kind is Commit || timeline(
            load,
        )[i].kind is Comment,
        timeline(load)[j].kind is Review ==> !(timeline(load)[i].kind is ReviewComment),
{
    let before = |a: TimelineItem, b: TimelineItem| precedes(placing_time(a), placing_time(b));
    let rank = |item: TimelineItem|
        match item.kind {
            GitHubPullRequestTimelineItemKind::Commit => 0int,
            GitHubPullRequestTimelineItemKind::Comment => 1,
            GitHubPullRequestTimelineItemKind::Review => 2,
            GitHubPullRequestTimelineItemKind::ReviewComment => 3,
        };
    let holds = |a: TimelineItem, b: TimelineItem| before(a, b) || rank(a) <= rank(b);
    let all = unplaced_timeline(load);
    lemma_placing_orders();
    assert forall|a: int, b: int| 0 <= a < b < all.len() implies if before(
        #[trigger] all[b],
        #[trigger] all[a],
    ) {
        holds(all[b], all[a])
    } else {
        holds(all[a], all[b])
    } by {
        let first = loaded(load.commits).len();
        let second = first + loaded(load.issue_comments).len();
        let third = second + loaded(load.reviews).len();
        assert(rank(all[a]) == if a < first {
            0int
        } else if a < second {
            1
        } else if a < third {
            2
        } else {
            3
        });
        assert(rank(all[b]) == if b < first {
            0int
        } else if b < second {
            1
        } else if b < third {
            2
        } else {
            3
        });
    }
    lemma_sorted_successively(all, before, holds);
    assert(holds(timeline(load)[i], timeline(load)[j]));
    lemma_precedes_irreflexive(placing_time(timeline(load)[i]));
}

/// A timeline is what was loaded, each part in its own order and one part after the
/// other, sorted by time so that what has the same time stays in this order.
pub proof fn lemma_timeline_of_parts(
    load: ReviewDetailLoad,
    commits: Seq<Commit>,
    comments: Seq<IssueComment>,
    reviews: Seq<Review>,
    line_comments: Seq<ReviewComment>,
)
    requires
        load.commits == Ok::<_, Seq<char>>(commits) || (load.commits is Err && commits.len() == 0),
        load.issue_comments == Ok::<_, Seq<char>>(comments) || (load.issue_comments is Err
            && comments.len() == 0),
        load.reviews == Ok::<_, Seq<char>>(reviews) || (load.reviews is Err && reviews.len() == 0),
        load.review_comments == Ok::<_, Seq<char>>(line_comments) || (load.review_comments is Err
            && line_comments.len() == 0),
    ensures
        timeline(load) == stably_sorted(
            commits.map_values(|commit: Commit| commit_item(commit)) + comments.map_values(
                |comment: IssueComment| comment_item(comment),
            ) + reviews.map_values(|review: Review| review_item(review))
                + line_comments.map_values(|comment: ReviewComment| review_comment_item(comment)),
            |a: TimelineItem, b: TimelineItem| precedes(placing_time(a), placing_time(b)),
        ),
{
    assert(loaded(load.commits) =~= commits);
    assert(loaded(load.issue_comments) =~= comments);
    assert(loaded(load.reviews) =~= reviews);
    assert(loaded(load.review_comments) =~= line_comments);
}

/// There are as many checks as runs and statuses are listed, but for the one check that
/// stands for statuses which are counted where nothing is listed.
pub proof fn lemma_number_of_checks(runs: Seq<CheckRun>, status: Option<CombinedStatus>)
    ensures
        checks_summary(runs, status).items.len() == match status {
            None => runs.len(),
            Some(combined) => if runs.len() == 0 && combined.statuses.len() == 0
                && combined.total_count > 0 {
                1
            } else {
                runs.len() + combined.statuses.len()
            },
        },
        checks_summary(runs, status).overall == overall_state(checks_summary(runs, status).items),
{
}

} // verus!
