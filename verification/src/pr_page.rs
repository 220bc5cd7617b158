//! The page that displays a pull request: which texts stand in which section, and
//! in which colors.
use crate::github::types::{GitHubLabel, GitHubPullRequest, GitHubUser, PullRequest};
use crate::outside::std_text::{is_ascii_text, lowercase_text, small_letter, to_lowercase};
use crate::pr_view::{
    github_pull_request_diff_boxes, github_pull_request_row_meta, github_pull_request_state_label,
    shown_time, state_label, time_or_unknown, CheckItem, ChecksSummary, GitHubPullRequestCheckItem,
    GitHubPullRequestCheckState, GitHubPullRequestChecksSummary,
    GitHubPullRequestReviewDetailState, GitHubPullRequestReviewSummary, GitHubPullRequestRowMeta,
    GitHubPullRequestTimelineItem, GitHubPullRequestTimelineItemKind, GitHubPullRequestView,
    TimelineItem, BOX_COUNT,
};
use crate::text::{clone_optional, clone_texts, decimal, number_text, same_text};
use vstd::prelude::*;
use vstd::string::*;

verus! {

/// The color of a text or an icon.
#[derive(Clone, Copy, Debug, PartialEq, Eq, Structural)]
pub enum Color {
    Default,
    Muted,
    Success,
    Warning,
    Error,
}

/// The icon in front of an entry.
#[derive(Clone, Copy, Debug, PartialEq, Eq, Structural)]
pub enum IconName {
    GitCommit,
    Chat,
    Eye,
    File,
}

/// One of the boxes that show the share of additions and deletions.
#[derive(Clone, Copy, Debug, PartialEq, Eq, Structural)]
pub enum DiffBox {
    Created,
    Deleted,
    Muted,
}

/// The color of a pull request's state.
pub open spec fn state_color(pull: PullRequest) -> Color {
    if pull.draft {
        Color::Warning
    } else if pull.state == "open"@ {
        Color::Success
    } else {
        Color::Muted
    }
}

/// The color of a pull request's state.
pub fn github_pull_request_state_color(pull: &GitHubPullRequest) -> (result: Color)
    ensures
        result == state_color(pull.deep_view()),
        result == Color::Warning <==> pull.draft,
        result == Color::Success <==> !pull.draft && pull.state@ == "open"@,
        result == Color::Muted <==> !pull.draft && pull.state@ != "open"@,
{
    if pull.draft {
        Color::Warning
    } else if same_text(&pull.state, "open") {
        Color::Success
    } else {
        Color::Muted
    }
}

/// `login` as a mention.
pub open spec fn mention(login: Seq<char>) -> Seq<char> {
    "@"@ + login
}

/// `login` as a mention.
fn make_mention(login: &str) -> (result: String)
    ensures
        result@ == mention(login@),
        result@ == "@"@ + login@,
{
    let mut result = "@".to_owned();
    result.append(login);
    result
}

/// What stands at the head of the page.
#[derive(Clone, Debug, PartialEq, Eq)]
pub struct PageHeader {
    pub breadcrumbs: Vec<String>,
    pub title: String,
    pub state_label: String,
    pub state_color: Color,
    pub author: String,
    pub base_ref: String,
    pub head_ref: String,
}

/// What a number of things is shown as.
#[derive(Clone, Debug, PartialEq, Eq)]
pub struct Stat {
    pub count: String,
    pub label: String,
}

/// What stands in the bar below the head, with the buttons that are busy.
#[derive(Clone, Debug, PartialEq, Eq)]
pub struct StatsBar {
    pub commits: Stat,
    pub changed_files: Stat,
    pub additions: String,
    pub deletions: String,
    pub boxes: Vec<DiffBox>,
    pub checkout_busy: bool,
    pub view_changes_busy: bool,
    pub url: String,
}

/// A row of the activity section.
#[derive(Clone, Debug, PartialEq, Eq)]
pub struct TimelineRow {
    pub icon: IconName,
    pub title: String,
    pub metadata: Option<String>,
    pub author: String,
    pub time: String,
    pub url: Option<String>,
    pub markdown: Option<String>,
}

/// What a `TimelineRow` holds.
#[verifier::ext_equal]
pub struct TimelineRowModel {
    pub icon: IconName,
    pub title: Seq<char>,
    pub metadata: Option<Seq<char>>,
    pub author: Seq<char>,
    pub time: Seq<char>,
    pub url: Option<Seq<char>>,
    pub markdown: Option<Seq<char>>,
}

impl DeepView for TimelineRow {
    type V = TimelineRowModel;

    open spec fn deep_view(&self) -> TimelineRowModel {
        TimelineRowModel {
            icon: self.icon,
            title: self.title@,
            metadata: self.metadata.deep_view(),
            author: self.author@,
            time: self.time@,
            url: self.url.deep_view(),
            markdown: self.markdown.deep_view(),
        }
    }
}

/// The section of all that happened.
#[derive(Clone, Debug, PartialEq, Eq)]
pub struct ActivitySection {
    pub count: String,
    pub note: Option<String>,
    pub rows: Vec<TimelineRow>,
}

/// The words of the page that whoever draws it chooses: the title of the reviews where
/// nobody was asked for one, and the heading over those who were asked.
#[derive(Clone, Debug, PartialEq, Eq)]
pub struct PageWords {
    pub nobody_asked: String,
    pub asked_heading: String,
}

/// What all reviews together come to.
#[derive(Clone, Copy, Debug, PartialEq, Eq, Structural)]
pub enum ReviewVerdict {
    ChangesRequested,
    Approved,
    Required,
    NobodyAsked,
}

/// The section of the reviews.
#[derive(Clone, Debug, PartialEq, Eq)]
pub struct ReviewSection {
    pub verdict: ReviewVerdict,
    pub title: String,
    pub color: Color,
    pub counts: Vec<Stat>,
}

/// A row of the section of the checks.
#[derive(Clone, Debug, PartialEq, Eq)]
pub struct CheckRow {
    pub name: String,
    pub description: Option<String>,
    pub label: String,
    pub color: Color,
    pub url: Option<String>,
}

/// What a `CheckRow` holds.
#[verifier::ext_equal]
pub struct CheckRowModel {
    pub name: Seq<char>,
    pub description: Option<Seq<char>>,
    pub label: Seq<char>,
    pub color: Color,
    pub url: Option<Seq<char>>,
}

impl DeepView for CheckRow {
    type V = CheckRowModel;

    open spec fn deep_view(&self) -> CheckRowModel {
        CheckRowModel {
            name: self.name@,
            description: self.description.deep_view(),
            label: self.label@,
            color: self.color,
            url: self.url.deep_view(),
        }
    }
}

/// The section of the checks.
#[derive(Clone, Debug, PartialEq, Eq)]
pub struct ChecksSection {
    pub title: String,
    pub color: Color,
    pub note: Option<String>,
    pub rows: Vec<CheckRow>,
}

/// What is shown of the review.
#[derive(Clone, Debug, PartialEq, Eq)]
pub enum ReviewDetailSection {
    /// It is not there yet.
    Loading { message: String },
    /// It could not be loaded, but that can be tried again.
    Failed { title: String, message: String },
    /// It is there, with warnings for what is missing.
    Loaded {
        warning_title: Option<String>,
        warnings: Vec<String>,
        activity: ActivitySection,
        review: ReviewSection,
        checks: ChecksSection,
    },
}

/// A list of users under a heading.
#[derive(Clone, Debug, PartialEq, Eq)]
pub struct UserSection {
    pub title: String,
    pub note: Option<String>,
    pub users: Vec<String>,
}

/// What stands beside the page.
#[derive(Clone, Debug, PartialEq, Eq)]
pub struct Sidebar {
    pub labels: Vec<String>,
    pub labels_note: Option<String>,
    pub reviewers: UserSection,
    pub participants: Vec<String>,
    pub details: Vec<Stat>,
}

impl DeepView for Stat {
    type V = (Seq<char>, Seq<char>);

    open spec fn deep_view(&self) -> (Seq<char>, Seq<char>) {
        (self.count@, self.label@)
    }
}

/// What a number of things is shown as.
fn make_stat(count: u64, label: &str) -> (result: Stat)
    ensures
        result.deep_view() == (decimal(count as nat), label@),
        result.count@ == decimal(count as nat),
        result.label@ == label@,
{
    Stat { count: number_text(count), label: label.to_owned() }
}

/// `n` boxes of one kind.
pub open spec fn repeated(kind: DiffBox, n: nat) -> Seq<DiffBox> {
    Seq::new(n, |i: int| kind)
}

/// How many boxes are left for neither additions nor deletions.
pub open spec fn muted_boxes(added_boxes: nat, deleted_boxes: nat) -> nat {
    if added_boxes + deleted_boxes < BOX_COUNT {
        (BOX_COUNT - added_boxes - deleted_boxes) as nat
    } else {
        0
    }
}

/// The boxes that show the share of additions and deletions, from left to right.
pub fn render_diff_boxes(added_boxes: usize, deleted_boxes: usize) -> (result: Vec<DiffBox>)
    requires
        added_boxes + deleted_boxes <= usize::MAX,
    ensures
        result@ == repeated(DiffBox::Created, added_boxes as nat) + repeated(
            DiffBox::Deleted,
            deleted_boxes as nat,
        ) + repeated(DiffBox::Muted, muted_boxes(added_boxes as nat, deleted_boxes as nat)),
        result@.len() == if added_boxes + deleted_boxes < 5 {
            5int
        } else {
            added_boxes + deleted_boxes
        },
        forall|i: int|
            0 <= i < result@.len() ==> #[trigger] result@[i] == if i < added_boxes {
                DiffBox::Created
            } else if i < added_boxes + deleted_boxes {
                DiffBox::Deleted
            } else {
                DiffBox::Muted
            },
{
    let colored: usize = added_boxes + deleted_boxes;
    let muted: usize = if colored < BOX_COUNT {
        BOX_COUNT - colored
    } else {
        0
    };
    let mut result: Vec<DiffBox> = Vec::new();
    for i in 0..added_boxes
        invariant
            result@ == repeated(DiffBox::Created, i as nat),
    {
        result.push(DiffBox::Created);
    }
    for i in 0..deleted_boxes
        invariant
            result@ == repeated(DiffBox::Created, added_boxes as nat) + repeated(
                DiffBox::Deleted,
                i as nat,
            ),
    {
        result.push(DiffBox::Deleted);
    }
    for i in 0..muted
        invariant
            result@ == repeated(DiffBox::Created, added_boxes as nat) + repeated(
                DiffBox::Deleted,
                deleted_boxes as nat,
            ) + repeated(DiffBox::Muted, i as nat),
    {
        result.push(DiffBox::Muted);
    }
    result
}

/// Whatever the additions and deletions are, the same number of boxes shows them.
pub proof fn lemma_box_count(added_boxes: nat, deleted_boxes: nat)
    requires
        added_boxes + deleted_boxes == 0 || added_boxes + deleted_boxes == BOX_COUNT,
    ensures
        added_boxes + deleted_boxes + muted_boxes(added_boxes, deleted_boxes) == BOX_COUNT,
{
}

/// A number that may not be known, which counts as none.
pub open spec fn or_zero(number: Option<u32>) -> u32 {
    match number {
        Some(n) => n,
        None => 0,
    }
}

/// A number that may not be known, which counts as none.
fn unwrap_or_zero(number: Option<u32>) -> (result: u32)
    ensures
        result == or_zero(number),
        number matches Some(n) ==> result == n,
        number is None ==> result == 0,
{
    match number {
        Some(n) => n,
        None => 0,
    }
}

/// The color of a check.
pub open spec fn check_color(state: GitHubPullRequestCheckState) -> Color {
    match state {
        GitHubPullRequestCheckState::Passed => Color::Success,
        GitHubPullRequestCheckState::Failed => Color::Error,
        GitHubPullRequestCheckState::Pending => Color::Warning,
        GitHubPullRequestCheckState::Skipped => Color::Muted,
        GitHubPullRequestCheckState::Missing => Color::Muted,
    }
}

/// The color of a check.
pub fn check_state_color(state: GitHubPullRequestCheckState) -> (result: Color)
    ensures
        result == check_color(state),
        result == Color::Success <==> state is Passed,
        result == Color::Error <==> state is Failed,
        result == Color::Warning <==> state is Pending,
        result == Color::Muted <==> state is Skipped || state is Missing,
{
    match state {
        GitHubPullRequestCheckState::Passed => Color::Success,
        GitHubPullRequestCheckState::Failed => Color::Error,
        GitHubPullRequestCheckState::Pending => Color::Warning,
        GitHubPullRequestCheckState::Skipped | GitHubPullRequestCheckState::Missing => Color::Muted,
    }
}

/// The word for a check.
pub open spec fn check_label(state: GitHubPullRequestCheckState) -> Seq<char> {
    match state {
        GitHubPullRequestCheckState::Passed => "Passed"@,
        GitHubPullRequestCheckState::Failed => "Failed"@,
        GitHubPullRequestCheckState::Pending => "Pending"@,
        GitHubPullRequestCheckState::Skipped => "Skipped"@,
        GitHubPullRequestCheckState::Missing => "Missing"@,
    }
}

/// The word for a check.
pub fn check_state_label(state: GitHubPullRequestCheckState) -> (result: &'static str)
    ensures
        result@ == check_label(state),
        state is Passed ==> result@ == "Passed"@,
        state is Failed ==> result@ == "Failed"@,
        state is Pending ==> result@ == "Pending"@,
        state is Skipped ==> result@ == "Skipped"@,
        state is Missing ==> result@ == "Missing"@,
{
    match state {
        GitHubPullRequestCheckState::Passed => "Passed",
        GitHubPullRequestCheckState::Failed => "Failed",
        GitHubPullRequestCheckState::Pending => "Pending",
        GitHubPullRequestCheckState::Skipped => "Skipped",
        GitHubPullRequestCheckState::Missing => "Missing",
    }
}

/// What is said of all checks together.
pub open spec fn checks_title(overall: GitHubPullRequestCheckState) -> Seq<char> {
    match overall {
        GitHubPullRequestCheckState::Passed => "All checks have passed"@,
        GitHubPullRequestCheckState::Failed => "Some checks failed"@,
        GitHubPullRequestCheckState::Pending => "Checks are pending"@,
        GitHubPullRequestCheckState::Skipped => "Checks skipped"@,
        GitHubPullRequestCheckState::Missing => "No checks found"@,
    }
}

/// The row of a check.
pub open spec fn check_row(item: CheckItem) -> CheckRowModel {
    CheckRowModel {
        name: item.name,
        description: item.description,
        label: check_label(item.state),
        color: check_color(item.state),
        url: item.url,
    }
}

/// The row of a check.
fn make_check_row(item: &GitHubPullRequestCheckItem) -> (result: CheckRow)
    ensures
        result.deep_view() == check_row(item.deep_view()),
        result.name@ == item.name@,
        result.description.deep_view() == item.description.deep_view(),
        result.url.deep_view() == item.url.deep_view(),
        result.color == check_color(item.state),
        result.label@ == check_label(item.state),
{
    CheckRow {
        name: item.name.clone(),
        description: clone_optional(&item.description),
        label: check_state_label(item.state).to_owned(),
        color: check_state_color(item.state),
        url: clone_optional(&item.url),
    }
}

/// What stands in place of rows, if there are none.
pub open spec fn note_if_none(count: nat, note: Seq<char>) -> Option<Seq<char>> {
    if count == 0 {
        Some(note)
    } else {
        None
    }
}

/// What stands in place of rows, if there are none.
fn make_note(count: usize, note: &str) -> (result: Option<String>)
    ensures
        result.deep_view() == note_if_none(count as nat, note@),
        count == 0 ==> result.deep_view() == Some(note@),
        count > 0 ==> result is None,
{
    if count == 0 {
        Some(note.to_owned())
    } else {
        None
    }
}

/// Whether `section` is what is shown of the checks in `summary`.
pub open spec fn shows_checks(section: ChecksSection, summary: ChecksSummary) -> bool {
    &&& section.title@ == checks_title(summary.overall)
    &&& section.color == check_color(summary.overall)
    &&& section.note.deep_view() == note_if_none(
        summary.items.len(),
        "No check runs or commit statuses found."@,
    )
    &&& section.rows.deep_view() == summary.items.map_values(|item: CheckItem| check_row(item))
}

/// The section of the checks.
pub fn render_checks_section(summary: &GitHubPullRequestChecksSummary) -> (result: ChecksSection)
    ensures
        shows_checks(result, summary.deep_view()),
        summary.overall is Passed ==> result.title@ == "All checks have passed"@ && result.color == Color::Success,
        summary.overall is Failed ==> result.title@ == "Some checks failed"@ && result.color == Color::Error,
        summary.overall is Pending ==> result.title@ == "Checks are pending"@ && result.color == Color::Warning,
        summary.overall is Skipped ==> result.title@ == "Checks skipped"@ && result.color == Color::Muted,
        summary.overall is Missing ==> result.title@ == "No checks found"@ && result.color == Color::Muted,
        result.rows@.len() == summary.items@.len(),
        summary.items@.len() == 0 ==> result.note.deep_view() == Some(
            "No check runs or commit statuses found."@,
        ),
        summary.items@.len() > 0 ==> result.note is None,
        forall|i: int|
            0 <= i < summary.items@.len() ==> {
                &&& (#[trigger] result.rows@[i]).name@ == summary.items@[i].name@
                &&& result.rows@[i].description.deep_view() == summary.items@[i].description.deep_view()
                &&& result.rows@[i].url.deep_view() == summary.items@[i].url.deep_view()
                &&& summary.items@[i].state is Passed ==> result.rows@[i].label@ == "Passed"@
                    && result.rows@[i].color == Color::Success
                &&& summary.items@[i].state is Failed ==> result.rows@[i].label@ == "Failed"@
                    && result.rows@[i].color == Color::Error
                &&& summary.items@[i].state is Pending ==> result.rows@[i].label@ == "Pending"@
                    && result.rows@[i].color == Color::Warning
                &&& summary.items@[i].state is Skipped ==> result.rows@[i].label@ == "Skipped"@
                    && result.rows@[i].color == Color::Muted
                &&& summary.items@[i].state is Missing ==> result.rows@[i].label@ == "Missing"@
                    && result.rows@[i].color == Color::Muted
            },
{
    let title = match summary.overall {
        GitHubPullRequestCheckState::Passed => "All checks have passed",
        GitHubPullRequestCheckState::Failed => "Some checks failed",
        GitHubPullRequestCheckState::Pending => "Checks are pending",
        GitHubPullRequestCheckState::Skipped => "Checks skipped",
        GitHubPullRequestCheckState::Missing => "No checks found",
    };
    let ghost models = summary.items.deep_view();
    let ghost shown = models.map_values(|item: CheckItem| check_row(item));
    let mut rows: Vec<CheckRow> = Vec::new();
    for i in 0..summary.items.len()
        invariant
            models == summary.items.deep_view(),
            shown == models.map_values(|item: CheckItem| check_row(item)),
            rows.deep_view() == shown.take(i as int),
    {
        let ghost before = rows.deep_view();
        assert(models[i as int] == summary.items[i as int].deep_view());
        rows.push(make_check_row(&summary.items[i]));
        assert(rows.deep_view() == before.push(shown[i as int]));
    }
    assert(shown.take(shown.len() as int) == shown);
    assert forall|i: int| 0 <= i < summary.items@.len() implies (
    #[trigger] rows@[i]).deep_view() == check_row(summary.items@[i].deep_view()) by {
        assert(rows.deep_view()[i] == shown[i]);
    }
    ChecksSection {
        title: title.to_owned(),
        color: check_state_color(summary.overall),
        note: make_note(summary.items.len(), "No check runs or commit statuses found."),
        rows,
    }
}

/// What all reviews together come to.
pub open spec fn review_verdict(summary: GitHubPullRequestReviewSummary) -> ReviewVerdict {
    if summary.changes_requested > 0 {
        ReviewVerdict::ChangesRequested
    } else if summary.approved > 0 {
        ReviewVerdict::Approved
    } else if summary.pending_reviewers > 0 {
        ReviewVerdict::Required
    } else {
        ReviewVerdict::NobodyAsked
    }
}

/// The title and the color of a verdict, where `nobody_asked` is the title if nobody
/// was asked for a review.
pub open spec fn verdict_title(verdict: ReviewVerdict, nobody_asked: Seq<char>) -> (
    Seq<char>,
    Color,
) {
    match verdict {
        ReviewVerdict::ChangesRequested => ("Changes requested"@, Color::Error),
        ReviewVerdict::Approved => ("Approved"@, Color::Success),
        ReviewVerdict::Required => ("Review required"@, Color::Warning),
        ReviewVerdict::NobodyAsked => (nobody_asked, Color::Muted),
    }
}

/// Whether `section` is what is shown of the reviews in `summary`, where
/// `nobody_asked` is the title if nobody was asked for one.
pub open spec fn shows_reviews(
    section: ReviewSection,
    summary: GitHubPullRequestReviewSummary,
    nobody_asked: Seq<char>,
) -> bool {
    &&& section.verdict == review_verdict(summary)
    &&& (section.title@, section.color) == verdict_title(section.verdict, nobody_asked)
    &&& section.counts.deep_view() == seq![
        (decimal(summary.approved as nat), "Approved"@),
        (decimal(summary.changes_requested as nat), "Changes requested"@),
        (decimal(summary.commented as nat), "Commented"@),
        (decimal(summary.pending_reviewers as nat), "Pending"@),
    ]
}

/// The section of the reviews, where `nobody_asked` is its title if nobody was asked
/// for one.
pub fn render_review_section(
    summary: &GitHubPullRequestReviewSummary,
    nobody_asked: &str,
) -> (result: ReviewSection)
    ensures
        shows_reviews(result, *summary, nobody_asked@),
        result.verdict == ReviewVerdict::ChangesRequested <==> summary.changes_requested > 0,
        result.verdict == ReviewVerdict::Approved <==> summary.changes_requested == 0 && summary.approved > 0,
        result.verdict == ReviewVerdict::Required <==> summary.changes_requested == 0 && summary.approved == 0
            && summary.pending_reviewers > 0,
        result.verdict is ChangesRequested ==> result.title@ == "Changes requested"@ && result.color
            == Color::Error,
        result.verdict is Approved ==> result.title@ == "Approved"@ && result.color == Color::Success,
        result.verdict is Required ==> result.title@ == "Review required"@ && result.color == Color::Warning,
        result.verdict is NobodyAsked ==> result.title@ == nobody_asked@ && result.color == Color::Muted,
        result.counts.deep_view() == seq![
            (decimal(summary.approved as nat), "Approved"@),
            (decimal(summary.changes_requested as nat), "Changes requested"@),
            (decimal(summary.commented as nat), "Commented"@),
            (decimal(summary.pending_reviewers as nat), "Pending"@),
        ],
{
    let verdict = if summary.changes_requested > 0 {
        ReviewVerdict::ChangesRequested
    } else if summary.approved > 0 {
        ReviewVerdict::Approved
    } else if summary.pending_reviewers > 0 {
        ReviewVerdict::Required
    } else {
        ReviewVerdict::NobodyAsked
    };
    let (title, color) = match verdict {
        ReviewVerdict::ChangesRequested => ("Changes requested", Color::Error),
        ReviewVerdict::Approved => ("Approved", Color::Success),
        ReviewVerdict::Required => ("Review required", Color::Warning),
        ReviewVerdict::NobodyAsked => (nobody_asked, Color::Muted),
    };
    let mut counts: Vec<Stat> = Vec::new();
    counts.push(make_stat(summary.approved as u64, "Approved"));
    counts.push(make_stat(summary.changes_requested as u64, "Changes requested"));
    counts.push(make_stat(summary.commented as u64, "Commented"));
    counts.push(make_stat(summary.pending_reviewers as u64, "Pending"));
    assert(counts.deep_view() == seq![
        (decimal(summary.approved as nat), "Approved"@),
        (decimal(summary.changes_requested as nat), "Changes requested"@),
        (decimal(summary.commented as nat), "Commented"@),
        (decimal(summary.pending_reviewers as nat), "Pending"@),
    ]);
    ReviewSection { verdict, title: title.to_owned(), color, counts }
}

/// A request for changes prevails over every approval.
pub proof fn lemma_changes_requested_prevail(summary: GitHubPullRequestReviewSummary)
    requires
        summary.changes_requested > 0,
    ensures
        review_verdict(summary) == ReviewVerdict::ChangesRequested,
{
}

/// The icon of an entry of the timeline.
pub open spec fn kind_icon(kind: GitHubPullRequestTimelineItemKind) -> IconName {
    match kind {
        GitHubPullRequestTimelineItemKind::Commit => IconName::GitCommit,
        GitHubPullRequestTimelineItemKind::Comment => IconName::Chat,
        GitHubPullRequestTimelineItemKind::Review => IconName::Eye,
        GitHubPullRequestTimelineItemKind::ReviewComment => IconName::File,
    }
}

/// The row of an entry of the timeline, whose time is written as `time`.
pub open spec fn timeline_row(item: TimelineItem, time: Option<Seq<char>>) -> TimelineRowModel {
    TimelineRowModel {
        icon: kind_icon(item.kind),
        title: item.title,
        metadata: item.metadata,
        author: mention(item.author),
        time: shown_time(time),
        url: item.url,
        markdown: item.markdown,
    }
}

/// The row of an entry of the timeline, whose time is written as `time`.
pub fn render_timeline_item(item: &GitHubPullRequestTimelineItem, time: Option<String>) -> (result:
    TimelineRow)
    ensures
        result.deep_view() == timeline_row(item.deep_view(), time.deep_view()),
        result.title@ == item.title@,
        result.metadata.deep_view() == item.metadata.deep_view(),
        result.author@ == "@"@ + item.author@,
        result.time@ == match time {
            Some(text) => text@,
            None => "unknown"@,
        },
        result.url.deep_view() == item.url.deep_view(),
        result.markdown.deep_view() == item.markdown.deep_view(),
        item.kind is Commit ==> result.icon == IconName::GitCommit,
        item.kind is Comment ==> result.icon == IconName::Chat,
        item.kind is Review ==> result.icon == IconName::Eye,
        item.kind is ReviewComment ==> result.icon == IconName::File,
{
    let icon = match item.kind {
        GitHubPullRequestTimelineItemKind::Commit => IconName::GitCommit,
        GitHubPullRequestTimelineItemKind::Comment => IconName::Chat,
        GitHubPullRequestTimelineItemKind::Review => IconName::Eye,
        GitHubPullRequestTimelineItemKind::ReviewComment => IconName::File,
    };
    TimelineRow {
        icon,
        title: item.title.clone(),
        metadata: clone_optional(&item.metadata),
        author: make_mention(&item.author),
        time: time_or_unknown(time),
        url: clone_optional(&item.url),
        markdown: clone_optional(&item.markdown),
    }
}

/// The rows of a timeline, whose times are written as `times`.
pub open spec fn timeline_rows(items: Seq<TimelineItem>, times: Seq<Option<Seq<char>>>) -> Seq<
    TimelineRowModel,
> {
    Seq::new(items.len(), |i: int| timeline_row(items[i], times[i]))
}

/// Whether `section` is what is shown of the timeline `items`, whose times are
/// written as `times`.
pub open spec fn shows_activity(
    section: ActivitySection,
    items: Seq<TimelineItem>,
    times: Seq<Option<Seq<char>>>,
) -> bool {
    &&& section.count@ == decimal(items.len())
    &&& section.note.deep_view() == note_if_none(items.len(), "No activity loaded."@)
    &&& section.rows.deep_view() == timeline_rows(items, times)
}

/// The section of all that happened, where `times` says how the time of each entry
/// is written.
pub fn render_activity_section(
    items: &Vec<GitHubPullRequestTimelineItem>,
    times: &Vec<Option<String>>,
) -> (result: ActivitySection)
    requires
        times@.len() == items@.len(),
    ensures
        shows_activity(result, items.deep_view(), times.deep_view()),
        result.count@ == decimal(items@.len()),
        items@.len() == 0 ==> result.note.deep_view() == Some("No activity loaded."@),
        items@.len() > 0 ==> result.note is None,
        result.rows@.len() == items@.len(),
        forall|i: int|
            0 <= i < items@.len() ==> {
                &&& (#[trigger] result.rows@[i]).title@ == items@[i].title@
                &&& result.rows@[i].metadata.deep_view() == items@[i].metadata.deep_view()
                &&& result.rows@[i].author@ == "@"@ + items@[i].author@
                &&& result.rows@[i].time@ == match times@[i] {
                    Some(text) => text@,
                    None => "unknown"@,
                }
                &&& result.rows@[i].url.deep_view() == items@[i].url.deep_view()
                &&& result.rows@[i].markdown.deep_view() == items@[i].markdown.deep_view()
                &&& items@[i].kind is Commit ==> result.rows@[i].icon == IconName::GitCommit
                &&& items@[i].kind is Comment ==> result.rows@[i].icon == IconName::Chat
                &&& items@[i].kind is Review ==> result.rows@[i].icon == IconName::Eye
                &&& items@[i].kind is ReviewComment ==> result.rows@[i].icon == IconName::File
            },
{
    let ghost shown = timeline_rows(items.deep_view(), times.deep_view());
    let mut rows: Vec<TimelineRow> = Vec::new();
    for i in 0..items.len()
        invariant
            times@.len() == items@.len(),
            shown == timeline_rows(items.deep_view(), times.deep_view()),
            rows.deep_view() == shown.take(i as int),
    {
        let ghost before = rows.deep_view();
        assert(items.deep_view()[i as int] == items[i as int].deep_view());
        assert(times.deep_view()[i as int] == times[i as int].deep_view());
        rows.push(render_timeline_item(&items[i], clone_optional(&times[i])));
        assert(rows.deep_view() == before.push(shown[i as int]));
    }
    assert(shown.take(shown.len() as int) == shown);
    assert forall|i: int| 0 <= i < items@.len() implies (#[trigger] rows@[i]).deep_view()
        == timeline_row(items@[i].deep_view(), times@[i].deep_view()) by {
        assert(rows.deep_view()[i] == shown[i]);
    }
    ActivitySection {
        count: number_text(items.len() as u64),
        note: make_note(items.len(), "No activity loaded."),
        rows,
    }
}

/// Whether `section` is what is shown of the review in the state `state`, where
/// the times of the timeline's entries are written as `times`.
pub open spec fn shows_review_detail(
    section: ReviewDetailSection,
    state: GitHubPullRequestReviewDetailState,
    times: Seq<Option<Seq<char>>>,
    nobody_asked: Seq<char>,
) -> bool {
    match state {
        GitHubPullRequestReviewDetailState::NotLoaded => section matches
            ReviewDetailSection::Loading { message } && message@
            == "Loading pull request review details..."@,
        GitHubPullRequestReviewDetailState::Loading => section matches
            ReviewDetailSection::Loading { message } && message@
            == "Loading pull request review details..."@,
        GitHubPullRequestReviewDetailState::Error(error) => section matches
            ReviewDetailSection::Failed { title, message } && title@
            == "Failed to load pull request review details"@ && message@ == error@,
        GitHubPullRequestReviewDetailState::Loaded(detail) => section matches
            ReviewDetailSection::Loaded {
            warning_title,
            warnings,
            activity,
            review,
            checks,
        } && {
            &&& warning_title.deep_view() == if detail.errors@.len() == 0 {
                None
            } else {
                Some("Some GitHub data could not be loaded"@)
            }
            &&& warnings.deep_view() == detail.errors.deep_view()
            &&& shows_activity(activity, detail.timeline.deep_view(), times)
            &&& shows_reviews(review, detail.review_summary, nobody_asked)
            &&& shows_checks(checks, detail.checks_summary.deep_view())
        },
    }
}

/// What is shown of the review, where `times` says how the time of each entry of
/// the timeline is written.
pub fn render_review_detail(
    state: &GitHubPullRequestReviewDetailState,
    times: &Vec<Option<String>>,
    nobody_asked: &str,
) -> (result: ReviewDetailSection)
    requires
        state matches GitHubPullRequestReviewDetailState::Loaded(detail) ==> times@.len()
            == detail.timeline@.len(),
    ensures
        shows_review_detail(result, *state, times.deep_view(), nobody_asked@),
        result is Loading <==> state is NotLoaded || state is Loading,
        result is Failed <==> state is Error,
        result is Loaded <==> state is Loaded,
        result matches ReviewDetailSection::Loading { message } ==> message@
            == "Loading pull request review details..."@,
        result matches ReviewDetailSection::Failed { title, message } ==> title@
            == "Failed to load pull request review details"@ && message@ == state->Error_0@,
        result matches ReviewDetailSection::Loaded {
            warning_title,
            warnings,
            activity,
            review,
            checks,
        } ==> {
            let detail = state->Loaded_0;
            &&& detail.errors@.len() == 0 ==> warning_title is None
            &&& detail.errors@.len() > 0 ==> warning_title.deep_view() == Some(
                "Some GitHub data could not be loaded"@,
            )
            &&& warnings.deep_view() == detail.errors.deep_view()
            &&& activity.rows@.len() == detail.timeline@.len()
            &&& checks.rows@.len() == detail.checks_summary.items@.len()
            &&& review.verdict == ReviewVerdict::ChangesRequested
                <==> detail.review_summary.changes_requested > 0
        },
{
    match state {
        GitHubPullRequestReviewDetailState::NotLoaded
        | GitHubPullRequestReviewDetailState::Loading => ReviewDetailSection::Loading {
            message: "Loading pull request review details...".to_owned(),
        },
        GitHubPullRequestReviewDetailState::Error(error) => ReviewDetailSection::Failed {
            title: "Failed to load pull request review details".to_owned(),
            message: error.clone(),
        },
        GitHubPullRequestReviewDetailState::Loaded(detail) => {
            let warning_title = if detail.errors.len() == 0 {
                None
            } else {
                Some("Some GitHub data could not be loaded".to_owned())
            };
            ReviewDetailSection::Loaded {
                warning_title,
                warnings: clone_texts(&detail.errors),
                activity: render_activity_section(&detail.timeline, times),
                review: render_review_section(&detail.review_summary, nobody_asked),
                checks: render_checks_section(&detail.checks_summary),
            }
        },
    }
}

/// `logins` as mentions.
pub open spec fn mentions(logins: Seq<Seq<char>>) -> Seq<Seq<char>> {
    logins.map_values(|login: Seq<char>| mention(login))
}

/// Users as mentions.
fn make_mentions(users: &Vec<GitHubUser>) -> (result: Vec<String>)
    ensures
        result.deep_view() == mentions(users.deep_view()),
        result@.len() == users@.len(),
        forall|i: int|
            0 <= i < users@.len() ==> (#[trigger] result@[i])@ == "@"@ + users@[i].login@,
{
    let ghost shown = mentions(users.deep_view());
    let mut result: Vec<String> = Vec::new();
    for i in 0..users.len()
        invariant
            shown == mentions(users.deep_view()),
            result.deep_view() == shown.take(i as int),
    {
        let ghost before = result.deep_view();
        assert(users.deep_view()[i as int] == users[i as int].login@);
        result.push(make_mention(&users[i].login));
        assert(result.deep_view() == before.push(shown[i as int]));
    }
    assert(shown.take(shown.len() as int) == shown);
    assert forall|i: int| 0 <= i < users@.len() implies (#[trigger] result@[i])@ == "@"@
        + users@[i].login@ by {
        assert(result.deep_view()[i] == shown[i]);
    }
    result
}

/// Whether `section` is what is shown of `users` under the heading `title`: them all,
/// and where there are none, that there are none.
pub open spec fn shows_users(
    section: UserSection,
    title: Seq<char>,
    users: Seq<Seq<char>>,
) -> bool {
    &&& section.title@ == title
    &&& section.note.deep_view() == note_if_none(users.len(), "No "@ + lowercase_text(title))
    &&& section.users.deep_view() == mentions(users)
    &&& is_ascii_text(title) ==> section.note.deep_view() == note_if_none(
        users.len(),
        "No "@ + title.map_values(|c: char| small_letter(c)),
    )
}

/// The section of `users` under the heading `title`.
pub fn render_user_section(title: &str, users: &Vec<GitHubUser>) -> (result: UserSection)
    ensures
        shows_users(result, title@, users.deep_view()),
        result.title@ == title@,
        users@.len() > 0 ==> result.note is None,
        users@.len() == 0 ==> result.note.deep_view() == Some("No "@ + lowercase_text(title@)),
        result.users@.len() == users@.len(),
        forall|i: int|
            0 <= i < users@.len() ==> (#[trigger] result.users@[i])@ == "@"@ + users@[i].login@,
{
    let note = "No ".to_owned().concat(&to_lowercase(title));
    UserSection {
        title: title.to_owned(),
        note: make_note(users.len(), &note),
        users: make_mentions(users),
    }
}

/// Whether `sidebar` is what stands beside the page of `pull`, where `created` and
/// `updated` say how those times are written, and `asked_heading` stands over those who
/// were asked for a review.
pub open spec fn shows_sidebar(
    sidebar: Sidebar,
    pull: PullRequest,
    created: Option<Seq<char>>,
    updated: Option<Seq<char>>,
    asked_heading: Seq<char>,
) -> bool {
    &&& sidebar.labels.deep_view() == pull.labels
    &&& sidebar.labels_note.deep_view() == note_if_none(pull.labels.len(), "No labels"@)
    &&& shows_users(sidebar.reviewers, asked_heading, pull.requested_reviewers)
    &&& sidebar.participants.deep_view() == seq![mention(pull.user)]
    &&& sidebar.details.deep_view() == seq![
        (shown_time(created), "Created"@),
        (shown_time(updated), "Updated"@),
        (decimal(pull.comments as nat), "Comments"@),
        (decimal(pull.review_comments as nat), "Review comments"@),
    ]
}

/// What stands beside the page, where `created` and `updated` say how those times
/// are written, and `asked_heading` stands over those who were asked for a review.
pub fn render_sidebar(
    pull: &GitHubPullRequest,
    created: Option<String>,
    updated: Option<String>,
    asked_heading: &str,
) -> (result: Sidebar)
    ensures
        shows_sidebar(
            result,
            pull.deep_view(),
            created.deep_view(),
            updated.deep_view(),
            asked_heading@,
        ),
        result.labels.deep_view() == pull.labels.deep_view(),
        pull.labels@.len() == 0 ==> result.labels_note.deep_view() == Some("No labels"@),
        pull.labels@.len() > 0 ==> result.labels_note is None,
        result.reviewers.title@ == asked_heading@,
        result.reviewers.users@.len() == pull.requested_reviewers@.len(),
        forall|i: int|
            0 <= i < pull.requested_reviewers@.len() ==> (#[trigger]
            result.reviewers.users@[i])@ == "@"@ + pull.requested_reviewers@[i].login@,
        result.participants.deep_view() == seq!["@"@ + pull.user.login@],
        result.details.deep_view() == seq![
            (
                match created {
                    Some(text) => text@,
                    None => "unknown"@,
                },
                "Created"@,
            ),
            (
                match updated {
                    Some(text) => text@,
                    None => "unknown"@,
                },
                "Updated"@,
            ),
            (decimal(pull.comments as nat), "Comments"@),
            (decimal(pull.review_comments as nat), "Review comments"@),
        ],
{
    let mut participants: Vec<String> = Vec::new();
    participants.push(make_mention(&pull.user.login));
    assert(participants.deep_view() == seq![mention(pull.user.login@)]);
    let mut details: Vec<Stat> = Vec::new();
    details.push(Stat { count: time_or_unknown(created), label: "Created".to_owned() });
    details.push(Stat { count: time_or_unknown(updated), label: "Updated".to_owned() });
    details.push(make_stat(pull.comments as u64, "Comments"));
    details.push(make_stat(pull.review_comments as u64, "Review comments"));
    assert(details.deep_view() == seq![
        (shown_time(created.deep_view()), "Created"@),
        (shown_time(updated.deep_view()), "Updated"@),
        (decimal(pull.comments as nat), "Comments"@),
        (decimal(pull.review_comments as nat), "Review comments"@),
    ]);
    Sidebar {
        labels: label_texts(&pull.labels),
        labels_note: make_note(pull.labels.len(), "No labels"),
        reviewers: render_user_section(asked_heading, &pull.requested_reviewers),
        participants,
        details,
    }
}

/// The names of labels.
fn label_texts(labels: &Vec<GitHubLabel>) -> (result: Vec<String>)
    ensures
        result.deep_view() == labels.deep_view(),
{
    crate::github::activity::label_names(labels)
}

/// Whether `header` is what stands at the head of the page of `pull`.
pub open spec fn shows_header(
    header: PageHeader,
    repository: Seq<char>,
    pull: PullRequest,
    title: Seq<char>,
) -> bool {
    &&& header.breadcrumbs.deep_view() == seq![
        "Pull Requests"@,
        "/"@,
        repository,
        "/"@,
        "#"@ + decimal(pull.number as nat),
    ]
    &&& header.title@ == title
    &&& header.state_label@ == state_label(pull)
    &&& header.state_color == state_color(pull)
    &&& header.author@ == mention(pull.user)
    &&& header.base_ref@ == pull.base.ref_name
    &&& header.head_ref@ == pull.head.ref_name
}

/// The boxes that show the share of additions and deletions, where `rounded_share`
/// is the share of the boxes that the additions would take, rounded to a whole
/// number.
pub open spec fn share_boxes(additions: u32, deletions: u32, rounded_share: usize) -> Seq<DiffBox> {
    if additions + deletions == 0 {
        repeated(DiffBox::Muted, BOX_COUNT as nat)
    } else if rounded_share < BOX_COUNT {
        repeated(DiffBox::Created, rounded_share as nat) + repeated(
            DiffBox::Deleted,
            (BOX_COUNT - rounded_share) as nat,
        )
    } else {
        repeated(DiffBox::Created, BOX_COUNT as nat)
    }
}

/// Whether `bar` is what stands in the bar below the head of the page of `pull`.
pub open spec fn shows_stats(bar: StatsBar, pull: PullRequest, rounded_share: usize) -> bool {
    &&& bar.commits.deep_view() == (decimal(or_zero(pull.commits) as nat), "commits"@)
    &&& bar.changed_files.deep_view() == (
        decimal(or_zero(pull.changed_files) as nat),
        "files changed"@,
    )
    &&& bar.additions@ == "+"@ + decimal(or_zero(pull.additions) as nat)
    &&& bar.deletions@ == "-"@ + decimal(or_zero(pull.deletions) as nat)
    &&& bar.boxes@ == share_boxes(or_zero(pull.additions), or_zero(pull.deletions), rounded_share)
    &&& bar.url@ == pull.html_url
}

impl GitHubPullRequestView {
    /// What stands at the head of the page.
    pub fn render_header(&self, row_meta: GitHubPullRequestRowMeta) -> (result: PageHeader)
        ensures
            shows_header(
                result,
                self.repo_name_with_owner@,
                self.pull.deep_view(),
                row_meta.title@,
            ),
            result.breadcrumbs.deep_view() == seq![
                "Pull Requests"@,
                "/"@,
                self.repo_name_with_owner@,
                "/"@,
                "#"@ + decimal(self.pull.number as nat),
            ],
            result.title@ == row_meta.title@,
            result.state_label@ == state_label(self.pull.deep_view()),
            result.state_color == state_color(self.pull.deep_view()),
            result.author@ == "@"@ + self.pull.user.login@,
            result.base_ref@ == self.pull.base.ref_name@,
            result.head_ref@ == self.pull.head.ref_name@,
    {
        let mut number = "#".to_owned();
        number.append(&number_text(self.pull.number));
        let mut breadcrumbs: Vec<String> = Vec::new();
        breadcrumbs.push("Pull Requests".to_owned());
        breadcrumbs.push("/".to_owned());
        breadcrumbs.push(self.repo_name_with_owner.clone());
        breadcrumbs.push("/".to_owned());
        breadcrumbs.push(number);
        assert(breadcrumbs.deep_view() == seq![
            "Pull Requests"@,
            "/"@,
            self.repo_name_with_owner@,
            "/"@,
            "#"@ + decimal(self.pull.number as nat),
        ]);
        PageHeader {
            breadcrumbs,
            title: row_meta.title,
            state_label: github_pull_request_state_label(&self.pull).to_owned(),
            state_color: github_pull_request_state_color(&self.pull),
            author: make_mention(&self.pull.user.login),
            base_ref: self.pull.base.ref_name.clone(),
            head_ref: self.pull.head.ref_name.clone(),
        }
    }

    /// What stands in the bar below the head, where `rounded_share` is the share of
    /// the boxes that the additions would take, rounded to a whole number.
    pub fn render_stats_bar(&self, rounded_share: usize) -> (result: StatsBar)
        requires
            or_zero(self.pull.additions) + or_zero(self.pull.deletions) <= u32::MAX,
        ensures
            shows_stats(result, self.pull.deep_view(), rounded_share),
            result.commits.label@ == "commits"@,
            result.commits.count@ == decimal((match self.pull.commits {
                Some(n) => n,
                None => 0u32,
            }) as nat),
            result.changed_files.label@ == "files changed"@,
            result.changed_files.count@ == decimal((match self.pull.changed_files {
                Some(n) => n,
                None => 0u32,
            }) as nat),
            result.additions@ == "+"@ + decimal((match self.pull.additions {
                Some(n) => n,
                None => 0u32,
            }) as nat),
            result.deletions@ == "-"@ + decimal((match self.pull.deletions {
                Some(n) => n,
                None => 0u32,
            }) as nat),
            result.url@ == self.pull.html_url@,
            result.boxes@.len() == 5,
            result.checkout_busy == self.checking_out,
            result.view_changes_busy == self.viewing_changes,
            ({
                let total = or_zero(self.pull.additions) + or_zero(self.pull.deletions);
                forall|i: int|
                    0 <= i < 5 ==> #[trigger] result.boxes@[i] == if total == 0 {
                        DiffBox::Muted
                    } else if i < rounded_share {
                        DiffBox::Created
                    } else {
                        DiffBox::Deleted
                    }
            }),
    {
        let added = unwrap_or_zero(self.pull.additions);
        let deleted = unwrap_or_zero(self.pull.deletions);
        let (added_boxes, deleted_boxes) = github_pull_request_diff_boxes(
            added,
            deleted,
            rounded_share,
        );
        let boxes = render_diff_boxes(added_boxes, deleted_boxes);
        let mut additions = "+".to_owned();
        additions.append(&number_text(added as u64));
        let mut deletions = "-".to_owned();
        deletions.append(&number_text(deleted as u64));
        StatsBar {
            commits: make_stat(unwrap_or_zero(self.pull.commits) as u64, "commits"),
            changed_files: make_stat(
                unwrap_or_zero(self.pull.changed_files) as u64,
                "files changed",
            ),
            additions,
            deletions,
            boxes,
            checkout_busy: self.checking_out,
            view_changes_busy: self.viewing_changes,
            url: self.pull.html_url.clone(),
        }
    }
}

/// All that stands on the page of a pull request.
#[derive(Clone, Debug, PartialEq, Eq)]
pub struct PullRequestPage {
    pub header: PageHeader,
    pub stats: StatsBar,
    pub body: String,
    pub review: ReviewDetailSection,
    pub sidebar: Sidebar,
}

impl GitHubPullRequestView {
    /// The page: `created`, `updated` and `times` say how those times and the times
    /// of the timeline's entries are written, and `rounded_share` is the share of
    /// the boxes that the additions would take, rounded to a whole number. `words` are
    /// those that whoever draws the page chooses.
    pub fn render(
        &self,
        created: Option<String>,
        updated: Option<String>,
        times: &Vec<Option<String>>,
        rounded_share: usize,
        words: &PageWords,
    ) -> (result: PullRequestPage)
        requires
            or_zero(self.pull.additions) + or_zero(self.pull.deletions) <= u32::MAX,
            self.review_detail matches GitHubPullRequestReviewDetailState::Loaded(detail)
                ==> times@.len() == detail.timeline@.len(),
        ensures
            shows_header(
                result.header,
                self.repo_name_with_owner@,
                self.pull.deep_view(),
                self.pull.title@,
            ),
            shows_stats(result.stats, self.pull.deep_view(), rounded_share),
            result.stats.checkout_busy == self.checking_out,
            result.stats.view_changes_busy == self.viewing_changes,
            result.body@ == self.body_text@,
            shows_review_detail(
                result.review,
                self.review_detail,
                times.deep_view(),
                words.nobody_asked@,
            ),
            shows_sidebar(
                result.sidebar,
                self.pull.deep_view(),
                created.deep_view(),
                updated.deep_view(),
                words.asked_heading@,
            ),
            result.header.title@ == self.pull.title@,
            result.header.breadcrumbs.deep_view() == seq![
                "Pull Requests"@,
                "/"@,
                self.repo_name_with_owner@,
                "/"@,
                "#"@ + decimal(self.pull.number as nat),
            ],
            result.header.author@ == "@"@ + self.pull.user.login@,
            result.header.state_label@ == state_label(self.pull.deep_view()),
            result.header.state_color == state_color(self.pull.deep_view()),
            result.header.base_ref@ == self.pull.base.ref_name@,
            result.header.head_ref@ == self.pull.head.ref_name@,
            result.stats.url@ == self.pull.html_url@,
            result.stats.additions@ == "+"@ + decimal((or_zero(self.pull.additions)) as nat),
            result.stats.deletions@ == "-"@ + decimal((or_zero(self.pull.deletions)) as nat),
            result.review is Loading <==> self.review_detail is NotLoaded || self.review_detail
                is Loading,
            result.review is Failed <==> self.review_detail is Error,
            result.review is Loaded <==> self.review_detail is Loaded,
            result.sidebar.labels.deep_view() == self.pull.labels.deep_view(),
            result.sidebar.participants.deep_view() == seq!["@"@ + self.pull.user.login@],
            result.sidebar.reviewers.title@ == words.asked_heading@,
            result.sidebar.reviewers.users@.len() == self.pull.requested_reviewers@.len(),
            forall|i: int|
                0 <= i < self.pull.requested_reviewers@.len() ==> (#[trigger]
                result.sidebar.reviewers.users@[i])@ == "@"@
                    + self.pull.requested_reviewers@[i].login@,
    {
        let row_meta = github_pull_request_row_meta(
            &self.repo_name_with_owner,
            &self.pull,
            clone_optional(&updated),
        );
        PullRequestPage {
            header: self.render_header(row_meta),
            stats: self.render_stats_bar(rounded_share),
            body: self.body_text.clone(),
            review: render_review_detail(&self.review_detail, times, &words.nobody_asked),
            sidebar: render_sidebar(&self.pull, created, updated, &words.asked_heading),
        }
    }
}

/// A check is shown in green exactly if it passed, in red exactly if it failed and in
/// yellow exactly if it is pending.
pub proof fn lemma_check_color(state: GitHubPullRequestCheckState)
    ensures
        check_color(state) == Color::Success <==> state is Passed,
        check_color(state) == Color::Error <==> state is Failed,
        check_color(state) == Color::Warning <==> state is Pending,
        check_color(state) == Color::Muted <==> state is Skipped || state is Missing,
{
}

/// Reviews come to an approval only if someone approved and nobody requested changes,
/// and a review is required only if neither happened and someone was asked for one.
pub proof fn lemma_review_verdict(summary: GitHubPullRequestReviewSummary)
    ensures
        review_verdict(summary) == ReviewVerdict::ChangesRequested <==> summary.changes_requested
            > 0,
        review_verdict(summary) == ReviewVerdict::Approved <==> summary.changes_requested == 0
            && summary.approved > 0,
        review_verdict(summary) == ReviewVerdict::Required <==> summary.changes_requested == 0
            && summary.approved == 0 && summary.pending_reviewers > 0,
        review_verdict(summary) == ReviewVerdict::NobodyAsked <==> summary.changes_requested == 0
            && summary.approved == 0 && summary.pending_reviewers == 0,
{
}

/// What a section of checks shows: how they came out together, in words and in color,
/// and each check by its name, with its outcome in words and in color.
pub proof fn lemma_shows_checks(section: ChecksSection, summary: ChecksSummary)
    requires
        shows_checks(section, summary),
    ensures
        summary.overall is Passed ==> section.title@ == "All checks have passed"@,
        summary.overall is Failed ==> section.title@ == "Some checks failed"@,
        summary.overall is Pending ==> section.title@ == "Checks are pending"@,
        summary.overall is Skipped ==> section.title@ == "Checks skipped"@,
        summary.overall is Missing ==> section.title@ == "No checks found"@,
        section.color == check_color(summary.overall),
        section.note.deep_view() == if summary.items.len() == 0 {
            Some("No check runs or commit statuses found."@)
        } else {
            None
        },
        section.rows.deep_view().len() == summary.items.len(),
        forall|i: int|
            0 <= i < summary.items.len() ==> {
                &&& (#[trigger] section.rows.deep_view()[i]).name == summary.items[i].name
                &&& section.rows.deep_view()[i].description == summary.items[i].description
                &&& section.rows.deep_view()[i].url == summary.items[i].url
                &&& section.rows.deep_view()[i].label == check_label(summary.items[i].state)
                &&& section.rows.deep_view()[i].color == check_color(summary.items[i].state)
            },
{
}

/// What a section of reviews shows: what they come to, in words and in color, and how
/// many came out which way.
pub proof fn lemma_shows_reviews(
    section: ReviewSection,
    summary: GitHubPullRequestReviewSummary,
    nobody_asked: Seq<char>,
)
    requires
        shows_reviews(section, summary, nobody_asked),
    ensures
        summary.changes_requested > 0 ==> section.title@ == "Changes requested"@ && section.color
            == Color::Error,
        summary.changes_requested == 0 && summary.approved > 0 ==> section.title@ == "Approved"@
            && section.color == Color::Success,
        summary.changes_requested == 0 && summary.approved == 0 && summary.pending_reviewers > 0
            ==> section.title@ == "Review required"@ && section.color == Color::Warning,
        summary.changes_requested == 0 && summary.approved == 0 && summary.pending_reviewers == 0
            ==> section.title@ == nobody_asked && section.color == Color::Muted,
        section.verdict == review_verdict(summary),
        section.counts.deep_view() == seq![
            (decimal(summary.approved as nat), "Approved"@),
            (decimal(summary.changes_requested as nat), "Changes requested"@),
            (decimal(summary.commented as nat), "Commented"@),
            (decimal(summary.pending_reviewers as nat), "Pending"@),
        ],
{
}

/// What a section of activity shows: how many entries there are, and each of them with
/// its kind, its author, its time and what it says.
pub proof fn lemma_shows_activity(
    section: ActivitySection,
    items: Seq<TimelineItem>,
    times: Seq<Option<Seq<char>>>,
)
    requires
        shows_activity(section, items, times),
    ensures
        section.count@ == decimal(items.len()),
        section.note.deep_view() == if items.len() == 0 {
            Some("No activity loaded."@)
        } else {
            None
        },
        section.rows.deep_view().len() == items.len(),
        forall|i: int|
            0 <= i < items.len() ==> {
                &&& (#[trigger] section.rows.deep_view()[i]).title == items[i].title
                &&& section.rows.deep_view()[i].metadata == items[i].metadata
                &&& section.rows.deep_view()[i].author == "@"@ + items[i].author
                &&& section.rows.deep_view()[i].url == items[i].url
                &&& section.rows.deep_view()[i].markdown == items[i].markdown
                &&& section.rows.deep_view()[i].time == match times[i] {
                    Some(time) => time,
                    None => "unknown"@,
                }
                &&& items[i].kind is Commit ==> section.rows.deep_view()[i].icon
                    == IconName::GitCommit
                &&& items[i].kind is Comment ==> section.rows.deep_view()[i].icon == IconName::Chat
                &&& items[i].kind is Review ==> section.rows.deep_view()[i].icon == IconName::Eye
                &&& items[i].kind is ReviewComment ==> section.rows.deep_view()[i].icon
                    == IconName::File
            },
{
}

/// What is shown of the review: that it is being loaded, why it was not, or all of it
/// with a warning where something is missing.
pub proof fn lemma_shows_review_detail(
    section: ReviewDetailSection,
    state: GitHubPullRequestReviewDetailState,
    times: Seq<Option<Seq<char>>>,
    nobody_asked: Seq<char>,
)
    requires
        shows_review_detail(section, state, times, nobody_asked),
    ensures
        state is NotLoaded || state is Loading ==> (section matches ReviewDetailSection::Loading {
            message,
        } && message@ == "Loading pull request review details..."@),
        state matches GitHubPullRequestReviewDetailState::Error(error) ==> (section matches
            ReviewDetailSection::Failed { title, message } && title@
            == "Failed to load pull request review details"@ && message@ == error@),
        state matches GitHubPullRequestReviewDetailState::Loaded(detail) ==> (section matches
            ReviewDetailSection::Loaded {
            warning_title,
            warnings,
            activity,
            review,
            checks,
        } && {
            &&& detail.errors@.len() == 0 ==> warning_title is None
            &&& detail.errors@.len() > 0 ==> warning_title.deep_view() == Some(
                "Some GitHub data could not be loaded"@,
            )
            &&& warnings.deep_view() == detail.errors.deep_view()
            &&& shows_activity(activity, detail.timeline.deep_view(), times)
            &&& shows_reviews(review, detail.review_summary, nobody_asked)
            &&& shows_checks(checks, detail.checks_summary.deep_view())
        }),
{
}

/// What stands beside a page: all labels, all who were asked for a review, the author,
/// and when what happened how often.
pub proof fn lemma_shows_sidebar(
    sidebar: Sidebar,
    pull: PullRequest,
    created: Option<Seq<char>>,
    updated: Option<Seq<char>>,
    asked_heading: Seq<char>,
)
    requires
        shows_sidebar(sidebar, pull, created, updated, asked_heading),
    ensures
        sidebar.labels.deep_view() == pull.labels,
        sidebar.labels_note.deep_view() == if pull.labels.len() == 0 {
            Some("No labels"@)
        } else {
            None
        },
        sidebar.reviewers.title@ == asked_heading,
        sidebar.reviewers.note.deep_view() == if pull.requested_reviewers.len() == 0 {
            Some("No "@ + lowercase_text(asked_heading))
        } else {
            None
        },
        sidebar.reviewers.users.deep_view() == pull.requested_reviewers.map_values(
            |login: Seq<char>| "@"@ + login,
        ),
        sidebar.participants.deep_view() == seq!["@"@ + pull.user],
        sidebar.details.deep_view() == seq![
            (
                match created {
                    Some(time) => time,
                    None => "unknown"@,
                },
                "Created"@,
            ),
            (
                match updated {
                    Some(time) => time,
                    None => "unknown"@,
                },
                "Updated"@,
            ),
            (decimal(pull.comments as nat), "Comments"@),
            (decimal(pull.review_comments as nat), "Review comments"@),
        ],
{
    assert(mentions(pull.requested_reviewers) =~= pull.requested_reviewers.map_values(
        |login: Seq<char>| "@"@ + login,
    ));
}

/// What stands at the head of a page and in the bar below it.
pub proof fn lemma_shows_head(
    header: PageHeader,
    bar: StatsBar,
    repository: Seq<char>,
    pull: PullRequest,
    title: Seq<char>,
    rounded_share: usize,
)
    requires
        shows_header(header, repository, pull, title),
        shows_stats(bar, pull, rounded_share),
    ensures
        header.breadcrumbs.deep_view() == seq![
            "Pull Requests"@,
            "/"@,
            repository,
            "/"@,
            "#"@ + decimal(pull.number as nat),
        ],
        header.title@ == title,
        header.author@ == "@"@ + pull.user,
        header.base_ref@ == pull.base.ref_name,
        header.head_ref@ == pull.head.ref_name,
        header.state_label@ == state_label(pull),
        header.state_color == state_color(pull),
        bar.commits.deep_view() == (
            decimal(
                match pull.commits {
                    Some(n) => n as nat,
                    None => 0,
                },
            ),
            "commits"@,
        ),
        bar.changed_files.deep_view() == (
            decimal(
                match pull.changed_files {
                    Some(n) => n as nat,
                    None => 0,
                },
            ),
            "files changed"@,
        ),
        bar.additions@ == "+"@ + decimal(
            match pull.additions {
                Some(n) => n as nat,
                None => 0,
            },
        ),
        bar.deletions@ == "-"@ + decimal(
            match pull.deletions {
                Some(n) => n as nat,
                None => 0,
            },
        ),
        bar.url@ == pull.html_url,
        bar.boxes@.len() == 5,
        forall|i: int|
            0 <= i < 5 ==> #[trigger] bar.boxes@[i] == if or_zero(pull.additions) + or_zero(
                pull.deletions,
            ) == 0 {
                DiffBox::Muted
            } else if i < rounded_share {
                DiffBox::Created
            } else {
                DiffBox::Deleted
            },
{
}

} // verus!
