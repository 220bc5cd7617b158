//! The inbox: activity items as rows of a table, and back.
use crate::cloud_api_types::{
    ActivityItem, GitHubActivityItem, GitHubActivityKind, GitHubActivitySyncBatch,
};
use crate::github::activity::{kind_name, kind_word};
use crate::models::told;
use crate::outside::json::{json_array, json_texts, read_texts, write_texts};
use crate::text::same_text;
use vstd::prelude::*;
use vstd::string::*;

verus! {

/// A row of the table of inbox items, with the id of the user whose item it is
/// and the time at which it was synced.
#[derive(Clone, Debug, PartialEq, Eq)]
pub struct Model<UserId, DateTime> {
    pub user_id: UserId,
    pub source_id: String,
    pub kind: String,
    pub repository_name_with_owner: String,
    pub title: String,
    pub body: Option<String>,
    pub author_login: Option<String>,
    pub labels_json: String,
    pub url: String,
    pub number: Option<i64>,
    pub state: Option<String>,
    pub draft: Option<bool>,
    pub updated_at: Option<String>,
    pub workflow_run_id: Option<i64>,
    pub workflow_status: Option<String>,
    pub workflow_conclusion: Option<String>,
    pub workflow_event: Option<String>,
    pub workflow_head_branch: Option<String>,
    pub workflow_head_sha: Option<String>,
    pub synced_at: DateTime,
}

/// What a `Model` holds.
#[verifier::ext_equal]
pub struct InboxRow<UserId, DateTime> {
    pub user_id: UserId,
    pub source_id: Seq<char>,
    pub kind: Seq<char>,
    pub repository_name_with_owner: Seq<char>,
    pub title: Seq<char>,
    pub body: Option<Seq<char>>,
    pub author_login: Option<Seq<char>>,
    pub labels_json: Seq<char>,
    pub url: Seq<char>,
    pub number: Option<i64>,
    pub state: Option<Seq<char>>,
    pub draft: Option<bool>,
    pub updated_at: Option<Seq<char>>,
    pub workflow_run_id: Option<i64>,
    pub workflow_status: Option<Seq<char>>,
    pub workflow_conclusion: Option<Seq<char>>,
    pub workflow_event: Option<Seq<char>>,
    pub workflow_head_branch: Option<Seq<char>>,
    pub workflow_head_sha: Option<Seq<char>>,
    pub synced_at: DateTime,
}

impl<UserId, DateTime> DeepView for Model<UserId, DateTime> {
    type V = InboxRow<UserId, DateTime>;

    open spec fn deep_view(&self) -> InboxRow<UserId, DateTime> {
        InboxRow {
            user_id: self.user_id,
            source_id: self.source_id@,
            kind: self.kind@,
            repository_name_with_owner: self.repository_name_with_owner@,
            title: self.title@,
            body: self.body.deep_view(),
            author_login: self.author_login.deep_view(),
            labels_json: self.labels_json@,
            url: self.url@,
            number: self.number,
            state: self.state.deep_view(),
            draft: self.draft,
            updated_at: self.updated_at.deep_view(),
            workflow_run_id: self.workflow_run_id,
            workflow_status: self.workflow_status.deep_view(),
            workflow_conclusion: self.workflow_conclusion.deep_view(),
            workflow_event: self.workflow_event.deep_view(),
            workflow_head_branch: self.workflow_head_branch.deep_view(),
            workflow_head_sha: self.workflow_head_sha.deep_view(),
            synced_at: self.synced_at,
        }
    }
}

/// An inbox item as it is served.
#[derive(Clone, Debug, PartialEq, Eq)]
pub struct GitHubInboxItem {
    pub source_id: String,
    pub kind: GitHubActivityKind,
    pub repository_name_with_owner: String,
    pub title: String,
    pub body: Option<String>,
    pub author_login: Option<String>,
    pub labels: Vec<String>,
    pub url: String,
    pub number: Option<u64>,
    pub state: Option<String>,
    pub draft: Option<bool>,
    pub updated_at: Option<String>,
    pub workflow_run_id: Option<u64>,
    pub workflow_status: Option<String>,
    pub workflow_conclusion: Option<String>,
    pub workflow_event: Option<String>,
    pub workflow_head_branch: Option<String>,
    pub workflow_head_sha: Option<String>,
}

/// An inbox item holds what an activity item holds.
impl DeepView for GitHubInboxItem {
    type V = ActivityItem;

    open spec fn deep_view(&self) -> ActivityItem {
        ActivityItem {
            kind: self.kind,
            source_id: self.source_id@,
            repository_name_with_owner: self.repository_name_with_owner@,
            title: self.title@,
            body: self.body.deep_view(),
            author_login: self.author_login.deep_view(),
            labels: self.labels.deep_view(),
            url: self.url@,
            number: self.number,
            state: self.state.deep_view(),
            draft: self.draft,
            updated_at: self.updated_at.deep_view(),
            workflow_run_id: self.workflow_run_id,
            workflow_status: self.workflow_status.deep_view(),
            workflow_conclusion: self.workflow_conclusion.deep_view(),
            workflow_event: self.workflow_event.deep_view(),
            workflow_head_branch: self.workflow_head_branch.deep_view(),
            workflow_head_sha: self.workflow_head_sha.deep_view(),
        }
    }
}

/// The inbox items that are served.
#[derive(Clone, Debug, PartialEq, Eq)]
pub struct GitHubInboxItemsResponse {
    pub items: Vec<GitHubInboxItem>,
}

/// The word under which a kind is kept.
pub fn github_activity_kind(kind: &GitHubActivityKind) -> (result: &'static str)
    ensures
        result@ == kind_word(*kind),
        kind is Issue ==> result@ == "issue"@,
        kind is PullRequest ==> result@ == "pull_request"@,
        kind is WorkflowRun ==> result@ == "workflow_run"@,
{
    kind_name(*kind)
}

/// The kind that is kept under `word`.
pub open spec fn kind_of(word: Seq<char>) -> Result<GitHubActivityKind, Seq<char>> {
    if word == "issue"@ {
        Ok(GitHubActivityKind::Issue)
    } else if word == "pull_request"@ {
        Ok(GitHubActivityKind::PullRequest)
    } else if word == "workflow_run"@ {
        Ok(GitHubActivityKind::WorkflowRun)
    } else {
        Err("unknown GitHub inbox item kind: "@ + word)
    }
}

/// The kind that is kept under `kind`.
pub fn github_activity_kind_from_db(kind: &str) -> (result: Result<GitHubActivityKind, String>)
    ensures
        match result {
            Ok(found) => kind_of(kind@) == Ok::<_, Seq<char>>(found),
            Err(message) => kind_of(kind@) == Err::<GitHubActivityKind, _>(message@),
        },
        result == Ok::<_, String>(GitHubActivityKind::Issue) <==> kind@ == "issue"@,
        result == Ok::<_, String>(GitHubActivityKind::PullRequest) <==> kind@ == "pull_request"@,
        result == Ok::<_, String>(GitHubActivityKind::WorkflowRun) <==> kind@ == "workflow_run"@,
        result matches Err(message) ==> message@ == "unknown GitHub inbox item kind: "@ + kind@,
{
    proof {
        reveal_strlit("issue");
        reveal_strlit("pull_request");
        reveal_strlit("workflow_run");
        assert("issue"@.len() == 5 && "pull_request"@.len() == 12 && "workflow_run"@.len() == 12);
        assert("pull_request"@[0] != "workflow_run"@[0]);
    }
    if same_text(kind, "issue") {
        Ok(GitHubActivityKind::Issue)
    } else if same_text(kind, "pull_request") {
        Ok(GitHubActivityKind::PullRequest)
    } else if same_text(kind, "workflow_run") {
        Ok(GitHubActivityKind::WorkflowRun)
    } else {
        let mut message = "unknown GitHub inbox item kind: ".to_owned();
        message.append(kind);
        Err(message)
    }
}

/// A kind is found again under its word.
pub proof fn lemma_kind_round_trip(kind: GitHubActivityKind)
    ensures
        kind_of(kind_word(kind)) == Ok::<_, Seq<char>>(kind),
{
    reveal_strlit("issue");
    reveal_strlit("pull_request");
    reveal_strlit("workflow_run");
    assert("pull_request"@.len() == 12 && "workflow_run"@.len() == 12 && "issue"@.len() == 5);
    assert("pull_request"@[0] != "workflow_run"@[0]);
}

/// Whether a number can be kept.
pub open spec fn keepable(number: Option<u64>) -> bool {
    number matches Some(n) ==> n <= i64::MAX
}

/// A number as it is kept.
pub open spec fn kept_number(number: Option<u64>) -> Option<i64> {
    match number {
        Some(n) => Some(n as i64),
        None => None,
    }
}

/// A number as it is kept, if it can be.
fn keep_number(number: Option<u64>) -> (result: Option<Option<i64>>)
    ensures
        result is Some <==> keepable(number),
        result matches Some(kept) ==> kept == kept_number(number),
{
    match number {
        Some(n) => if n <= 0x7fff_ffff_ffff_ffff {
            Some(Some(n as i64))
        } else {
            None
        },
        None => Some(None),
    }
}

/// The row that keeps `item` for `user_id`, where `labels_json` is its labels as JSON.
pub open spec fn row_with_labels<UserId, DateTime>(
    user_id: UserId,
    synced_at: DateTime,
    item: ActivityItem,
    labels_json: Seq<char>,
) -> Result<InboxRow<UserId, DateTime>, Seq<char>> {
    if !keepable(item.number) {
        Err("GitHub issue or pull request number exceeds i64"@)
    } else if !keepable(item.workflow_run_id) {
        Err("GitHub workflow run id exceeds i64"@)
    } else {
        Ok(
            InboxRow {
                user_id,
                source_id: item.source_id,
                kind: kind_word(item.kind),
                repository_name_with_owner: item.repository_name_with_owner,
                title: item.title,
                body: item.body,
                author_login: item.author_login,
                labels_json,
                url: item.url,
                number: kept_number(item.number),
                state: item.state,
                draft: item.draft,
                updated_at: item.updated_at,
                workflow_run_id: kept_number(item.workflow_run_id),
                workflow_status: item.workflow_status,
                workflow_conclusion: item.workflow_conclusion,
                workflow_event: item.workflow_event,
                workflow_head_branch: item.workflow_head_branch,
                workflow_head_sha: item.workflow_head_sha,
                synced_at,
            },
        )
    }
}

/// The row that keeps `item` for `user_id`.
pub open spec fn row_for_item<UserId, DateTime>(
    user_id: UserId,
    synced_at: DateTime,
    item: ActivityItem,
) -> Result<InboxRow<UserId, DateTime>, Seq<char>> {
    row_with_labels(user_id, synced_at, item, json_array(item.labels))
}

/// The rows that keep `items`, or what is said of the first that cannot be kept.
pub open spec fn rows_for_items<UserId, DateTime>(
    user_id: UserId,
    synced_at: DateTime,
    items: Seq<ActivityItem>,
) -> Result<Seq<InboxRow<UserId, DateTime>>, Seq<char>>
    decreases items.len(),
{
    if items.len() == 0 {
        Ok(Seq::empty())
    } else {
        match rows_for_items(user_id, synced_at, items.drop_last()) {
            Err(problem) => Err(problem),
            Ok(rows) => match row_for_item(user_id, synced_at, items.last()) {
                Err(problem) => Err(problem),
                Ok(row) => Ok(rows.push(row)),
            },
        }
    }
}

/// What of `row` is read back as an item, where `labels` is what its labels say.
pub open spec fn item_of_row<UserId, DateTime>(
    row: InboxRow<UserId, DateTime>,
    labels: Option<Seq<Seq<char>>>,
) -> Result<ActivityItem, Seq<char>> {
    match labels {
        None => Err("failed to parse GitHub inbox item labels"@),
        Some(labels) => if row.number matches Some(n) && n < 0 {
            Err("GitHub inbox item number is negative"@)
        } else if row.workflow_run_id matches Some(n) && n < 0 {
            Err("GitHub inbox workflow run id is negative"@)
        } else {
            match kind_of(row.kind) {
                Err(problem) => Err(problem),
                Ok(kind) => Ok(
                    ActivityItem {
                        kind,
                        source_id: row.source_id,
                        repository_name_with_owner: row.repository_name_with_owner,
                        title: row.title,
                        body: row.body,
                        author_login: row.author_login,
                        labels,
                        url: row.url,
                        number: read_number(row.number),
                        state: row.state,
                        draft: row.draft,
                        updated_at: row.updated_at,
                        workflow_run_id: read_number(row.workflow_run_id),
                        workflow_status: row.workflow_status,
                        workflow_conclusion: row.workflow_conclusion,
                        workflow_event: row.workflow_event,
                        workflow_head_branch: row.workflow_head_branch,
                        workflow_head_sha: row.workflow_head_sha,
                    },
                ),
            }
        },
    }
}

/// A number that is not negative, as it is read back.
pub open spec fn read_number(number: Option<i64>) -> Option<u64> {
    match number {
        Some(n) => Some(n as u64),
        None => None,
    }
}

/// The row that keeps an item for `user_id`, where `labels_json` is its labels as JSON.
pub fn make_row<UserId: Copy, DateTime: Copy>(
    user_id: UserId,
    synced_at: DateTime,
    item: GitHubActivityItem,
    labels_json: String,
) -> (result: Result<Model<UserId, DateTime>, String>)
    ensures
        told(result) == row_with_labels(user_id, synced_at, item.deep_view(), labels_json@),
        result is Ok <==> !(item.number matches Some(n) && n > 0x7fff_ffff_ffff_ffff) && !(
        item.workflow_run_id matches Some(n) && n > 0x7fff_ffff_ffff_ffff),
        result matches Err(message) ==> message@ == if item.number matches Some(n) && n
            > 0x7fff_ffff_ffff_ffff {
            "GitHub issue or pull request number exceeds i64"@
        } else {
            "GitHub workflow run id exceeds i64"@
        },
        result matches Ok(row) ==> {
            &&& row.labels_json == labels_json
            &&& row.user_id == user_id
            &&& row.synced_at == synced_at
            &&& row.source_id@ == item.source_id@
            &&& row.repository_name_with_owner@ == item.repository_name_with_owner@
            &&& row.title@ == item.title@
            &&& row.body.deep_view() == item.body.deep_view()
            &&& row.author_login.deep_view() == item.author_login.deep_view()
            &&& row.url@ == item.url@
            &&& row.state.deep_view() == item.state.deep_view()
            &&& row.draft == item.draft
            &&& row.updated_at.deep_view() == item.updated_at.deep_view()
            &&& row.workflow_status.deep_view() == item.workflow_status.deep_view()
            &&& row.workflow_conclusion.deep_view() == item.workflow_conclusion.deep_view()
            &&& row.workflow_event.deep_view() == item.workflow_event.deep_view()
            &&& row.workflow_head_branch.deep_view() == item.workflow_head_branch.deep_view()
            &&& row.workflow_head_sha.deep_view() == item.workflow_head_sha.deep_view()
            &&& item.kind is Issue ==> row.kind@ == "issue"@
            &&& item.kind is PullRequest ==> row.kind@ == "pull_request"@
            &&& item.kind is WorkflowRun ==> row.kind@ == "workflow_run"@
            &&& match item.number {
                Some(n) => row.number matches Some(kept) && kept as int == n as int,
                None => row.number is None,
            }
            &&& match item.workflow_run_id {
                Some(n) => row.workflow_run_id matches Some(kept) && kept as int == n as int,
                None => row.workflow_run_id is None,
            }
        },
{
    let number = match keep_number(item.number) {
        Some(number) => number,
        None => return Err("GitHub issue or pull request number exceeds i64".to_owned()),
    };
    let workflow_run_id = match keep_number(item.workflow_run_id) {
        Some(workflow_run_id) => workflow_run_id,
        None => return Err("GitHub workflow run id exceeds i64".to_owned()),
    };
    Ok(
        Model {
            user_id,
            source_id: item.source_id,
            kind: github_activity_kind(&item.kind).to_owned(),
            repository_name_with_owner: item.repository_name_with_owner,
            title: item.title,
            body: item.body,
            author_login: item.author_login,
            labels_json,
            url: item.url,
            number,
            state: item.state,
            draft: item.draft,
            updated_at: item.updated_at,
            workflow_run_id,
            workflow_status: item.workflow_status,
            workflow_conclusion: item.workflow_conclusion,
            workflow_event: item.workflow_event,
            workflow_head_branch: item.workflow_head_branch,
            workflow_head_sha: item.workflow_head_sha,
            synced_at,
        },
    )
}

/// The row that keeps an item for `user_id`. What is read back of the row is the
/// item.
pub fn row_from_item<UserId: Copy, DateTime: Copy>(
    user_id: UserId,
    synced_at: DateTime,
    item: GitHubActivityItem,
) -> (result: Result<Model<UserId, DateTime>, String>)
    ensures
        told(result) == row_for_item(user_id, synced_at, item.deep_view()),
        result matches Ok(row) ==> item_of_row(row.deep_view(), json_texts(row.labels_json@))
            == Ok::<_, Seq<char>>(item.deep_view()),
        result is Ok <==> !(item.number matches Some(n) && n > 0x7fff_ffff_ffff_ffff) && !(
        item.workflow_run_id matches Some(n) && n > 0x7fff_ffff_ffff_ffff),
        result matches Err(message) ==> message@ == if item.number matches Some(n) && n
            > 0x7fff_ffff_ffff_ffff {
            "GitHub issue or pull request number exceeds i64"@
        } else {
            "GitHub workflow run id exceeds i64"@
        },
        result matches Ok(row) ==> {
            &&& row.labels_json@ == json_array(item.labels.deep_view())
            &&& json_texts(row.labels_json@) == Some(item.labels.deep_view())
            &&& row.user_id == user_id
            &&& row.synced_at == synced_at
            &&& row.source_id@ == item.source_id@
            &&& row.repository_name_with_owner@ == item.repository_name_with_owner@
            &&& row.title@ == item.title@
            &&& row.body.deep_view() == item.body.deep_view()
            &&& row.author_login.deep_view() == item.author_login.deep_view()
            &&& row.url@ == item.url@
            &&& row.state.deep_view() == item.state.deep_view()
            &&& row.draft == item.draft
            &&& row.updated_at.deep_view() == item.updated_at.deep_view()
            &&& row.workflow_status.deep_view() == item.workflow_status.deep_view()
            &&& row.workflow_conclusion.deep_view() == item.workflow_conclusion.deep_view()
            &&& row.workflow_event.deep_view() == item.workflow_event.deep_view()
            &&& row.workflow_head_branch.deep_view() == item.workflow_head_branch.deep_view()
            &&& row.workflow_head_sha.deep_view() == item.workflow_head_sha.deep_view()
            &&& item.kind is Issue ==> row.kind@ == "issue"@
            &&& item.kind is PullRequest ==> row.kind@ == "pull_request"@
            &&& item.kind is WorkflowRun ==> row.kind@ == "workflow_run"@
            &&& match item.number {
                Some(n) => row.number matches Some(kept) && kept as int == n as int,
                None => row.number is None,
            }
            &&& match item.workflow_run_id {
                Some(n) => row.workflow_run_id matches Some(kept) && kept as int == n as int,
                None => row.workflow_run_id is None,
            }
        },
{
    proof {
        lemma_kind_round_trip(item.kind);
    }
    match write_texts(&item.labels) {
        Ok(labels_json) => make_row(user_id, synced_at, item, labels_json),
        Err(_) => Err(String::new()),
    }
}

/// The rows that keep a batch of items for `user_id`, one for each item. How many
/// there are is how many items are synced; where there are none, nothing is
/// inserted. What is read back of the rows are the items.
pub fn sync_github_inbox_items<UserId: Copy, DateTime: Copy>(
    user_id: UserId,
    synced_at: DateTime,
    batch: GitHubActivitySyncBatch,
) -> (result: Result<Vec<Model<UserId, DateTime>>, String>)
    ensures
        told(result) == rows_for_items(user_id, synced_at, batch.items.deep_view()),
        result matches Ok(rows) ==> {
            &&& rows@.len() == batch.items@.len()
            &&& items_of_rows(rows.deep_view()) == Ok::<_, Seq<char>>(batch.items.deep_view())
        },
{
    let ghost models = batch.items.deep_view();
    let mut rows: Vec<Model<UserId, DateTime>> = Vec::new();
    assert(models.take(0) == Seq::<ActivityItem>::empty());
    assert(rows.deep_view() == Seq::<InboxRow<UserId, DateTime>>::empty());
    for item in iter: batch.items
        invariant
            iter.seq() == batch.items@,
            models == batch.items.deep_view(),
            rows@.len() == iter.index(),
            rows_for_items(user_id, synced_at, models.take(iter.index() as int)) == Ok::<
                _,
                Seq<char>,
            >(rows.deep_view()),
            items_of_rows(rows.deep_view()) == Ok::<_, Seq<char>>(
                models.take(iter.index() as int),
            ),
    {
        let ghost n = iter.index() as int;
        let ghost before = rows.deep_view();
        proof {
            assert(models.take(n + 1).drop_last() == models.take(n));
            assert(models.take(n + 1).last() == item.deep_view());
        }
        match row_from_item(user_id, synced_at, item) {
            Ok(row) => {
                rows.push(row);
                assert(rows.deep_view() == before.push(row.deep_view()));
                assert(rows.deep_view().drop_last() == before);
                assert(models.take(n + 1) == models.take(n).push(item.deep_view()));
            },
            Err(problem) => {
                proof {
                    lemma_first_problem(user_id, synced_at, models, n + 1);
                }
                return Err(problem);
            },
        }
    }
    assert(models.take(models.len() as int) == models);
    Ok(rows)
}

/// What is said of the first items is said of all of them.
proof fn lemma_first_problem<UserId, DateTime>(
    user_id: UserId,
    synced_at: DateTime,
    items: Seq<ActivityItem>,
    n: int,
)
    requires
        0 <= n <= items.len(),
        rows_for_items(user_id, synced_at, items.take(n)) is Err,
    ensures
        rows_for_items(user_id, synced_at, items) == rows_for_items(
            user_id,
            synced_at,
            items.take(n),
        ),
    decreases items.len(),
{
    if n == items.len() {
        assert(items.take(n) == items);
    } else {
        assert(items.drop_last().take(n) == items.take(n));
        lemma_first_problem(user_id, synced_at, items.drop_last(), n);
    }
}

/// A number that is not negative, as it is read back.
fn unkeep_number(number: Option<i64>) -> (result: Option<Option<u64>>)
    ensures
        result is None <==> (number matches Some(n) && n < 0),
        result matches Some(read) ==> read == read_number(number),
{
    match number {
        Some(n) => if n >= 0 {
            Some(Some(n as u64))
        } else {
            None
        },
        None => Some(None),
    }
}

/// The item that a row keeps, where `labels` is what its labels say.
pub fn item_from_row<UserId, DateTime>(
    row: Model<UserId, DateTime>,
    labels: Option<Vec<String>>,
) -> (result: Result<GitHubInboxItem, String>)
    ensures
        told(result) == item_of_row(row.deep_view(), labels.deep_view()),
        result is Ok <==> labels is Some && !(row.number matches Some(n) && n < 0) && !(
        row.workflow_run_id matches Some(n) && n < 0) && (row.kind@ == "issue"@ || row.kind@
            == "pull_request"@ || row.kind@ == "workflow_run"@),
        result matches Err(message) ==> message@ == if labels is None {
            "failed to parse GitHub inbox item labels"@
        } else if row.number matches Some(n) && n < 0 {
            "GitHub inbox item number is negative"@
        } else if row.workflow_run_id matches Some(n) && n < 0 {
            "GitHub inbox workflow run id is negative"@
        } else {
            "unknown GitHub inbox item kind: "@ + row.kind@
        },
        result matches Ok(item) ==> {
            &&& item.labels == labels->0
            &&& item.source_id@ == row.source_id@
            &&& item.repository_name_with_owner@ == row.repository_name_with_owner@
            &&& item.title@ == row.title@
            &&& item.body.deep_view() == row.body.deep_view()
            &&& item.author_login.deep_view() == row.author_login.deep_view()
            &&& item.url@ == row.url@
            &&& item.state.deep_view() == row.state.deep_view()
            &&& item.draft == row.draft
            &&& item.updated_at.deep_view() == row.updated_at.deep_view()
            &&& item.workflow_status.deep_view() == row.workflow_status.deep_view()
            &&& item.workflow_conclusion.deep_view() == row.workflow_conclusion.deep_view()
            &&& item.workflow_event.deep_view() == row.workflow_event.deep_view()
            &&& item.workflow_head_branch.deep_view() == row.workflow_head_branch.deep_view()
            &&& item.workflow_head_sha.deep_view() == row.workflow_head_sha.deep_view()
            &&& item.kind is Issue <==> row.kind@ == "issue"@
            &&& item.kind is PullRequest <==> row.kind@ == "pull_request"@
            &&& item.kind is WorkflowRun <==> row.kind@ == "workflow_run"@
            &&& match row.number {
                Some(n) => item.number matches Some(read) && read as int == n as int,
                None => item.number is None,
            }
            &&& match row.workflow_run_id {
                Some(n) => item.workflow_run_id matches Some(read) && read as int == n as int,
                None => item.workflow_run_id is None,
            }
        },
{
    let labels = match labels {
        Some(labels) => labels,
        None => return Err("failed to parse GitHub inbox item labels".to_owned()),
    };
    let number = match unkeep_number(row.number) {
        Some(number) => number,
        None => return Err("GitHub inbox item number is negative".to_owned()),
    };
    let workflow_run_id = match unkeep_number(row.workflow_run_id) {
        Some(workflow_run_id) => workflow_run_id,
        None => return Err("GitHub inbox workflow run id is negative".to_owned()),
    };
    let kind = match github_activity_kind_from_db(&row.kind) {
        Ok(kind) => kind,
        Err(message) => return Err(message),
    };
    Ok(
        GitHubInboxItem {
            source_id: row.source_id,
            kind,
            repository_name_with_owner: row.repository_name_with_owner,
            title: row.title,
            body: row.body,
            author_login: row.author_login,
            labels,
            url: row.url,
            number,
            state: row.state,
            draft: row.draft,
            updated_at: row.updated_at,
            workflow_run_id,
            workflow_status: row.workflow_status,
            workflow_conclusion: row.workflow_conclusion,
            workflow_event: row.workflow_event,
            workflow_head_branch: row.workflow_head_branch,
            workflow_head_sha: row.workflow_head_sha,
        },
    )
}

/// The item that a row keeps.
pub fn github_inbox_item_to_dto<UserId, DateTime>(row: Model<UserId, DateTime>) -> (result: Result<
    GitHubInboxItem,
    String,
>)
    ensures
        told(result) == item_of_row(row.deep_view(), json_texts(row.labels_json@)),
        result is Ok <==> json_texts(row.labels_json@) is Some && !(row.number matches Some(n) && n < 0) && !(
        row.workflow_run_id matches Some(n) && n < 0) && (row.kind@ == "issue"@ || row.kind@
            == "pull_request"@ || row.kind@ == "workflow_run"@),
        result matches Err(message) ==> message@ == if json_texts(row.labels_json@) is None {
            "failed to parse GitHub inbox item labels"@
        } else if row.number matches Some(n) && n < 0 {
            "GitHub inbox item number is negative"@
        } else if row.workflow_run_id matches Some(n) && n < 0 {
            "GitHub inbox workflow run id is negative"@
        } else {
            "unknown GitHub inbox item kind: "@ + row.kind@
        },
        result matches Ok(item) ==> {
            &&& json_texts(row.labels_json@) == Some(item.labels.deep_view())
            &&& item.source_id@ == row.source_id@
            &&& item.repository_name_with_owner@ == row.repository_name_with_owner@
            &&& item.title@ == row.title@
            &&& item.body.deep_view() == row.body.deep_view()
            &&& item.author_login.deep_view() == row.author_login.deep_view()
            &&& item.url@ == row.url@
            &&& item.state.deep_view() == row.state.deep_view()
            &&& item.draft == row.draft
            &&& item.updated_at.deep_view() == row.updated_at.deep_view()
            &&& item.workflow_status.deep_view() == row.workflow_status.deep_view()
            &&& item.workflow_conclusion.deep_view() == row.workflow_conclusion.deep_view()
            &&& item.workflow_event.deep_view() == row.workflow_event.deep_view()
            &&& item.workflow_head_branch.deep_view() == row.workflow_head_branch.deep_view()
            &&& item.workflow_head_sha.deep_view() == row.workflow_head_sha.deep_view()
            &&& item.kind is Issue <==> row.kind@ == "issue"@
            &&& item.kind is PullRequest <==> row.kind@ == "pull_request"@
            &&& item.kind is WorkflowRun <==> row.kind@ == "workflow_run"@
            &&& match row.number {
                Some(n) => item.number matches Some(read) && read as int == n as int,
                None => item.number is None,
            }
            &&& match row.workflow_run_id {
                Some(n) => item.workflow_run_id matches Some(read) && read as int == n as int,
                None => item.workflow_run_id is None,
            }
        },
{
    let labels: Option<Vec<String>> = match read_texts(&row.labels_json) {
        Ok(labels) => Some(labels),
        Err(_) => None,
    };
    item_from_row(row, labels)
}

/// The items that `rows` keep, or what is said of the first that keeps none.
pub open spec fn items_of_rows<UserId, DateTime>(
    rows: Seq<InboxRow<UserId, DateTime>>,
) -> Result<Seq<ActivityItem>, Seq<char>>
    decreases rows.len(),
{
    if rows.len() == 0 {
        Ok(Seq::empty())
    } else {
        match items_of_rows(rows.drop_last()) {
            Err(problem) => Err(problem),
            Ok(items) => match item_of_row(rows.last(), json_texts(rows.last().labels_json)) {
                Err(problem) => Err(problem),
                Ok(item) => Ok(items.push(item)),
            },
        }
    }
}

/// What is said of the first rows is said of all of them.
proof fn lemma_first_unreadable<UserId, DateTime>(
    rows: Seq<InboxRow<UserId, DateTime>>,
    n: int,
)
    requires
        0 <= n <= rows.len(),
        items_of_rows(rows.take(n)) is Err,
    ensures
        items_of_rows(rows) == items_of_rows(rows.take(n)),
    decreases rows.len(),
{
    if n == rows.len() {
        assert(rows.take(n) == rows);
    } else {
        assert(rows.drop_last().take(n) == rows.take(n));
        lemma_first_unreadable(rows.drop_last(), n);
    }
}

/// The inbox items that the given rows keep, in their order.
pub fn get_github_inbox_items<UserId, DateTime>(rows: Vec<Model<UserId, DateTime>>) -> (result:
    Result<GitHubInboxItemsResponse, String>)
    ensures
        match result {
            Ok(response) => items_of_rows(rows.deep_view()) == Ok::<_, Seq<char>>(
                response.items.deep_view(),
            ),
            Err(message) => items_of_rows(rows.deep_view()) == Err::<Seq<ActivityItem>, _>(
                message@,
            ),
        },
{
    let ghost models = rows.deep_view();
    let mut items: Vec<GitHubInboxItem> = Vec::new();
    assert(models.take(0) == Seq::<InboxRow<UserId, DateTime>>::empty());
    assert(items.deep_view() == Seq::<ActivityItem>::empty());
    for row in iter: rows
        invariant
            iter.seq() == rows@,
            models == rows.deep_view(),
            items_of_rows(models.take(iter.index() as int)) == Ok::<_, Seq<char>>(
                items.deep_view(),
            ),
    {
        let ghost n = iter.index() as int;
        let ghost before = items.deep_view();
        proof {
            assert(models.take(n + 1).drop_last() == models.take(n));
            assert(models.take(n + 1).last() == row.deep_view());
        }
        match github_inbox_item_to_dto(row) {
            Ok(item) => {
                items.push(item);
                assert(items.deep_view() == before.push(item.deep_view()));
            },
            Err(problem) => {
                proof {
                    lemma_first_unreadable(models, n + 1);
                }
                return Err(problem);
            },
        }
    }
    assert(models.take(models.len() as int) == models);
    Ok(GitHubInboxItemsResponse { items })
}

/// The columns of the table of inbox items.
#[derive(Clone, Copy, Debug, PartialEq, Eq, Structural)]
pub enum InboxColumn {
    UserId,
    SourceId,
    Kind,
    RepositoryNameWithOwner,
    Title,
    Body,
    AuthorLogin,
    LabelsJson,
    Url,
    Number,
    State,
    Draft,
    UpdatedAt,
    WorkflowRunId,
    WorkflowStatus,
    WorkflowConclusion,
    WorkflowEvent,
    WorkflowHeadBranch,
    WorkflowHeadSha,
    SyncedAt,
}

/// Whether a column is part of what makes two rows meet.
pub open spec fn identifies(column: InboxColumn) -> bool {
    column == InboxColumn::UserId || column == InboxColumn::SourceId
}

/// The columns by which a new row meets an old one.
pub fn inbox_conflict_columns() -> (result: Vec<InboxColumn>)
    ensures
        result@ == seq![InboxColumn::UserId, InboxColumn::SourceId],
        forall|column: InboxColumn| result@.contains(column) <==> identifies(column),
        forall|column: InboxColumn| #[trigger]
            result@.contains(column) <==> column == InboxColumn::UserId || column
                == InboxColumn::SourceId,
{
    let result = vec![InboxColumn::UserId, InboxColumn::SourceId];
    assert(result@[0] == InboxColumn::UserId);
    assert(result@[1] == InboxColumn::SourceId);
    result
}

/// The columns that a new row overwrites in the old one it meets: all but those
/// by which they meet.
pub fn inbox_updated_columns() -> (result: Vec<InboxColumn>)
    ensures
        result@.len() == 18,
        result@.no_duplicates(),
        forall|column: InboxColumn| result@.contains(column) <==> !identifies(column),
        forall|column: InboxColumn| #[trigger]
            result@.contains(column) <==> column != InboxColumn::UserId && column
                != InboxColumn::SourceId,
{
    let result = vec![
        InboxColumn::Kind,
        InboxColumn::RepositoryNameWithOwner,
        InboxColumn::Title,
        InboxColumn::Body,
        InboxColumn::AuthorLogin,
        InboxColumn::LabelsJson,
        InboxColumn::Url,
        InboxColumn::Number,
        InboxColumn::State,
        InboxColumn::Draft,
        InboxColumn::UpdatedAt,
        InboxColumn::WorkflowRunId,
        InboxColumn::WorkflowStatus,
        InboxColumn::WorkflowConclusion,
        InboxColumn::WorkflowEvent,
        InboxColumn::WorkflowHeadBranch,
        InboxColumn::WorkflowHeadSha,
        InboxColumn::SyncedAt,
    ];
    assert forall|column: InboxColumn| result@.contains(column) <==> !identifies(column) by {
        assert(result@[0] == InboxColumn::Kind);
        assert(result@[1] == InboxColumn::RepositoryNameWithOwner);
        assert(result@[2] == InboxColumn::Title);
        assert(result@[3] == InboxColumn::Body);
        assert(result@[4] == InboxColumn::AuthorLogin);
        assert(result@[5] == InboxColumn::LabelsJson);
        assert(result@[6] == InboxColumn::Url);
        assert(result@[7] == InboxColumn::Number);
        assert(result@[8] == InboxColumn::State);
        assert(result@[9] == InboxColumn::Draft);
        assert(result@[10] == InboxColumn::UpdatedAt);
        assert(result@[11] == InboxColumn::WorkflowRunId);
        assert(result@[12] == InboxColumn::WorkflowStatus);
        assert(result@[13] == InboxColumn::WorkflowConclusion);
        assert(result@[14] == InboxColumn::WorkflowEvent);
        assert(result@[15] == InboxColumn::WorkflowHeadBranch);
        assert(result@[16] == InboxColumn::WorkflowHeadSha);
        assert(result@[17] == InboxColumn::SyncedAt);
    }
    result
}

/// The columns by which the rows of a user are ordered when they are read, the first
/// of them first. Each is descending.
pub fn inbox_order_columns() -> (result: Vec<InboxColumn>)
    ensures
        result@ == seq![InboxColumn::UpdatedAt, InboxColumn::SourceId],
{
    vec![InboxColumn::UpdatedAt, InboxColumn::SourceId]
}

/// What a row is found by.
pub open spec fn row_key<UserId, DateTime>(row: InboxRow<UserId, DateTime>) -> (UserId, Seq<char>) {
    (row.user_id, row.source_id)
}

/// A table after `rows` were written to it one after another. A row overwrites the
/// one it meets in all columns but those by which they meet, so it takes its place.
pub open spec fn written<UserId, DateTime>(
    table: Map<(UserId, Seq<char>), InboxRow<UserId, DateTime>>,
    rows: Seq<InboxRow<UserId, DateTime>>,
) -> Map<(UserId, Seq<char>), InboxRow<UserId, DateTime>>
    decreases rows.len(),
{
    if rows.len() == 0 {
        table
    } else {
        written(table, rows.drop_last()).insert(row_key(rows.last()), rows.last())
    }
}

/// What is read under a key is the last row that was written under it, and the item
/// that the row was made from.
pub proof fn lemma_read_after_write<UserId, DateTime>(
    table: Map<(UserId, Seq<char>), InboxRow<UserId, DateTime>>,
    rows: Seq<InboxRow<UserId, DateTime>>,
    items: Seq<ActivityItem>,
    i: int,
)
    requires
        items_of_rows(rows) == Ok::<_, Seq<char>>(items),
        0 <= i < rows.len(),
        forall|j: int| i < j < rows.len() ==> row_key(#[trigger] rows[j]) != row_key(rows[i]),
    ensures
        written(table, rows).dom().contains(row_key(rows[i])),
        written(table, rows)[row_key(rows[i])] == rows[i],
        items.len() == rows.len(),
        item_of_row(rows[i], json_texts(rows[i].labels_json)) == Ok::<_, Seq<char>>(items[i]),
    decreases rows.len(),
{
    let earlier = rows.drop_last();
    lemma_as_many_items(earlier);
    let read = items_of_rows(earlier)->Ok_0;
    assert(items.drop_last() =~= read);
    if i < rows.len() - 1 {
        assert(earlier[i] == rows[i]);
        assert forall|j: int| i < j < earlier.len() implies row_key(#[trigger] earlier[j])
            != row_key(earlier[i]) by {
            assert(earlier[j] == rows[j]);
        }
        lemma_read_after_write(table, earlier, read, i);
        assert(row_key(rows[rows.len() - 1]) != row_key(rows[i]));
        assert(items[i] == read[i]);
    }
}

/// As many items are read as there are rows, if they can be read.
proof fn lemma_as_many_items<UserId, DateTime>(rows: Seq<InboxRow<UserId, DateTime>>)
    ensures
        items_of_rows(rows) matches Ok(items) ==> items.len() == rows.len(),
    decreases rows.len(),
{
    if rows.len() > 0 {
        lemma_as_many_items(rows.drop_last());
    }
}

/// What is written under other keys leaves a key as it was.
pub proof fn lemma_others_stay<UserId, DateTime>(
    table: Map<(UserId, Seq<char>), InboxRow<UserId, DateTime>>,
    rows: Seq<InboxRow<UserId, DateTime>>,
    key: (UserId, Seq<char>),
)
    requires
        forall|j: int| 0 <= j < rows.len() ==> row_key(#[trigger] rows[j]) != key,
    ensures
        written(table, rows).dom().contains(key) == table.dom().contains(key),
        table.dom().contains(key) ==> written(table, rows)[key] == table[key],
    decreases rows.len(),
{
    if rows.len() > 0 {
        let earlier = rows.drop_last();
        assert forall|j: int| 0 <= j < earlier.len() implies row_key(#[trigger] earlier[j])
            != key by {
            assert(earlier[j] == rows[j]);
        }
        lemma_others_stay(table, earlier, key);
        assert(row_key(rows[rows.len() - 1]) != key);
    }
}

/// One row is kept for each item, in the order of the items and with what each says.
/// Nothing is kept if a number is too large: then the first item with such a number is
/// told of.
pub proof fn lemma_rows_for_items<UserId, DateTime>(
    user_id: UserId,
    synced_at: DateTime,
    items: Seq<ActivityItem>,
)
    ensures
        rows_for_items(user_id, synced_at, items) is Ok <==> forall|i: int|
            0 <= i < items.len() ==> !((#[trigger] items[i]).number matches Some(n) && n
                > 0x7fff_ffff_ffff_ffff) && !(items[i].workflow_run_id matches Some(n) && n
                > 0x7fff_ffff_ffff_ffff),
        rows_for_items(user_id, synced_at, items) matches Ok(rows) ==> {
            &&& rows.len() == items.len()
            &&& forall|i: int|
                0 <= i < rows.len() ==> {
                    &&& (#[trigger] rows[i]).user_id == user_id
                    &&& rows[i].synced_at == synced_at
                    &&& rows[i].source_id == items[i].source_id
                    &&& rows[i].repository_name_with_owner == items[i].repository_name_with_owner
                    &&& rows[i].title == items[i].title
                    &&& rows[i].body == items[i].body
                    &&& rows[i].author_login == items[i].author_login
                    &&& rows[i].url == items[i].url
                    &&& rows[i].state == items[i].state
                    &&& rows[i].draft == items[i].draft
                    &&& rows[i].updated_at == items[i].updated_at
                    &&& rows[i].workflow_status == items[i].workflow_status
                    &&& rows[i].workflow_conclusion == items[i].workflow_conclusion
                    &&& rows[i].workflow_event == items[i].workflow_event
                    &&& rows[i].workflow_head_branch == items[i].workflow_head_branch
                    &&& rows[i].workflow_head_sha == items[i].workflow_head_sha
                    &&& rows[i].labels_json == json_array(items[i].labels)
                    &&& items[i].kind is Issue ==> rows[i].kind == "issue"@
                    &&& items[i].kind is PullRequest ==> rows[i].kind == "pull_request"@
                    &&& items[i].kind is WorkflowRun ==> rows[i].kind == "workflow_run"@
                }
        },
    decreases items.len(),
{
    if items.len() > 0 {
        let rest = items.drop_last();
        lemma_rows_for_items(user_id, synced_at, rest);
        assert(forall|i: int| 0 <= i < rest.len() ==> rest[i] == #[trigger] items[i]);
        let last = items[items.len() - 1];
        if rows_for_items(user_id, synced_at, items) is Ok {
            let rows = rows_for_items(user_id, synced_at, items)->Ok_0;
            let before = rows_for_items(user_id, synced_at, rest)->Ok_0;
            assert(rows.drop_last() == before);
            assert forall|i: int| 0 <= i < rows.len() - 1 implies #[trigger] rows[i]
                == before[i] by {}
            assert forall|i: int| 0 <= i < items.len() implies !((
            #[trigger] items[i]).number matches Some(n) && n > 0x7fff_ffff_ffff_ffff) && !(
            items[i].workflow_run_id matches Some(n) && n > 0x7fff_ffff_ffff_ffff) by {
                if i < rest.len() {
                    assert(rest[i] == items[i]);
                }
            }
        } else if rows_for_items(user_id, synced_at, rest) is Err {
            let i = choose|i: int|
                0 <= i < rest.len() && ((((#[trigger] rest[i]).number matches Some(n) && n
                    > 0x7fff_ffff_ffff_ffff)) || (rest[i].workflow_run_id matches Some(n) && n
                    > 0x7fff_ffff_ffff_ffff));
            assert(items[i] == rest[i]);
        } else {
            assert(!keepable(last.number) || !keepable(last.workflow_run_id));
        }
    }
}

/// One item is read of each row, in the order of the rows, or nothing if some row keeps
/// none.
pub proof fn lemma_items_of_rows<UserId, DateTime>(rows: Seq<InboxRow<UserId, DateTime>>)
    ensures
        items_of_rows(rows) is Ok <==> forall|i: int|
            0 <= i < rows.len() ==> item_of_row(
                #[trigger] rows[i],
                json_texts(rows[i].labels_json),
            ) is Ok,
        items_of_rows(rows) matches Ok(items) ==> {
            &&& items.len() == rows.len()
            &&& forall|i: int|
                0 <= i < rows.len() ==> item_of_row(
                    #[trigger] rows[i],
                    json_texts(rows[i].labels_json),
                ) == Ok::<_, Seq<char>>(items[i])
        },
        items_of_rows(rows) matches Err(problem) ==> exists|i: int|
            0 <= i < rows.len() && item_of_row(#[trigger] rows[i], json_texts(rows[i].labels_json))
                == Err::<ActivityItem, _>(problem) && (forall|j: int|
                0 <= j < i ==> item_of_row(
                    #[trigger] rows[j],
                    json_texts(rows[j].labels_json),
                ) is Ok),
    decreases rows.len(),
{
    if rows.len() > 0 {
        let rest = rows.drop_last();
        lemma_items_of_rows(rest);
        assert(forall|i: int| 0 <= i < rest.len() ==> rest[i] == #[trigger] rows[i]);
        let last = rows[rows.len() - 1];
        if items_of_rows(rest) is Err {
            let problem = items_of_rows(rest)->Err_0;
            let i = choose|i: int|
                0 <= i < rest.len() && item_of_row(
                    #[trigger] rest[i],
                    json_texts(rest[i].labels_json),
                ) == Err::<ActivityItem, _>(problem) && (forall|j: int|
                    0 <= j < i ==> item_of_row(
                        #[trigger] rest[j],
                        json_texts(rest[j].labels_json),
                    ) is Ok);
            assert(rows[i] == rest[i]);
            assert forall|j: int| 0 <= j < i implies item_of_row(
                #[trigger] rows[j],
                json_texts(rows[j].labels_json),
            ) is Ok by {
                assert(rest[j] == rows[j]);
            }
        } else {
            assert forall|j: int| 0 <= j < rest.len() implies item_of_row(
                #[trigger] rows[j],
                json_texts(rows[j].labels_json),
            ) is Ok by {
                assert(rest[j] == rows[j]);
            }
            assert(rows[rows.len() - 1] == last);
        }
    }
}

/// Where items cannot be kept, the first item that cannot be kept is told of, and its
/// own number before that of its workflow run.
pub proof fn lemma_first_unkept<UserId, DateTime>(
    user_id: UserId,
    synced_at: DateTime,
    items: Seq<ActivityItem>,
)
    ensures
        rows_for_items(user_id, synced_at, items) matches Err(problem) ==> exists|i: int|
            0 <= i < items.len() && (if (#[trigger] items[i]).number matches Some(n) && n
                > 0x7fff_ffff_ffff_ffff {
                problem == "GitHub issue or pull request number exceeds i64"@
            } else {
                (items[i].workflow_run_id matches Some(n) && n > 0x7fff_ffff_ffff_ffff) && problem
                    == "GitHub workflow run id exceeds i64"@
            }) && (forall|j: int|
                0 <= j < i ==> !((#[trigger] items[j]).number matches Some(n) && n
                    > 0x7fff_ffff_ffff_ffff) && !(items[j].workflow_run_id matches Some(n) && n
                    > 0x7fff_ffff_ffff_ffff)),
    decreases items.len(),
{
    if items.len() > 0 {
        let rest = items.drop_last();
        lemma_first_unkept(user_id, synced_at, rest);
        lemma_rows_for_items(user_id, synced_at, rest);
        let last = items[items.len() - 1];
        if rows_for_items(user_id, synced_at, rest) is Err {
            let problem = rows_for_items(user_id, synced_at, rest)->Err_0;
            let i = choose|i: int|
                0 <= i < rest.len() && (if (#[trigger] rest[i]).number matches Some(n) && n
                    > 0x7fff_ffff_ffff_ffff {
                    problem == "GitHub issue or pull request number exceeds i64"@
                } else {
                    (rest[i].workflow_run_id matches Some(n) && n > 0x7fff_ffff_ffff_ffff)
                        && problem == "GitHub workflow run id exceeds i64"@
                }) && (forall|j: int|
                    0 <= j < i ==> !((#[trigger] rest[j]).number matches Some(n) && n
                        > 0x7fff_ffff_ffff_ffff) && !(rest[j].workflow_run_id matches Some(n) && n
                        > 0x7fff_ffff_ffff_ffff));
            assert(items[i] == rest[i]);
            assert forall|j: int| 0 <= j < i implies !((
            #[trigger] items[j]).number matches Some(n) && n > 0x7fff_ffff_ffff_ffff) && !(
            items[j].workflow_run_id matches Some(n) && n > 0x7fff_ffff_ffff_ffff) by {
                assert(items[j] == rest[j]);
            }
        } else if rows_for_items(user_id, synced_at, items) is Err {
            assert(items[items.len() - 1] == last);
            assert forall|j: int| 0 <= j < items.len() - 1 implies !((
            #[trigger] items[j]).number matches Some(n) && n > 0x7fff_ffff_ffff_ffff) && !(
            items[j].workflow_run_id matches Some(n) && n > 0x7fff_ffff_ffff_ffff) by {
                assert(items[j] == rest[j]);
            }
        }
    }
}

} // verus!
