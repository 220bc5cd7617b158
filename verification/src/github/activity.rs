//! A repository's activity as one list of items.
use super::types::{
    GitHubIssue, GitHubIssueItem, GitHubLabel, GitHubPullRequest, GitHubRepositoryActivity,
    GitHubWorkflowRun, Issue, IssueItem, PullRequest, RepositoryActivity, WorkflowRun,
};
use crate::cloud_api_types::{
    ActivityItem, GitHubActivityItem, GitHubActivityKind, GitHubActivitySyncBatch, SyncBatch,
};
use crate::sorting::{
    in_order, lemma_sorted_holds, lemma_stably_sorted, orders, stable_sort, stably_sorted, Sortable,
};
use crate::text::{
    clone_optional, comes_before, decimal, lemma_decimal_injective, lemma_decimal_nonempty,
    lemma_precedes_irreflexive, lemma_precedes_total, lemma_precedes_transitive, lemma_rejoined,
    number_text, precedes, same_text,
};
use vstd::prelude::*;
use vstd::string::*;

verus! {

/// The word for a kind of activity.
pub open spec fn kind_word(kind: GitHubActivityKind) -> Seq<char> {
    match kind {
        GitHubActivityKind::Issue => "issue"@,
        GitHubActivityKind::PullRequest => "pull_request"@,
        GitHubActivityKind::WorkflowRun => "workflow_run"@,
    }
}

/// The word for a kind of activity.
pub fn kind_name(kind: GitHubActivityKind) -> (result: &'static str)
    ensures
        result@ == kind_word(kind),
        kind is Issue ==> result@ == "issue"@,
        kind is PullRequest ==> result@ == "pull_request"@,
        kind is WorkflowRun ==> result@ == "workflow_run"@,
{
    match kind {
        GitHubActivityKind::Issue => "issue",
        GitHubActivityKind::PullRequest => "pull_request",
        GitHubActivityKind::WorkflowRun => "workflow_run",
    }
}

/// The id of the thing of kind `kind` that has the number `number` in
/// `repository`.
pub open spec fn source_id(repository: Seq<char>, kind: GitHubActivityKind, number: u64) -> Seq<
    char,
> {
    "github:"@ + repository + ":"@ + kind_word(kind) + ":"@ + decimal(number as nat)
}

/// The id of the thing of kind `kind` that has the number `number` in
/// `repository`.
fn make_source_id(repository: &str, kind: GitHubActivityKind, number: u64) -> (result: String)
    ensures
        result@ == source_id(repository@, kind, number),
        kind is Issue ==> result@ == "github:"@ + repository@ + ":"@ + "issue"@ + ":"@ + decimal(
            number as nat,
        ),
        kind is PullRequest ==> result@ == "github:"@ + repository@ + ":"@ + "pull_request"@ + ":"@
            + decimal(number as nat),
        kind is WorkflowRun ==> result@ == "github:"@ + repository@ + ":"@ + "workflow_run"@ + ":"@
            + decimal(number as nat),
{
    let mut result = "github:".to_owned();
    result.append(repository);
    result.append(":");
    result.append(kind_name(kind));
    result.append(":");
    result.append(&number_text(number));
    result
}

/// The item for an issue of `repository`.
pub open spec fn issue_item(repository: Seq<char>, issue: Issue) -> ActivityItem {
    ActivityItem {
        kind: GitHubActivityKind::Issue,
        source_id: source_id(repository, GitHubActivityKind::Issue, issue.number),
        repository_name_with_owner: repository,
        title: issue.title,
        body: issue.body,
        author_login: Some(issue.user),
        labels: issue.labels,
        url: issue.html_url,
        number: Some(issue.number),
        state: Some(issue.state),
        draft: None,
        updated_at: issue.updated_at,
        workflow_run_id: None,
        workflow_status: None,
        workflow_conclusion: None,
        workflow_event: None,
        workflow_head_branch: None,
        workflow_head_sha: None,
    }
}

/// The item for a pull request of `repository`.
pub open spec fn pull_request_item(repository: Seq<char>, pull_request: PullRequest) -> ActivityItem {
    ActivityItem {
        kind: GitHubActivityKind::PullRequest,
        source_id: source_id(repository, GitHubActivityKind::PullRequest, pull_request.number),
        repository_name_with_owner: repository,
        title: pull_request.title,
        body: pull_request.body,
        author_login: Some(pull_request.user),
        labels: pull_request.labels,
        url: pull_request.html_url,
        number: Some(pull_request.number),
        state: Some(pull_request.state),
        draft: Some(pull_request.draft),
        updated_at: pull_request.updated_at,
        workflow_run_id: None,
        workflow_status: None,
        workflow_conclusion: None,
        workflow_event: None,
        workflow_head_branch: None,
        workflow_head_sha: None,
    }
}

/// What a workflow run is called.
pub open spec fn run_title(name: Option<Seq<char>>) -> Seq<char> {
    match name {
        Some(name) => if name.len() > 0 {
            name
        } else {
            "Workflow run"@
        },
        None => "Workflow run"@,
    }
}

/// The item for a workflow run of `repository`.
pub open spec fn workflow_run_item(repository: Seq<char>, run: WorkflowRun) -> ActivityItem {
    ActivityItem {
        kind: GitHubActivityKind::WorkflowRun,
        source_id: source_id(repository, GitHubActivityKind::WorkflowRun, run.id),
        repository_name_with_owner: repository,
        title: run_title(run.name),
        body: None,
        author_login: run.actor,
        labels: Seq::empty(),
        url: run.html_url,
        number: None,
        state: None,
        draft: None,
        updated_at: run.updated_at,
        workflow_run_id: Some(run.id),
        workflow_status: run.status,
        workflow_conclusion: run.conclusion,
        workflow_event: Some(run.event),
        workflow_head_branch: run.head_branch,
        workflow_head_sha: run.head_sha,
    }
}

/// The items for all that happened: issues, then pull requests, then runs.
pub open spec fn unsorted_items(activity: RepositoryActivity) -> Seq<ActivityItem> {
    let repository = activity.repository_name_with_owner;
    activity.issues.map_values(|issue: Issue| issue_item(repository, issue))
        + activity.pull_requests.map_values(
        |pull_request: PullRequest| pull_request_item(repository, pull_request),
    ) + activity.workflow_runs.map_values(|run: WorkflowRun| workflow_run_item(repository, run))
}

/// Whether one time is later than another. No time is the earliest.
pub open spec fn later(a: Option<Seq<char>>, b: Option<Seq<char>>) -> bool {
    match (a, b) {
        (Some(a), Some(b)) => precedes(b, a),
        (Some(_), None) => true,
        (None, _) => false,
    }
}

/// Whether `a` stands before `b` in a list of activity: what was updated last
/// comes first, and of two updated together the one with the lower id.
pub open spec fn listed_before(a: ActivityItem, b: ActivityItem) -> bool {
    ||| later(a.updated_at, b.updated_at)
    ||| a.updated_at == b.updated_at && precedes(a.source_id, b.source_id)
}

/// The items for all that happened, as they are listed.
pub open spec fn activity_items(activity: RepositoryActivity) -> Seq<ActivityItem> {
    stably_sorted(
        unsorted_items(activity),
        |a: ActivityItem, b: ActivityItem| listed_before(a, b),
    )
}

impl Sortable for GitHubActivityItem {
    open spec fn order() -> spec_fn(ActivityItem, ActivityItem) -> bool {
        |a: ActivityItem, b: ActivityItem| listed_before(a, b)
    }

    fn goes_before(&self, other: &Self) -> (result: bool) {
        match &self.updated_at {
            Some(left) => match &other.updated_at {
                Some(right) => {
                    if comes_before(right, left) {
                        true
                    } else {
                        same_text(left, right) && comes_before(&self.source_id, &other.source_id)
                    }
                },
                None => true,
            },
            None => other.updated_at.is_none() && comes_before(&self.source_id, &other.source_id),
        }
    }
}

/// The names of labels.
pub fn label_names(labels: &Vec<GitHubLabel>) -> (result: Vec<String>)
    ensures
        result.deep_view() == labels.deep_view(),
{
    let mut result: Vec<String> = Vec::new();
    for i in 0..labels.len()
        invariant
            result.deep_view() == labels.deep_view().take(i as int),
    {
        let ghost before = result.deep_view();
        result.push(labels[i].name.clone());
        assert(result.deep_view() == before.push(labels.deep_view()[i as int]));
    }
    assert(labels.deep_view().take(labels.len() as int) == labels.deep_view());
    result
}

/// The item for an issue of `repository`.
fn item_for_issue(repository: &String, issue: &GitHubIssue) -> (result: GitHubActivityItem)
    ensures
        result.deep_view() == issue_item(repository@, issue.deep_view()),
        result.kind == GitHubActivityKind::Issue,
        result.source_id@ == "github:"@ + repository@ + ":"@ + "issue"@ + ":"@ + decimal(
            issue.number as nat,
        ),
        result.repository_name_with_owner@ == repository@,
        result.title@ == issue.title@,
        result.body.deep_view() == issue.body.deep_view(),
        result.author_login.deep_view() == Some(issue.user.login@),
        result.labels.deep_view() == issue.labels.deep_view(),
        result.url@ == issue.html_url@,
        result.number == Some(issue.number),
        result.state.deep_view() == Some(issue.state@),
        result.draft is None,
        result.updated_at.deep_view() == issue.updated_at.deep_view(),
        result.workflow_run_id is None,
        result.workflow_status is None,
        result.workflow_conclusion is None,
        result.workflow_event is None,
        result.workflow_head_branch is None,
        result.workflow_head_sha is None,
{
    GitHubActivityItem {
        kind: GitHubActivityKind::Issue,
        source_id: make_source_id(repository, GitHubActivityKind::Issue, issue.number),
        repository_name_with_owner: repository.clone(),
        title: issue.title.clone(),
        body: clone_optional(&issue.body),
        author_login: Some(issue.user.login.clone()),
        labels: label_names(&issue.labels),
        url: issue.html_url.clone(),
        number: Some(issue.number),
        state: Some(issue.state.clone()),
        draft: None,
        updated_at: clone_optional(&issue.updated_at),
        workflow_run_id: None,
        workflow_status: None,
        workflow_conclusion: None,
        workflow_event: None,
        workflow_head_branch: None,
        workflow_head_sha: None,
    }
}

/// The item for a pull request of `repository`.
fn item_for_pull_request(repository: &String, pull_request: &GitHubPullRequest) -> (result:
    GitHubActivityItem)
    ensures
        result.deep_view() == pull_request_item(repository@, pull_request.deep_view()),
        result.kind == GitHubActivityKind::PullRequest,
        result.source_id@ == "github:"@ + repository@ + ":"@ + "pull_request"@ + ":"@ + decimal(
            pull_request.number as nat,
        ),
        result.repository_name_with_owner@ == repository@,
        result.title@ == pull_request.title@,
        result.body.deep_view() == pull_request.body.deep_view(),
        result.author_login.deep_view() == Some(pull_request.user.login@),
        result.labels.deep_view() == pull_request.labels.deep_view(),
        result.url@ == pull_request.html_url@,
        result.number == Some(pull_request.number),
        result.state.deep_view() == Some(pull_request.state@),
        result.draft == Some(pull_request.draft),
        result.updated_at.deep_view() == pull_request.updated_at.deep_view(),
        result.workflow_run_id is None,
        result.workflow_status is None,
        result.workflow_conclusion is None,
        result.workflow_event is None,
        result.workflow_head_branch is None,
        result.workflow_head_sha is None,
{
    GitHubActivityItem {
        kind: GitHubActivityKind::PullRequest,
        source_id: make_source_id(
            repository,
            GitHubActivityKind::PullRequest,
            pull_request.number,
        ),
        repository_name_with_owner: repository.clone(),
        title: pull_request.title.clone(),
        body: clone_optional(&pull_request.body),
        author_login: Some(pull_request.user.login.clone()),
        labels: label_names(&pull_request.labels),
        url: pull_request.html_url.clone(),
        number: Some(pull_request.number),
        state: Some(pull_request.state.clone()),
        draft: Some(pull_request.draft),
        updated_at: clone_optional(&pull_request.updated_at),
        workflow_run_id: None,
        workflow_status: None,
        workflow_conclusion: None,
        workflow_event: None,
        workflow_head_branch: None,
        workflow_head_sha: None,
    }
}

/// The item for a workflow run of `repository`.
fn item_for_workflow_run(repository: &String, run: &GitHubWorkflowRun) -> (result:
    GitHubActivityItem)
    ensures
        result.deep_view() == workflow_run_item(repository@, run.deep_view()),
        result.kind == GitHubActivityKind::WorkflowRun,
        result.source_id@ == "github:"@ + repository@ + ":"@ + "workflow_run"@ + ":"@ + decimal(
            run.id as nat,
        ),
        result.repository_name_with_owner@ == repository@,
        result.title@ == if run.name is Some && run.name->0@.len() > 0 {
            run.name->0@
        } else {
            "Workflow run"@
        },
        result.body is None,
        result.author_login.deep_view() == run.actor.deep_view(),
        result.labels@.len() == 0,
        result.url@ == run.html_url@,
        result.number is None,
        result.state is None,
        result.draft is None,
        result.updated_at.deep_view() == run.updated_at.deep_view(),
        result.workflow_run_id == Some(run.id),
        result.workflow_status.deep_view() == run.status.deep_view(),
        result.workflow_conclusion.deep_view() == run.conclusion.deep_view(),
        result.workflow_event.deep_view() == Some(run.event@),
        result.workflow_head_branch.deep_view() == run.head_branch.deep_view(),
        result.workflow_head_sha.deep_view() == run.head_sha.deep_view(),
{
    let title = match &run.name {
        Some(name) => if name.as_str().is_empty() {
            "Workflow run".to_owned()
        } else {
            name.clone()
        },
        None => "Workflow run".to_owned(),
    };
    let author_login = match &run.actor {
        Some(actor) => Some(actor.login.clone()),
        None => None,
    };
    GitHubActivityItem {
        kind: GitHubActivityKind::WorkflowRun,
        source_id: make_source_id(repository, GitHubActivityKind::WorkflowRun, run.id),
        repository_name_with_owner: repository.clone(),
        title,
        body: None,
        author_login,
        labels: Vec::new(),
        url: run.html_url.clone(),
        number: None,
        state: None,
        draft: None,
        updated_at: clone_optional(&run.updated_at),
        workflow_run_id: Some(run.id),
        workflow_status: clone_optional(&run.status),
        workflow_conclusion: clone_optional(&run.conclusion),
        workflow_event: Some(run.event.clone()),
        workflow_head_branch: clone_optional(&run.head_branch),
        workflow_head_sha: clone_optional(&run.head_sha),
    }
}

impl GitHubRepositoryActivity {
    /// The activity as a batch to sync.
    pub fn to_sync_batch(&self) -> (result: GitHubActivitySyncBatch)
        ensures
            result.deep_view() == (SyncBatch {
                repository_name_with_owner: self.deep_view().repository_name_with_owner,
                items: activity_items(self.deep_view()),
            }),
            result.repository_name_with_owner@ == self.repository_name_with_owner@,
            result.items.deep_view() == activity_items(self.deep_view()),
    {
        GitHubActivitySyncBatch {
            repository_name_with_owner: self.repository_name_with_owner.clone(),
            items: self.to_activity_items(),
        }
    }

    /// The items for all that happened, what was updated last first.
    pub fn to_activity_items(&self) -> (result: Vec<GitHubActivityItem>)
        ensures
            result.deep_view() == activity_items(self.deep_view()),
            result@.len() == self.issues@.len() + self.pull_requests@.len()
                + self.workflow_runs@.len(),
            forall|i: int|
                0 <= i < self.issues@.len() ==> exists|k: int|
                    0 <= k < result@.len() && (#[trigger] result@[k]).kind == GitHubActivityKind::Issue
                        && result@[k].title@ == (#[trigger] self.issues@[i]).title@
                        && result@[k].body.deep_view() == self.issues@[i].body.deep_view()
                        && result@[k].author_login.deep_view() == Some(self.issues@[i].user.login@)
                        && result@[k].labels.deep_view() == self.issues@[i].labels.deep_view()
                        && result@[k].url@ == self.issues@[i].html_url@
                        && result@[k].number == Some(self.issues@[i].number)
                        && result@[k].state.deep_view() == Some(self.issues@[i].state@)
                        && result@[k].updated_at.deep_view() == self.issues@[i].updated_at.deep_view(),
            forall|i: int|
                0 <= i < self.pull_requests@.len() ==> exists|k: int|
                    0 <= k < result@.len() && (#[trigger] result@[k]).kind == GitHubActivityKind::PullRequest
                        && result@[k].title@ == (#[trigger] self.pull_requests@[i]).title@
                        && result@[k].body.deep_view() == self.pull_requests@[i].body.deep_view()
                        && result@[k].author_login.deep_view() == Some(self.pull_requests@[i].user.login@)
                        && result@[k].labels.deep_view() == self.pull_requests@[i].labels.deep_view()
                        && result@[k].url@ == self.pull_requests@[i].html_url@
                        && result@[k].number == Some(self.pull_requests@[i].number)
                        && result@[k].state.deep_view() == Some(self.pull_requests@[i].state@)
                        && result@[k].updated_at.deep_view() == self.pull_requests@[i].updated_at.deep_view()
                        && result@[k].draft == Some(self.pull_requests@[i].draft),
            forall|i: int|
                0 <= i < self.workflow_runs@.len() ==> exists|k: int|
                    0 <= k < result@.len() && (#[trigger] result@[k]).kind == GitHubActivityKind::WorkflowRun
                        && result@[k].url@ == (#[trigger] self.workflow_runs@[i]).html_url@
                        && result@[k].author_login.deep_view() == self.workflow_runs@[i].actor.deep_view()
                        && result@[k].updated_at.deep_view() == self.workflow_runs@[i].updated_at.deep_view()
                        && result@[k].workflow_run_id == Some(self.workflow_runs@[i].id)
                        && result@[k].workflow_status.deep_view() == self.workflow_runs@[i].status.deep_view()
                        && result@[k].workflow_conclusion.deep_view() == self.workflow_runs@[i].conclusion.deep_view()
                        && result@[k].workflow_event.deep_view() == Some(self.workflow_runs@[i].event@)
                        && result@[k].workflow_head_branch.deep_view() == self.workflow_runs@[i].head_branch.deep_view()
                        && result@[k].workflow_head_sha.deep_view() == self.workflow_runs@[i].head_sha.deep_view(),
    {
        let repository = &self.repository_name_with_owner;
        let ghost issues = self.issues.deep_view().map_values(
            |issue: Issue| issue_item(repository@, issue),
        );
        let ghost pull_requests = self.pull_requests.deep_view().map_values(
            |pull_request: PullRequest| pull_request_item(repository@, pull_request),
        );
        let ghost runs = self.workflow_runs.deep_view().map_values(
            |run: WorkflowRun| workflow_run_item(repository@, run),
        );
        let mut items: Vec<GitHubActivityItem> = Vec::new();
        for i in 0..self.issues.len()
            invariant
                issues == self.issues.deep_view().map_values(
                    |issue: Issue| issue_item(repository@, issue),
                ),
                items.deep_view() == issues.take(i as int),
        {
            let ghost before = items.deep_view();
            items.push(item_for_issue(repository, &self.issues[i]));
            assert(items.deep_view() == before.push(issues[i as int]));
        }
        for i in 0..self.pull_requests.len()
            invariant
                pull_requests == self.pull_requests.deep_view().map_values(
                    |pull_request: PullRequest| pull_request_item(repository@, pull_request),
                ),
                items.deep_view() == issues + pull_requests.take(i as int),
        {
            let ghost before = items.deep_view();
            items.push(item_for_pull_request(repository, &self.pull_requests[i]));
            assert(items.deep_view() == before.push(pull_requests[i as int]));
        }
        for i in 0..self.workflow_runs.len()
            invariant
                runs == self.workflow_runs.deep_view().map_values(
                    |run: WorkflowRun| workflow_run_item(repository@, run),
                ),
                items.deep_view() == issues + pull_requests + runs.take(i as int),
        {
            let ghost before = items.deep_view();
            items.push(item_for_workflow_run(repository, &self.workflow_runs[i]));
            assert(items.deep_view() == before.push(runs[i as int]));
        }
        assert(items.deep_view() == unsorted_items(self.deep_view()));
        let result = stable_sort(items);
        proof {
            lemma_listing_orders();
            lemma_activity_items(self.deep_view());
            let before = |a: ActivityItem, b: ActivityItem| listed_before(a, b);
            let sorted = result.deep_view();
            assert forall|i: int| 0 <= i < self.issues@.len() implies exists|k: int|
                0 <= k < result@.len() && (#[trigger] result@[k]).kind == GitHubActivityKind::Issue
                    && result@[k].title@ == (#[trigger] self.issues@[i]).title@
                    && result@[k].body.deep_view() == self.issues@[i].body.deep_view()
                    && result@[k].author_login.deep_view() == Some(self.issues@[i].user.login@)
                    && result@[k].labels.deep_view() == self.issues@[i].labels.deep_view()
                    && result@[k].url@ == self.issues@[i].html_url@
                    && result@[k].number == Some(self.issues@[i].number)
                    && result@[k].state.deep_view() == Some(self.issues@[i].state@)
                    && result@[k].updated_at.deep_view() == self.issues@[i].updated_at.deep_view() by {
                let n = 0 + i;
                let item = unsorted_items(self.deep_view())[n];
                assert(unsorted_items(self.deep_view()).contains(item));
                lemma_sorted_holds(unsorted_items(self.deep_view()), before, item);
                let k = choose|k: int| 0 <= k < sorted.len() && sorted[k] == item;
                assert(result@[k].deep_view() == sorted[k]);
            }
            assert forall|i: int| 0 <= i < self.pull_requests@.len() implies exists|k: int|
                0 <= k < result@.len() && (#[trigger] result@[k]).kind == GitHubActivityKind::PullRequest
                    && result@[k].title@ == (#[trigger] self.pull_requests@[i]).title@
                    && result@[k].body.deep_view() == self.pull_requests@[i].body.deep_view()
                    && result@[k].author_login.deep_view() == Some(self.pull_requests@[i].user.login@)
                    && result@[k].labels.deep_view() == self.pull_requests@[i].labels.deep_view()
                    && result@[k].url@ == self.pull_requests@[i].html_url@
                    && result@[k].number == Some(self.pull_requests@[i].number)
                    && result@[k].state.deep_view() == Some(self.pull_requests@[i].state@)
                    && result@[k].updated_at.deep_view() == self.pull_requests@[i].updated_at.deep_view()
                    && result@[k].draft == Some(self.pull_requests@[i].draft) by {
                let n = self.issues@.len() + i;
                let item = unsorted_items(self.deep_view())[n];
                assert(unsorted_items(self.deep_view()).contains(item));
                lemma_sorted_holds(unsorted_items(self.deep_view()), before, item);
                let k = choose|k: int| 0 <= k < sorted.len() && sorted[k] == item;
                assert(result@[k].deep_view() == sorted[k]);
            }
            assert forall|i: int| 0 <= i < self.workflow_runs@.len() implies exists|k: int|
                0 <= k < result@.len() && (#[trigger] result@[k]).kind == GitHubActivityKind::WorkflowRun
                    && result@[k].url@ == (#[trigger] self.workflow_runs@[i]).html_url@
                    && result@[k].author_login.deep_view() == self.workflow_runs@[i].actor.deep_view()
                    && result@[k].updated_at.deep_view() == self.workflow_runs@[i].updated_at.deep_view()
                    && result@[k].workflow_run_id == Some(self.workflow_runs@[i].id)
                    && result@[k].workflow_status.deep_view() == self.workflow_runs@[i].status.deep_view()
                    && result@[k].workflow_conclusion.deep_view() == self.workflow_runs@[i].conclusion.deep_view()
                    && result@[k].workflow_event.deep_view() == Some(self.workflow_runs@[i].event@)
                    && result@[k].workflow_head_branch.deep_view() == self.workflow_runs@[i].head_branch.deep_view()
                    && result@[k].workflow_head_sha.deep_view() == self.workflow_runs@[i].head_sha.deep_view() by {
                let n = self.issues@.len() + self.pull_requests@.len() + i;
                let item = unsorted_items(self.deep_view())[n];
                assert(unsorted_items(self.deep_view()).contains(item));
                lemma_sorted_holds(unsorted_items(self.deep_view()), before, item);
                let k = choose|k: int| 0 <= k < sorted.len() && sorted[k] == item;
                assert(result@[k].deep_view() == sorted[k]);
            }
        }
        result
    }
}

/// The order of a list of activity is an order.
proof fn lemma_listing_orders()
    ensures
        orders(|a: ActivityItem, b: ActivityItem| listed_before(a, b)),
{
    let before = |a: ActivityItem, b: ActivityItem| listed_before(a, b);
    assert forall|a: ActivityItem| !#[trigger] before(a, a) by {
        lemma_precedes_irreflexive(a.source_id);
        if let Some(time) = a.updated_at {
            lemma_precedes_irreflexive(time);
        }
    }
    assert forall|a: ActivityItem, b: ActivityItem, c: ActivityItem|
        #![trigger before(a, b), before(b, c)]
        before(a, b) && before(b, c) implies before(a, c) by {
        lemma_listing_transitive(a, b, c);
    }
    assert forall|a: ActivityItem, b: ActivityItem, c: ActivityItem|
        #![trigger before(a, c), before(a, b)]
        #![trigger before(a, c), before(b, c)]
        before(a, c) implies before(a, b) || before(b, c) by {
        lemma_listing_total(a, b);
        if !before(a, b) {
            if before(b, a) {
                lemma_listing_transitive(b, a, c);
            }
        }
    }
}

proof fn lemma_listing_transitive(a: ActivityItem, b: ActivityItem, c: ActivityItem)
    requires
        listed_before(a, b),
        listed_before(b, c),
    ensures
        listed_before(a, c),
{
    match (a.updated_at, b.updated_at, c.updated_at) {
        (Some(x), Some(y), Some(z)) => {
            if precedes(y, x) && precedes(z, y) {
                lemma_precedes_transitive(z, y, x);
            }
        },
        _ => {},
    }
    if precedes(a.source_id, b.source_id) && precedes(b.source_id, c.source_id) {
        lemma_precedes_transitive(a.source_id, b.source_id, c.source_id);
    }
}

proof fn lemma_listing_total(a: ActivityItem, b: ActivityItem)
    ensures
        listed_before(a, b) || listed_before(b, a) || (a.updated_at == b.updated_at && a.source_id
            == b.source_id),
{
    lemma_precedes_total(a.source_id, b.source_id);
    match (a.updated_at, b.updated_at) {
        (Some(x), Some(y)) => lemma_precedes_total(x, y),
        _ => {},
    }
}

/// The list of activity holds one item for each issue, pull request and run and
/// nothing else, and no item stands behind one that was updated earlier or, at
/// the same time, has a higher id.
pub proof fn lemma_activity_items(activity: RepositoryActivity)
    ensures
        activity_items(activity).len() == activity.issues.len() + activity.pull_requests.len()
            + activity.workflow_runs.len(),
        activity_items(activity).to_multiset() == unsorted_items(activity).to_multiset(),
        in_order(
            activity_items(activity),
            |a: ActivityItem, b: ActivityItem| listed_before(a, b),
        ),
{
    lemma_listing_orders();
    lemma_stably_sorted(
        unsorted_items(activity),
        |a: ActivityItem, b: ActivityItem| listed_before(a, b),
    );
}

/// Two things have the same id only if they are of one kind, in one repository,
/// under one number.
pub proof fn lemma_source_id_injective(
    repository1: Seq<char>,
    kind1: GitHubActivityKind,
    number1: u64,
    repository2: Seq<char>,
    kind2: GitHubActivityKind,
    number2: u64,
)
    requires
        source_id(repository1, kind1, number1) == source_id(repository2, kind2, number2),
    ensures
        repository1 == repository2,
        kind1 == kind2,
        number1 == number2,
{
    reveal_strlit(":");
    reveal_strlit("github:");
    reveal_strlit("issue");
    reveal_strlit("pull_request");
    reveal_strlit("workflow_run");
    let digits1 = decimal(number1 as nat);
    let digits2 = decimal(number2 as nat);
    let outer1 = "github:"@ + repository1 + ":"@ + kind_word(kind1);
    let outer2 = "github:"@ + repository2 + ":"@ + kind_word(kind2);
    assert(source_id(repository1, kind1, number1) == outer1.push(':') + digits1);
    assert(source_id(repository2, kind2, number2) == outer2.push(':') + digits2);
    lemma_decimal_nonempty(number1 as nat);
    lemma_decimal_nonempty(number2 as nat);
    lemma_rejoined(outer1, digits1, outer2, digits2, ':');
    lemma_decimal_injective(number1 as nat, number2 as nat);
    let inner1 = "github:"@ + repository1;
    let inner2 = "github:"@ + repository2;
    assert(outer1 == inner1.push(':') + kind_word(kind1));
    assert(outer2 == inner2.push(':') + kind_word(kind2));
    lemma_rejoined(inner1, kind_word(kind1), inner2, kind_word(kind2), ':');
    assert(kind_word(kind1).len() == kind_word(kind2).len());
    assert(kind_word(kind1)[0] == kind_word(kind2)[0]);
    assert(repository1 == inner1.skip("github:"@.len() as int));
    assert(repository2 == inner2.skip("github:"@.len() as int));
}

/// The issues of a list of issues, without its pull requests.
pub open spec fn true_issues(items: Seq<IssueItem>) -> Seq<Issue> {
    items.filter(|item: IssueItem| !item.is_pull_request).map_values(|item: IssueItem| item.issue)
}

/// A repository's activity, from what the API listed of it.
pub fn activity_from_lists(
    repo_name_with_owner: &str,
    issue_items: Vec<GitHubIssueItem>,
    pull_requests: Vec<GitHubPullRequest>,
    workflow_runs: Vec<GitHubWorkflowRun>,
) -> (result: GitHubRepositoryActivity)
    ensures
        result.deep_view() == (RepositoryActivity {
            repository_name_with_owner: repo_name_with_owner@,
            issues: true_issues(issue_items.deep_view()),
            pull_requests: pull_requests.deep_view(),
            workflow_runs: workflow_runs.deep_view(),
        }),
        result.repository_name_with_owner@ == repo_name_with_owner@,
        result.issues.deep_view() == issue_items.deep_view().filter(
            |item: IssueItem| !item.is_pull_request,
        ).map_values(|item: IssueItem| item.issue),
        result.issues@ == issue_items@.filter(
            |item: GitHubIssueItem| !item.is_pull_request,
        ).map_values(|item: GitHubIssueItem| item.issue),
        result.pull_requests == pull_requests,
        result.workflow_runs == workflow_runs,
{
    let ghost models = issue_items.deep_view();
    let mut issues: Vec<GitHubIssue> = Vec::new();
    let ghost is_issue = |item: GitHubIssueItem| !item.is_pull_request;
    let ghost issue_of = |item: GitHubIssueItem| item.issue;
    assert(issues.deep_view() == true_issues(models.take(0))) by {
        reveal(Seq::filter);
    }
    assert(issues@ == issue_items@.take(0).filter(is_issue).map_values(issue_of)) by {
        reveal(Seq::filter);
    }
    for item in iter: issue_items
        invariant
            iter.seq() == issue_items@,
            models == issue_items.deep_view(),
            issues.deep_view() == true_issues(models.take(iter.index() as int)),
            is_issue == (|item: GitHubIssueItem| !item.is_pull_request),
            issue_of == (|item: GitHubIssueItem| item.issue),
            issues@ == issue_items@.take(iter.index() as int).filter(is_issue).map_values(
                issue_of,
            ),
    {
        let ghost n = iter.index() as int;
        let ghost before = issues.deep_view();
        proof {
            reveal(Seq::filter);
            assert(models.take(n + 1).drop_last() == models.take(n));
            assert(models.take(n + 1).last() == item.deep_view());
            assert(issue_items@.take(n + 1).drop_last() == issue_items@.take(n));
            assert(issue_items@.take(n + 1).last() == item);
        }
        let ghost given = item;
        let ghost held = issues@;
        if !item.is_pull_request {
            let ghost issue = item.issue.deep_view();
            issues.push(item.issue);
            assert(issues.deep_view() == before.push(issue));
        }
        assert(issues.deep_view() == true_issues(models.take(n + 1)));
        assert(issues@ == issue_items@.take(n + 1).filter(is_issue).map_values(issue_of)) by {
            reveal(Seq::filter);
            if !given.is_pull_request {
                assert(issues@ == held.push(given.issue));
            }
        }
    }
    assert(models.take(models.len() as int) == models);
    assert(issue_items@.take(issue_items@.len() as int) == issue_items@);
    GitHubRepositoryActivity {
        repository_name_with_owner: repo_name_with_owner.to_owned(),
        issues,
        pull_requests,
        workflow_runs,
    }
}

/// How the id of a thing is spelled.
pub proof fn lemma_source_ids(repository: Seq<char>, number: u64)
    ensures
        source_id(repository, GitHubActivityKind::Issue, number) == "github:"@ + repository
            + ":issue:"@ + decimal(number as nat),
        source_id(repository, GitHubActivityKind::PullRequest, number) == "github:"@ + repository
            + ":pull_request:"@ + decimal(number as nat),
        source_id(repository, GitHubActivityKind::WorkflowRun, number) == "github:"@ + repository
            + ":workflow_run:"@ + decimal(number as nat),
{
    reveal_strlit(":");
    reveal_strlit("issue");
    reveal_strlit("pull_request");
    reveal_strlit("workflow_run");
    reveal_strlit(":issue:");
    reveal_strlit(":pull_request:");
    reveal_strlit(":workflow_run:");
    assert(":"@ + "issue"@ + ":"@ == ":issue:"@);
    assert(":"@ + "pull_request"@ + ":"@ == ":pull_request:"@);
    assert(":"@ + "workflow_run"@ + ":"@ == ":workflow_run:"@);
    let digits = decimal(number as nat);
    let head = "github:"@ + repository;
    assert(head + ":"@ + "issue"@ + ":"@ + digits == head + (":"@ + "issue"@ + ":"@) + digits);
    assert(head + ":"@ + "pull_request"@ + ":"@ + digits == head + (":"@ + "pull_request"@ + ":"@)
        + digits);
    assert(head + ":"@ + "workflow_run"@ + ":"@ + digits == head + (":"@ + "workflow_run"@ + ":"@)
        + digits);
}

/// Every issue is listed, with what it says of itself.
pub proof fn lemma_issue_is_listed(activity: RepositoryActivity, i: int)
    requires
        0 <= i < activity.issues.len(),
    ensures
        ({
            let issue = activity.issues[i];
            exists|item: ActivityItem| #[trigger]
                activity_items(activity).contains(item) && item.kind == GitHubActivityKind::Issue
                && item.repository_name_with_owner == activity.repository_name_with_owner
                && item.title == issue.title && item.body == issue.body && item.author_login
                == Some(issue.user) && item.labels == issue.labels && item.url == issue.html_url
                && item.number == Some(issue.number) && item.state == Some(issue.state)
                && item.draft is None && item.updated_at == issue.updated_at
                && item.workflow_run_id is None && item.source_id == "github:"@
                + activity.repository_name_with_owner + ":issue:"@ + decimal(issue.number as nat)
        }),
{
    lemma_source_ids(activity.repository_name_with_owner, activity.issues[i].number);
    lemma_listing_orders();
    let before = |a: ActivityItem, b: ActivityItem| listed_before(a, b);
    let all = unsorted_items(activity);
    let item = all[0 + i];
    assert(all.contains(item));
    lemma_sorted_holds(all, before, item);
    assert(activity_items(activity).contains(item));
}

/// Every pull request is listed, with what it says of itself.
pub proof fn lemma_pull_request_is_listed(activity: RepositoryActivity, i: int)
    requires
        0 <= i < activity.pull_requests.len(),
    ensures
        ({
            let pull = activity.pull_requests[i];
            exists|item: ActivityItem| #[trigger]
                activity_items(activity).contains(item) && item.kind == GitHubActivityKind::PullRequest
                && item.repository_name_with_owner == activity.repository_name_with_owner
                && item.title == pull.title && item.body == pull.body && item.author_login
                == Some(pull.user) && item.labels == pull.labels && item.url == pull.html_url
                && item.number == Some(pull.number) && item.state == Some(pull.state)
                && item.draft == Some(pull.draft) && item.updated_at == pull.updated_at
                && item.workflow_run_id is None && item.source_id == "github:"@
                + activity.repository_name_with_owner + ":pull_request:"@ + decimal(pull.number as nat)
        }),
{
    lemma_source_ids(activity.repository_name_with_owner, activity.pull_requests[i].number);
    lemma_listing_orders();
    let before = |a: ActivityItem, b: ActivityItem| listed_before(a, b);
    let all = unsorted_items(activity);
    let item = all[activity.issues.len() + i];
    assert(all.contains(item));
    lemma_sorted_holds(all, before, item);
    assert(activity_items(activity).contains(item));
}

/// Every workflow run is listed, with what it says of itself.
pub proof fn lemma_workflow_run_is_listed(activity: RepositoryActivity, i: int)
    requires
        0 <= i < activity.workflow_runs.len(),
    ensures
        ({
            let run = activity.workflow_runs[i];
            exists|item: ActivityItem| #[trigger]
                activity_items(activity).contains(item) && item.kind == GitHubActivityKind::WorkflowRun
                && item.repository_name_with_owner == activity.repository_name_with_owner
                && (match run.name {
                Some(name) => item.title == if name.len() > 0 {
                    name
                } else {
                    "Workflow run"@
                },
                None => item.title == "Workflow run"@,
            }) && item.body is None && item.author_login == run.actor && item.labels.len() == 0
                && item.url == run.html_url && item.number is None && item.state is None
                && item.draft is None && item.updated_at == run.updated_at && item.workflow_run_id
                == Some(run.id) && item.workflow_status == run.status && item.workflow_conclusion
                == run.conclusion && item.workflow_event == Some(run.event)
                && item.workflow_head_branch == run.head_branch && item.workflow_head_sha
                == run.head_sha && item.source_id == "github:"@
                + activity.repository_name_with_owner + ":workflow_run:"@ + decimal(run.id as nat)
        }),
{
    lemma_source_ids(activity.repository_name_with_owner, activity.workflow_runs[i].id);
    lemma_listing_orders();
    let before = |a: ActivityItem, b: ActivityItem| listed_before(a, b);
    let all = unsorted_items(activity);
    let item = all[activity.issues.len() + activity.pull_requests.len() + i];
    assert(all.contains(item));
    lemma_sorted_holds(all, before, item);
    assert(activity_items(activity).contains(item));
}

/// What is listed is listed by the time of its update, the latest first and what has
/// none last, and by its id where the times are the same. There is one item for each
/// thing that happened.
pub proof fn lemma_listing(activity: RepositoryActivity, i: int, j: int)
    requires
        0 <= i < j < activity_items(activity).len(),
    ensures
        activity_items(activity).len() == activity.issues.len() + activity.pull_requests.len()
            + activity.workflow_runs.len(),
        ({
            let first = activity_items(activity)[i];
            let second = activity_items(activity)[j];
            match (first.updated_at, second.updated_at) {
                (Some(earlier), Some(later)) => !precedes(earlier, later) && (earlier == later
                    ==> !precedes(second.source_id, first.source_id)),
                (Some(_), None) => true,
                (None, Some(_)) => false,
                (None, None) => !precedes(second.source_id, first.source_id),
            }
        }),
{
    lemma_activity_items(activity);
    let before = |a: ActivityItem, b: ActivityItem| listed_before(a, b);
    assert(!before(activity_items(activity)[j], activity_items(activity)[i]));
}

} // verus!
