//! What the cloud API and its clients say to each other.
use crate::outside::std_text::{quote, quoted_text};
use crate::text::{clone_texts, holds_text};
use std::collections::BTreeMap;
use std::sync::Arc;
use vstd::prelude::*;
use vstd::string::*;

verus! {

/// The header that carries the id of the system a request comes from.
pub const ZED_SYSTEM_ID_HEADER_NAME: &'static str = "x-zed-system-id";

/// How many settled edit predictions one request carries at most.
pub const MAX_EDIT_PREDICTION_SETTLED_PER_REQUEST: usize = 32;

/// The OAuth scopes that the GitHub integration needs.
pub const GITHUB_REQUIRED_OAUTH_SCOPES: &'static [&'static str; 2] = &["repo", "read:user"];

/// The signed-in user with their organizations and plans.
#[derive(Debug, PartialEq)]
pub struct GetAuthenticatedUserResponse<PlanInfo, Plan, Timestamp> {
    pub user: AuthenticatedUser<Timestamp>,
    pub feature_flags: Vec<String>,
    pub organizations: Vec<Organization>,
    pub default_organization_id: Option<OrganizationId>,
    pub plans_by_organization: BTreeMap<OrganizationId, Plan>,
    pub configuration_by_organization: BTreeMap<OrganizationId, OrganizationConfiguration>,
    pub plan: PlanInfo,
}

/// A signed-in user.
#[derive(Debug, PartialEq)]
pub struct AuthenticatedUser<Timestamp> {
    pub id: i32,
    pub metrics_id: String,
    pub avatar_url: String,
    pub github_login: String,
    pub name: Option<String>,
    pub is_staff: bool,
    pub accepted_tos_at: Option<Timestamp>,
    pub has_connected_to_collab_once: bool,
}

/// A GitHub account with the token that acts for it.
#[derive(Clone, PartialEq, Eq)]
pub struct GitHubConnectedAccount {
    pub login: String,
    pub scopes: Vec<String>,
    pub access_token: String,
}

/// What a `GitHubConnectedAccount` holds.
#[verifier::ext_equal]
pub struct ConnectedAccount {
    pub login: Seq<char>,
    pub scopes: Seq<Seq<char>>,
    pub access_token: Seq<char>,
}

impl DeepView for GitHubConnectedAccount {
    type V = ConnectedAccount;

    open spec fn deep_view(&self) -> ConnectedAccount {
        ConnectedAccount {
            login: self.login@,
            scopes: self.scopes.deep_view(),
            access_token: self.access_token@,
        }
    }
}

/// What may be shown of a connected account.
#[derive(Clone, Debug, PartialEq, Eq)]
pub struct GitHubIntegrationStatus {
    pub login: String,
    pub scopes: Vec<String>,
    pub missing_scopes: Vec<String>,
}

/// What a `GitHubIntegrationStatus` holds.
#[verifier::ext_equal]
pub struct IntegrationStatus {
    pub login: Seq<char>,
    pub scopes: Seq<Seq<char>>,
    pub missing_scopes: Seq<Seq<char>>,
}

impl DeepView for GitHubIntegrationStatus {
    type V = IntegrationStatus;

    open spec fn deep_view(&self) -> IntegrationStatus {
        IntegrationStatus {
            login: self.login@,
            scopes: self.scopes.deep_view(),
            missing_scopes: self.missing_scopes.deep_view(),
        }
    }
}

/// The scopes that the GitHub integration needs.
pub open spec fn required_scopes() -> Seq<Seq<char>> {
    seq!["repo"@, "read:user"@]
}

/// Those of the required scopes that `scopes` lacks, in their order.
pub open spec fn missing_scopes(scopes: Seq<Seq<char>>) -> Seq<Seq<char>> {
    required_scopes().filter(|scope: Seq<char>| !scopes.contains(scope))
}

/// What may be shown of `account`.
pub open spec fn account_status(account: ConnectedAccount) -> IntegrationStatus {
    IntegrationStatus {
        login: account.login,
        scopes: account.scopes,
        missing_scopes: missing_scopes(account.scopes),
    }
}

/// `items` with a comma and a space between them.
pub open spec fn comma_list(items: Seq<Seq<char>>) -> Seq<char>
    decreases items.len(),
{
    if items.len() == 0 {
        Seq::empty()
    } else if items.len() == 1 {
        items[0]
    } else {
        comma_list(items.drop_last()) + ", "@ + items.last()
    }
}

/// What is written of an account whose login and scopes are quoted as given. There is
/// no room for the token.
pub open spec fn account_text(login: Seq<char>, scopes: Seq<Seq<char>>) -> Seq<char> {
    "GitHubConnectedAccount { login: "@ + login + ", scopes: ["@ + comma_list(scopes)
        + "], access_token: \"<redacted>\" }"@
}

/// What is written of an account whose login and scopes are quoted as given.
pub fn write_account(login: &str, scopes: &Vec<String>) -> (result: String)
    ensures
        result@ == account_text(login@, scopes.deep_view()),
        result@ == "GitHubConnectedAccount { login: "@ + login@ + ", scopes: ["@ + comma_list(
            scopes.deep_view(),
        ) + "], access_token: \"<redacted>\" }"@,
{
    let mut list = String::new();
    let ghost models = scopes.deep_view();
    assert(models.take(0) == Seq::<Seq<char>>::empty());
    for i in 0..scopes.len()
        invariant
            models == scopes.deep_view(),
            list@ == comma_list(models.take(i as int)),
    {
        assert(models.take(i + 1).drop_last() == models.take(i as int));
        assert(models.take(i + 1).last() == scopes[i as int]@);
        if i > 0 {
            list.append(", ");
        }
        list.append(&scopes[i]);
    }
    assert(models.take(models.len() as int) == models);
    let mut result = "GitHubConnectedAccount { login: ".to_owned();
    result.append(login);
    result.append(", scopes: [");
    result.append(&list);
    result.append("], access_token: \"<redacted>\" }");
    result
}

/// What is written of `account` for debugging. The token stays out.
pub open spec fn account_debug_text(account: ConnectedAccount) -> Seq<char> {
    account_text(
        quoted_text(account.login),
        account.scopes.map_values(|scope: Seq<char>| quoted_text(scope)),
    )
}

impl GitHubConnectedAccount {
    /// The required OAuth scopes that were not granted.
    pub fn missing_required_scopes(&self) -> (result: Vec<&'static str>)
        ensures
            result.deep_view() == missing_scopes(self.deep_view().scopes),
            forall|scope: Seq<char>| #[trigger]
                result.deep_view().contains(scope) <==> (scope == "repo"@ || scope == "read:user"@)
                    && !self.scopes.deep_view().contains(scope),
    {
        let mut result: Vec<&'static str> = Vec::new();
        let ghost scopes = self.scopes.deep_view();
        let ghost keep = |scope: Seq<char>| !scopes.contains(scope);
        let ghost required = required_scopes();
        assert(GITHUB_REQUIRED_OAUTH_SCOPES@[0]@ == required[0]);
        assert(GITHUB_REQUIRED_OAUTH_SCOPES@[1]@ == required[1]);
        for i in 0..2
            invariant
                scopes == self.scopes.deep_view(),
                keep == (|scope: Seq<char>| !scopes.contains(scope)),
                required == required_scopes(),
                GITHUB_REQUIRED_OAUTH_SCOPES@[0]@ == required[0],
                GITHUB_REQUIRED_OAUTH_SCOPES@[1]@ == required[1],
                result.deep_view() == required.take(i as int).filter(keep),
        {
            let scope: &'static str = GITHUB_REQUIRED_OAUTH_SCOPES[i];
            assert(required.take(i + 1).drop_last() == required.take(i as int));
            reveal(Seq::filter);
            if !holds_text(&self.scopes, scope) {
                result.push(scope);
            }
        }
        assert(required.take(2) == required);
        proof {
            lemma_all_missing_scopes(scopes);
        }
        result
    }

    /// What may be shown of the account: everything but its token.
    pub fn to_status(&self) -> (result: GitHubIntegrationStatus)
        ensures
            result.deep_view() == account_status(self.deep_view()),
            result.login@ == self.login@,
            result.scopes.deep_view() == self.scopes.deep_view(),
            forall|scope: Seq<char>| #[trigger]
                result.missing_scopes.deep_view().contains(scope) <==> (scope == "repo"@ || scope
                    == "read:user"@) && !self.scopes.deep_view().contains(scope),
    {
        let missing = self.missing_required_scopes();
        let mut missing_scopes: Vec<String> = Vec::new();
        for i in 0..missing.len()
            invariant
                missing_scopes.deep_view() == missing.deep_view().take(i as int),
        {
            let ghost before = missing_scopes.deep_view();
            missing_scopes.push(missing[i].to_owned());
            assert(missing_scopes.deep_view() == before.push(missing.deep_view()[i as int]));
        }
        assert(missing.deep_view().take(missing.len() as int) == missing.deep_view());
        GitHubIntegrationStatus {
            login: self.login.clone(),
            scopes: clone_texts(&self.scopes),
            missing_scopes,
        }
    }

    /// What is written of the account for debugging, with its token redacted.
    pub fn debug_text(&self) -> (result: String)
        ensures
            result@ == account_debug_text(self.deep_view()),
            result@ == "GitHubConnectedAccount { login: "@ + quoted_text(self.login@)
                + ", scopes: ["@ + comma_list(
                self.scopes.deep_view().map_values(|scope: Seq<char>| quoted_text(scope)),
            ) + "], access_token: \"<redacted>\" }"@,
    {
        let ghost quoted = self.deep_view().scopes.map_values(
            |scope: Seq<char>| quoted_text(scope),
        );
        let mut scopes: Vec<String> = Vec::new();
        for i in 0..self.scopes.len()
            invariant
                quoted == self.deep_view().scopes.map_values(
                    |scope: Seq<char>| quoted_text(scope),
                ),
                scopes.deep_view() == quoted.take(i as int),
        {
            let ghost before = scopes.deep_view();
            assert(self.deep_view().scopes[i as int] == self.scopes[i as int]@);
            scopes.push(quote(&self.scopes[i]));
            assert(scopes.deep_view() == before.push(quoted[i as int]));
        }
        assert(quoted.take(quoted.len() as int) == quoted);
        write_account(&quote(&self.login), &scopes)
    }
}

/// Two accounts that differ in nothing but their tokens are written alike and
/// have the same status.
pub proof fn lemma_token_is_never_shown(account: ConnectedAccount, access_token: Seq<char>)
    ensures
        account_debug_text(ConnectedAccount { access_token, ..account }) == account_debug_text(
            account,
        ),
        account_status(ConnectedAccount { access_token, ..account }) == account_status(account),
{
}

/// A scope is missing exactly if it is required and was not granted.
pub proof fn lemma_missing_scopes(scopes: Seq<Seq<char>>, scope: Seq<char>)
    ensures
        missing_scopes(scopes).contains(scope) <==> required_scopes().contains(scope)
            && !scopes.contains(scope),
{
    broadcast use vstd::seq_lib::group_filter_ensures;

    let keep = |s: Seq<char>| !scopes.contains(s);
    let missing = required_scopes().filter(keep);
    if required_scopes().contains(scope) && keep(scope) {
        assert(missing.contains(scope));
    }
    if missing.contains(scope) {
        let i = choose|i: int| 0 <= i < missing.len() && missing[i] == scope;
        assert(keep(missing[i]));
        required_scopes().lemma_filter_contains_rev(keep, scope);
    }
}

/// The scopes that are missing are those of the two required ones that were not
/// granted, and they are missing in this order.
pub proof fn lemma_all_missing_scopes(scopes: Seq<Seq<char>>)
    ensures
        forall|scope: Seq<char>| #[trigger]
            missing_scopes(scopes).contains(scope) <==> (scope == "repo"@ || scope
                == "read:user"@) && !scopes.contains(scope),
        !scopes.contains("repo"@) ==> missing_scopes(scopes)[0] == "repo"@,
        missing_scopes(scopes).len() <= 2,
{
    let required = required_scopes();
    assert(required[0] == "repo"@);
    assert(required[1] == "read:user"@);
    assert forall|scope: Seq<char>| #[trigger]
        missing_scopes(scopes).contains(scope) <==> (scope == "repo"@ || scope == "read:user"@)
            && !scopes.contains(scope) by {
        lemma_missing_scopes(scopes, scope);
        if required.contains(scope) {
            let i = choose|i: int| 0 <= i < required.len() && required[i] == scope;
            assert(i == 0 || i == 1);
        }
    }
    let keep = |scope: Seq<char>| !scopes.contains(scope);
    required.lemma_filter_len(keep);
    reveal(Seq::filter);
    reveal_with_fuel(Seq::filter, 3);
    let first = required.drop_last();
    assert(first.drop_last() == Seq::<Seq<char>>::empty());
    assert(first.last() == "repo"@);
}

/// What one repository's activity is synced with.
#[derive(Clone, Debug, PartialEq, Eq)]
pub struct GitHubActivitySyncBatch {
    pub repository_name_with_owner: String,
    pub items: Vec<GitHubActivityItem>,
}

/// What a `GitHubActivitySyncBatch` holds.
#[verifier::ext_equal]
pub struct SyncBatch {
    pub repository_name_with_owner: Seq<char>,
    pub items: Seq<ActivityItem>,
}

impl DeepView for GitHubActivitySyncBatch {
    type V = SyncBatch;

    open spec fn deep_view(&self) -> SyncBatch {
        SyncBatch {
            repository_name_with_owner: self.repository_name_with_owner@,
            items: self.items.deep_view(),
        }
    }
}

/// An issue, a pull request or a workflow run of a repository.
#[derive(Clone, Debug, PartialEq, Eq)]
pub struct GitHubActivityItem {
    pub kind: GitHubActivityKind,
    pub source_id: String,
    pub repository_name_with_owner: String,
    pub title: String,
    pub body: Option<String>,
    pub author_login: Option<String>,
    pub labels: Vec<String>,
    pub url: String,
    pub number: Option<u64>,
    pub state: Option<String>,
    pub draft: Option<bool>,
    pub updated_at: Option<String>,
    pub workflow_run_id: Option<u64>,
    pub workflow_status: Option<String>,
    pub workflow_conclusion: Option<String>,
    pub workflow_event: Option<String>,
    pub workflow_head_branch: Option<String>,
    pub workflow_head_sha: Option<String>,
}

/// What a `GitHubActivityItem` holds.
#[verifier::ext_equal]
pub struct ActivityItem {
    pub kind: GitHubActivityKind,
    pub source_id: Seq<char>,
    pub repository_name_with_owner: Seq<char>,
    pub title: Seq<char>,
    pub body: Option<Seq<char>>,
    pub author_login: Option<Seq<char>>,
    pub labels: Seq<Seq<char>>,
    pub url: Seq<char>,
    pub number: Option<u64>,
    pub state: Option<Seq<char>>,
    pub draft: Option<bool>,
    pub updated_at: Option<Seq<char>>,
    pub workflow_run_id: Option<u64>,
    pub workflow_status: Option<Seq<char>>,
    pub workflow_conclusion: Option<Seq<char>>,
    pub workflow_event: Option<Seq<char>>,
    pub workflow_head_branch: Option<Seq<char>>,
    pub workflow_head_sha: Option<Seq<char>>,
}

impl DeepView for GitHubActivityItem {
    type V = ActivityItem;

    open spec fn deep_view(&self) -> ActivityItem {
        ActivityItem {
            kind: self.kind,
            source_id: self.source_id@,
            repository_name_with_owner: self.repository_name_with_owner@,
            title: self.title@,
            body: self.body.deep_view(),
            author_login: self.author_login.deep_view(),
            labels: self.labels.deep_view(),
            url: self.url@,
            number: self.number,
            state: self.state.deep_view(),
            draft: self.draft,
            updated_at: self.updated_at.deep_view(),
            workflow_run_id: self.workflow_run_id,
            workflow_status: self.workflow_status.deep_view(),
            workflow_conclusion: self.workflow_conclusion.deep_view(),
            workflow_event: self.workflow_event.deep_view(),
            workflow_head_branch: self.workflow_head_branch.deep_view(),
            workflow_head_sha: self.workflow_head_sha.deep_view(),
        }
    }
}

/// What kind of thing an activity item is.
#[derive(Clone, Copy, Debug, PartialEq, Eq, Structural)]
pub enum GitHubActivityKind {
    Issue,
    PullRequest,
    WorkflowRun,
}

/// The id of an organization.
#[derive(Debug, PartialEq, Eq, PartialOrd, Ord, Hash, Clone)]
pub struct OrganizationId(pub Arc<str>);

/// An organization.
#[derive(Debug, PartialEq)]
pub struct Organization {
    pub id: OrganizationId,
    pub name: Arc<str>,
    pub is_personal: bool,
}

/// What an organization allows.
#[derive(Debug, PartialEq)]
pub struct OrganizationConfiguration {
    pub is_zed_model_provider_enabled: bool,
    pub is_agent_thread_feedback_enabled: bool,
    pub is_collaboration_enabled: bool,
    pub edit_prediction: OrganizationEditPredictionConfiguration,
}

/// What an organization allows of edit prediction.
#[derive(Debug, PartialEq)]
pub struct OrganizationEditPredictionConfiguration {
    pub is_enabled: bool,
    pub is_feedback_enabled: bool,
}

/// The answer to accepting the terms of service.
#[derive(Debug, PartialEq)]
pub struct AcceptTermsOfServiceResponse<Timestamp> {
    pub user: AuthenticatedUser<Timestamp>,
}

/// A token for the language model service.
#[derive(Debug, PartialEq, Clone)]
pub struct LlmToken(pub String);

/// The request for a language model token.
#[derive(Debug, PartialEq, Clone)]
pub struct CreateLlmTokenBody {
    pub organization_id: OrganizationId,
}

/// The answer to a request for a language model token.
#[derive(Debug, PartialEq, Clone)]
pub struct CreateLlmTokenResponse {
    pub token: LlmToken,
}

/// A change of the settings of a system.
#[derive(Debug, Default, PartialEq, Clone)]
pub struct UpdateSystemSettingsBody {
    pub selected_organization_id: Option<OrganizationId>,
}

/// The settings of a system.
#[derive(Debug, Default, PartialEq, Clone)]
pub struct SystemSettings {
    pub selected_organization_id: Option<OrganizationId>,
}

/// The empty answer to a batch of settled edit predictions.
#[derive(Debug, PartialEq)]
pub struct SubmitEditPredictionSettledResponse {}

/// A file that was edited lately, and where the cursor stood in it.
#[derive(Debug, PartialEq)]
pub struct EditPredictionRecentFile {
    pub path: String,
    pub cursor_position: Option<usize>,
}

/// A list is written with a comma and a space between each item and the next, and
/// nothing else.
pub proof fn lemma_comma_list(items: Seq<Seq<char>>, item: Seq<char>)
    ensures
        comma_list(Seq::empty()) == Seq::<char>::empty(),
        comma_list(seq![item]) == item,
        items.len() > 0 ==> comma_list(items.push(item)) == comma_list(items) + ", "@ + item,
{
    assert(items.push(item).drop_last() == items);
}

} // verus!
