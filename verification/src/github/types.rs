//! What the GitHub API says, as plain values with their models.
use vstd::prelude::*;

verus! {

/// A release of a language server, ready to be downloaded.
pub struct GitHubLspBinaryVersion {
    pub name: String,
    pub url: String,
    pub digest: Option<String>,
}

/// The codes that start an authorization of a device.
#[derive(Clone, Debug, PartialEq, Eq)]
pub struct GitHubDeviceCode {
    pub device_code: String,
    pub user_code: String,
    pub verification_uri: String,
    pub verification_uri_complete: Option<String>,
    pub expires_in: u64,
    pub interval: u64,
}

/// The token that an authorization of a device ends with.
#[derive(Clone, Debug, PartialEq, Eq)]
pub struct GitHubDeviceAccessToken {
    pub access_token: String,
    pub token_type: String,
    pub scope: String,
}

/// What a `GitHubDeviceAccessToken` holds.
#[verifier::ext_equal]
pub struct DeviceAccessToken {
    pub access_token: Seq<char>,
    pub token_type: Seq<char>,
    pub scope: Seq<char>,
}

impl DeepView for GitHubDeviceAccessToken {
    type V = DeviceAccessToken;

    open spec fn deep_view(&self) -> DeviceAccessToken {
        DeviceAccessToken {
            access_token: self.access_token@,
            token_type: self.token_type@,
            scope: self.scope@,
        }
    }
}

/// How far the authorization of a device has come.
#[derive(Clone, Debug, PartialEq, Eq)]
pub enum GitHubDeviceAccessTokenPoll {
    Pending,
    SlowDown,
    Complete(GitHubDeviceAccessToken),
}

/// What a `GitHubDeviceAccessTokenPoll` holds.
pub enum DeviceAccessTokenPoll {
    Pending,
    SlowDown,
    Complete(DeviceAccessToken),
}

impl DeepView for GitHubDeviceAccessTokenPoll {
    type V = DeviceAccessTokenPoll;

    open spec fn deep_view(&self) -> DeviceAccessTokenPoll {
        match self {
            GitHubDeviceAccessTokenPoll::Pending => DeviceAccessTokenPoll::Pending,
            GitHubDeviceAccessTokenPoll::SlowDown => DeviceAccessTokenPoll::SlowDown,
            GitHubDeviceAccessTokenPoll::Complete(token) => DeviceAccessTokenPoll::Complete(
                token.deep_view(),
            ),
        }
    }
}

/// What GitHub answers to a poll for a device's token.
#[derive(Clone, Debug, PartialEq, Eq)]
pub struct GitHubDeviceAccessTokenResponse {
    pub access_token: Option<String>,
    pub token_type: Option<String>,
    pub scope: Option<String>,
    pub error: Option<String>,
    pub error_description: Option<String>,
}

/// What a `GitHubDeviceAccessTokenResponse` holds.
#[verifier::ext_equal]
pub struct DeviceAccessTokenResponse {
    pub access_token: Option<Seq<char>>,
    pub token_type: Option<Seq<char>>,
    pub scope: Option<Seq<char>>,
    pub error: Option<Seq<char>>,
    pub error_description: Option<Seq<char>>,
}

impl DeepView for GitHubDeviceAccessTokenResponse {
    type V = DeviceAccessTokenResponse;

    open spec fn deep_view(&self) -> DeviceAccessTokenResponse {
        DeviceAccessTokenResponse {
            access_token: self.access_token.deep_view(),
            token_type: self.token_type.deep_view(),
            scope: self.scope.deep_view(),
            error: self.error.deep_view(),
            error_description: self.error_description.deep_view(),
        }
    }
}

/// The user that a token belongs to.
#[derive(Clone, Debug, PartialEq, Eq)]
pub struct GitHubViewer {
    pub login: String,
}

/// One end of a pull request.
#[derive(Clone, Debug, PartialEq, Eq)]
pub struct GitHubPullRequestBranch {
    pub ref_name: String,
    pub sha: String,
    pub repo: Option<GitHubRepositoryRef>,
}

/// What a `GitHubPullRequestBranch` holds.
#[verifier::ext_equal]
pub struct PullRequestBranch {
    pub ref_name: Seq<char>,
    pub sha: Seq<char>,
    pub repo: Option<RepositoryRef>,
}

impl DeepView for GitHubPullRequestBranch {
    type V = PullRequestBranch;

    open spec fn deep_view(&self) -> PullRequestBranch {
        PullRequestBranch {
            ref_name: self.ref_name@,
            sha: self.sha@,
            repo: self.repo.deep_view(),
        }
    }
}

/// A repository, and where it is cloned from.
#[derive(Clone, Debug, PartialEq, Eq)]
pub struct GitHubRepositoryRef {
    pub full_name: String,
    pub clone_url: Option<String>,
    pub ssh_url: Option<String>,
}

/// What a `GitHubRepositoryRef` holds.
#[verifier::ext_equal]
pub struct RepositoryRef {
    pub full_name: Seq<char>,
    pub clone_url: Option<Seq<char>>,
    pub ssh_url: Option<Seq<char>>,
}

impl DeepView for GitHubRepositoryRef {
    type V = RepositoryRef;

    open spec fn deep_view(&self) -> RepositoryRef {
        RepositoryRef {
            full_name: self.full_name@,
            clone_url: self.clone_url.deep_view(),
            ssh_url: self.ssh_url.deep_view(),
        }
    }
}

/// A release.
#[derive(Debug)]
pub struct GithubRelease {
    pub tag_name: String,
    pub pre_release: bool,
    pub assets: Vec<GithubReleaseAsset>,
    pub tarball_url: String,
    pub zipball_url: String,
}

/// What a `GithubRelease` holds.
#[verifier::ext_equal]
pub struct Release {
    pub tag_name: Seq<char>,
    pub pre_release: bool,
    pub assets: Seq<ReleaseAsset>,
    pub tarball_url: Seq<char>,
    pub zipball_url: Seq<char>,
}

impl DeepView for GithubRelease {
    type V = Release;

    open spec fn deep_view(&self) -> Release {
        Release {
            tag_name: self.tag_name@,
            pre_release: self.pre_release,
            assets: self.assets.deep_view(),
            tarball_url: self.tarball_url@,
            zipball_url: self.zipball_url@,
        }
    }
}

/// A file of a release.
#[derive(Debug)]
pub struct GithubReleaseAsset {
    pub name: String,
    pub browser_download_url: String,
    pub digest: Option<String>,
}

/// What a `GithubReleaseAsset` holds.
#[verifier::ext_equal]
pub struct ReleaseAsset {
    pub name: Seq<char>,
    pub browser_download_url: Seq<char>,
    pub digest: Option<Seq<char>>,
}

impl DeepView for GithubReleaseAsset {
    type V = ReleaseAsset;

    open spec fn deep_view(&self) -> ReleaseAsset {
        ReleaseAsset {
            name: self.name@,
            browser_download_url: self.browser_download_url@,
            digest: self.digest.deep_view(),
        }
    }
}

/// How an archive of a tag is packed.
#[derive(Debug, PartialEq, Eq, Clone, Copy, Structural)]
pub enum AssetKind {
    TarGz,
    TarBz2,
    Gz,
    Zip,
}

/// What happened in a repository of late.
#[derive(Clone, Debug, PartialEq, Eq)]
pub struct GitHubRepositoryActivity {
    pub repository_name_with_owner: String,
    pub issues: Vec<GitHubIssue>,
    pub pull_requests: Vec<GitHubPullRequest>,
    pub workflow_runs: Vec<GitHubWorkflowRun>,
}

impl Default for GitHubRepositoryActivity {
    fn default() -> (result: Self)
        ensures
            result.deep_view() == (RepositoryActivity {
                repository_name_with_owner: Seq::empty(),
                issues: Seq::empty(),
                pull_requests: Seq::empty(),
                workflow_runs: Seq::empty(),
            }),
    {
        GitHubRepositoryActivity {
            repository_name_with_owner: String::new(),
            issues: Vec::new(),
            pull_requests: Vec::new(),
            workflow_runs: Vec::new(),
        }
    }
}

/// What a `GitHubRepositoryActivity` holds.
#[verifier::ext_equal]
pub struct RepositoryActivity {
    pub repository_name_with_owner: Seq<char>,
    pub issues: Seq<Issue>,
    pub pull_requests: Seq<PullRequest>,
    pub workflow_runs: Seq<WorkflowRun>,
}

impl DeepView for GitHubRepositoryActivity {
    type V = RepositoryActivity;

    open spec fn deep_view(&self) -> RepositoryActivity {
        RepositoryActivity {
            repository_name_with_owner: self.repository_name_with_owner@,
            issues: self.issues.deep_view(),
            pull_requests: self.pull_requests.deep_view(),
            workflow_runs: self.workflow_runs.deep_view(),
        }
    }
}

/// An issue.
#[derive(Clone, Debug, PartialEq, Eq)]
pub struct GitHubIssue {
    pub number: u64,
    pub title: String,
    pub html_url: String,
    pub state: String,
    pub user: GitHubUser,
    pub updated_at: Option<String>,
    pub labels: Vec<GitHubLabel>,
    pub body: Option<String>,
}

/// What a `GitHubIssue` holds.
#[verifier::ext_equal]
pub struct Issue {
    pub number: u64,
    pub title: Seq<char>,
    pub html_url: Seq<char>,
    pub state: Seq<char>,
    pub user: Seq<char>,
    pub updated_at: Option<Seq<char>>,
    pub labels: Seq<Seq<char>>,
    pub body: Option<Seq<char>>,
}

impl DeepView for GitHubIssue {
    type V = Issue;

    open spec fn deep_view(&self) -> Issue {
        Issue {
            number: self.number,
            title: self.title@,
            html_url: self.html_url@,
            state: self.state@,
            user: self.user.deep_view(),
            updated_at: self.updated_at.deep_view(),
            labels: self.labels.deep_view(),
            body: self.body.deep_view(),
        }
    }
}

/// An entry of a repository's list of issues, which holds pull requests too.
#[derive(Clone, Debug, PartialEq, Eq)]
pub struct GitHubIssueItem {
    pub issue: GitHubIssue,
    pub is_pull_request: bool,
}

/// What a `GitHubIssueItem` holds.
#[verifier::ext_equal]
pub struct IssueItem {
    pub issue: Issue,
    pub is_pull_request: bool,
}

impl DeepView for GitHubIssueItem {
    type V = IssueItem;

    open spec fn deep_view(&self) -> IssueItem {
        IssueItem { issue: self.issue.deep_view(), is_pull_request: self.is_pull_request }
    }
}

/// A pull request.
#[derive(Clone, Debug, PartialEq, Eq)]
pub struct GitHubPullRequest {
    pub number: u64,
    pub title: String,
    pub html_url: String,
    pub state: String,
    pub user: GitHubUser,
    pub base: GitHubPullRequestBranch,
    pub head: GitHubPullRequestBranch,
    pub draft: bool,
    pub updated_at: Option<String>,
    pub created_at: Option<String>,
    pub labels: Vec<GitHubLabel>,
    pub body: Option<String>,
    pub requested_reviewers: Vec<GitHubUser>,
    pub comments: u32,
    pub review_comments: u32,
    pub commits: Option<u32>,
    pub changed_files: Option<u32>,
    pub additions: Option<u32>,
    pub deletions: Option<u32>,
}

/// What a `GitHubPullRequest` holds.
#[verifier::ext_equal]
pub struct PullRequest {
    pub number: u64,
    pub title: Seq<char>,
    pub html_url: Seq<char>,
    pub state: Seq<char>,
    pub user: Seq<char>,
    pub base: PullRequestBranch,
    pub head: PullRequestBranch,
    pub draft: bool,
    pub updated_at: Option<Seq<char>>,
    pub created_at: Option<Seq<char>>,
    pub labels: Seq<Seq<char>>,
    pub body: Option<Seq<char>>,
    pub requested_reviewers: Seq<Seq<char>>,
    pub comments: u32,
    pub review_comments: u32,
    pub commits: Option<u32>,
    pub changed_files: Option<u32>,
    pub additions: Option<u32>,
    pub deletions: Option<u32>,
}

impl DeepView for GitHubPullRequest {
    type V = PullRequest;

    open spec fn deep_view(&self) -> PullRequest {
        PullRequest {
            number: self.number,
            title: self.title@,
            html_url: self.html_url@,
            state: self.state@,
            user: self.user.deep_view(),
            base: self.base.deep_view(),
            head: self.head.deep_view(),
            draft: self.draft,
            updated_at: self.updated_at.deep_view(),
            created_at: self.created_at.deep_view(),
            labels: self.labels.deep_view(),
            body: self.body.deep_view(),
            requested_reviewers: self.requested_reviewers.deep_view(),
            comments: self.comments,
            review_comments: self.review_comments,
            commits: self.commits,
            changed_files: self.changed_files,
            additions: self.additions,
            deletions: self.deletions,
        }
    }
}

/// A file that a pull request changes.
#[derive(Clone, Debug, PartialEq, Eq)]
pub struct GitHubPullRequestFile {
    pub filename: String,
    pub status: String,
    pub previous_filename: Option<String>,
    pub additions: u32,
    pub deletions: u32,
    pub changes: u32,
    pub patch: Option<String>,
}

/// What a `GitHubPullRequestFile` holds.
#[verifier::ext_equal]
pub struct PullRequestFile {
    pub filename: Seq<char>,
    pub status: Seq<char>,
    pub previous_filename: Option<Seq<char>>,
    pub additions: u32,
    pub deletions: u32,
    pub changes: u32,
    pub patch: Option<Seq<char>>,
}

impl DeepView for GitHubPullRequestFile {
    type V = PullRequestFile;

    open spec fn deep_view(&self) -> PullRequestFile {
        PullRequestFile {
            filename: self.filename@,
            status: self.status@,
            previous_filename: self.previous_filename.deep_view(),
            additions: self.additions,
            deletions: self.deletions,
            changes: self.changes,
            patch: self.patch.deep_view(),
        }
    }
}

/// A run of a workflow.
#[derive(Clone, Debug, PartialEq, Eq)]
pub struct GitHubWorkflowRun {
    pub id: u64,
    pub name: Option<String>,
    pub html_url: String,
    pub status: Option<String>,
    pub conclusion: Option<String>,
    pub head_branch: Option<String>,
    pub head_sha: Option<String>,
    pub actor: Option<GitHubUser>,
    pub updated_at: Option<String>,
    pub event: String,
}

/// What a `GitHubWorkflowRun` holds.
#[verifier::ext_equal]
pub struct WorkflowRun {
    pub id: u64,
    pub name: Option<Seq<char>>,
    pub html_url: Seq<char>,
    pub status: Option<Seq<char>>,
    pub conclusion: Option<Seq<char>>,
    pub head_branch: Option<Seq<char>>,
    pub head_sha: Option<Seq<char>>,
    pub actor: Option<Seq<char>>,
    pub updated_at: Option<Seq<char>>,
    pub event: Seq<char>,
}

impl DeepView for GitHubWorkflowRun {
    type V = WorkflowRun;

    open spec fn deep_view(&self) -> WorkflowRun {
        WorkflowRun {
            id: self.id,
            name: self.name.deep_view(),
            html_url: self.html_url@,
            status: self.status.deep_view(),
            conclusion: self.conclusion.deep_view(),
            head_branch: self.head_branch.deep_view(),
            head_sha: self.head_sha.deep_view(),
            actor: self.actor.deep_view(),
            updated_at: self.updated_at.deep_view(),
            event: self.event@,
        }
    }
}

/// A label, which is modelled by its name.
#[derive(Clone, Debug, PartialEq, Eq)]
pub struct GitHubLabel {
    pub name: String,
}

impl DeepView for GitHubLabel {
    type V = Seq<char>;

    open spec fn deep_view(&self) -> Seq<char> {
        self.name@
    }
}

/// A user, who is modelled by their login.
#[derive(Clone, Debug, PartialEq, Eq)]
pub struct GitHubUser {
    pub login: String,
}

impl DeepView for GitHubUser {
    type V = Seq<char>;

    open spec fn deep_view(&self) -> Seq<char> {
        self.login@
    }
}

} // verus!
