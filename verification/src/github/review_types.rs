//! What the GitHub API says about the review of a pull request, as plain values
//! with their models.
use super::types::GitHubUser;
use vstd::prelude::*;

verus! {

/// A commit of a pull request.
#[derive(Clone, Debug, PartialEq, Eq)]
pub struct GitHubPullRequestCommit {
    pub sha: String,
    pub html_url: String,
    pub commit: GitHubCommitDetail,
    pub author: Option<GitHubUser>,
}

/// What a commit itself says.
#[derive(Clone, Debug, PartialEq, Eq)]
pub struct GitHubCommitDetail {
    pub message: String,
    pub author: Option<GitHubCommitAuthor>,
}

/// Who a commit says that it is by, and when it was made.
#[derive(Clone, Debug, PartialEq, Eq)]
pub struct GitHubCommitAuthor {
    pub name: Option<String>,
    pub date: Option<String>,
}

/// What a `GitHubCommitAuthor` holds.
#[verifier::ext_equal]
pub struct CommitAuthor {
    pub name: Option<Seq<char>>,
    pub date: Option<Seq<char>>,
}

impl DeepView for GitHubCommitAuthor {
    type V = CommitAuthor;

    open spec fn deep_view(&self) -> CommitAuthor {
        CommitAuthor { name: self.name.deep_view(), date: self.date.deep_view() }
    }
}

/// What a `GitHubPullRequestCommit` holds.
#[verifier::ext_equal]
pub struct Commit {
    pub sha: Seq<char>,
    pub html_url: Seq<char>,
    pub message: Seq<char>,
    pub commit_author: Option<CommitAuthor>,
    pub author: Option<Seq<char>>,
}

impl DeepView for GitHubPullRequestCommit {
    type V = Commit;

    open spec fn deep_view(&self) -> Commit {
        Commit {
            sha: self.sha@,
            html_url: self.html_url@,
            message: self.commit.message@,
            commit_author: self.commit.author.deep_view(),
            author: self.author.deep_view(),
        }
    }
}

/// A comment on a pull request.
#[derive(Clone, Debug, PartialEq, Eq)]
pub struct GitHubIssueComment {
    pub user: GitHubUser,
    pub body: String,
    pub html_url: String,
    pub created_at: String,
}

/// What a `GitHubIssueComment` holds.
#[verifier::ext_equal]
pub struct IssueComment {
    pub user: Seq<char>,
    pub body: Seq<char>,
    pub html_url: Seq<char>,
    pub created_at: Seq<char>,
}

impl DeepView for GitHubIssueComment {
    type V = IssueComment;

    open spec fn deep_view(&self) -> IssueComment {
        IssueComment {
            user: self.user.deep_view(),
            body: self.body@,
            html_url: self.html_url@,
            created_at: self.created_at@,
        }
    }
}

/// A review of a pull request.
#[derive(Clone, Debug, PartialEq, Eq)]
pub struct GitHubPullRequestReview {
    pub id: u64,
    pub html_url: Option<String>,
    pub user: GitHubUser,
    pub state: String,
    pub body: Option<String>,
    pub submitted_at: Option<String>,
}

/// What a `GitHubPullRequestReview` holds.
#[verifier::ext_equal]
pub struct Review {
    pub id: u64,
    pub html_url: Option<Seq<char>>,
    pub user: Seq<char>,
    pub state: Seq<char>,
    pub body: Option<Seq<char>>,
    pub submitted_at: Option<Seq<char>>,
}

impl DeepView for GitHubPullRequestReview {
    type V = Review;

    open spec fn deep_view(&self) -> Review {
        Review {
            id: self.id,
            html_url: self.html_url.deep_view(),
            user: self.user.deep_view(),
            state: self.state@,
            body: self.body.deep_view(),
            submitted_at: self.submitted_at.deep_view(),
        }
    }
}

/// A comment on a line of a pull request.
#[derive(Clone, Debug, PartialEq, Eq)]
pub struct GitHubPullRequestReviewComment {
    pub user: GitHubUser,
    pub body: String,
    pub html_url: String,
    pub created_at: String,
    pub path: String,
    pub line: Option<u64>,
    pub original_line: Option<u64>,
}

/// What a `GitHubPullRequestReviewComment` holds.
#[verifier::ext_equal]
pub struct ReviewComment {
    pub user: Seq<char>,
    pub body: Seq<char>,
    pub html_url: Seq<char>,
    pub created_at: Seq<char>,
    pub path: Seq<char>,
    pub line: Option<u64>,
    pub original_line: Option<u64>,
}

impl DeepView for GitHubPullRequestReviewComment {
    type V = ReviewComment;

    open spec fn deep_view(&self) -> ReviewComment {
        ReviewComment {
            user: self.user.deep_view(),
            body: self.body@,
            html_url: self.html_url@,
            created_at: self.created_at@,
            path: self.path@,
            line: self.line,
            original_line: self.original_line,
        }
    }
}

/// A run of a check on a commit.
#[derive(Clone, Debug, PartialEq, Eq)]
pub struct GitHubCheckRun {
    pub id: u64,
    pub name: String,
    pub html_url: String,
    pub status: String,
    pub conclusion: Option<String>,
    pub started_at: Option<String>,
    pub completed_at: Option<String>,
}

/// What of a `GitHubCheckRun` is shown.
#[verifier::ext_equal]
pub struct CheckRun {
    pub name: Seq<char>,
    pub html_url: Seq<char>,
    pub status: Seq<char>,
    pub conclusion: Option<Seq<char>>,
}

impl DeepView for GitHubCheckRun {
    type V = CheckRun;

    open spec fn deep_view(&self) -> CheckRun {
        CheckRun {
            name: self.name@,
            html_url: self.html_url@,
            status: self.status@,
            conclusion: self.conclusion.deep_view(),
        }
    }
}

/// The statuses of a commit.
#[derive(Clone, Debug, PartialEq, Eq)]
pub struct GitHubCombinedStatus {
    pub state: String,
    pub total_count: u64,
    pub statuses: Vec<GitHubCommitStatus>,
}

/// What a `GitHubCombinedStatus` holds.
#[verifier::ext_equal]
pub struct CombinedStatus {
    pub state: Seq<char>,
    pub total_count: u64,
    pub statuses: Seq<CommitStatus>,
}

impl DeepView for GitHubCombinedStatus {
    type V = CombinedStatus;

    open spec fn deep_view(&self) -> CombinedStatus {
        CombinedStatus {
            state: self.state@,
            total_count: self.total_count,
            statuses: self.statuses.deep_view(),
        }
    }
}

/// One status of a commit.
#[derive(Clone, Debug, PartialEq, Eq)]
pub struct GitHubCommitStatus {
    pub context: String,
    pub state: String,
    pub description: Option<String>,
    pub target_url: Option<String>,
    pub updated_at: Option<String>,
}

/// What of a `GitHubCommitStatus` is shown.
#[verifier::ext_equal]
pub struct CommitStatus {
    pub context: Seq<char>,
    pub state: Seq<char>,
    pub description: Option<Seq<char>>,
    pub target_url: Option<Seq<char>>,
}

impl DeepView for GitHubCommitStatus {
    type V = CommitStatus;

    open spec fn deep_view(&self) -> CommitStatus {
        CommitStatus {
            context: self.context@,
            state: self.state@,
            description: self.description.deep_view(),
            target_url: self.target_url.deep_view(),
        }
    }
}

} // verus!
