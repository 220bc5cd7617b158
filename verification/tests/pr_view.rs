use github_activity::github::review_types::{
    GitHubCheckRun, GitHubCombinedStatus, GitHubCommitAuthor, GitHubCommitDetail,
    GitHubCommitStatus, GitHubIssueComment, GitHubPullRequestCommit, GitHubPullRequestReview,
    GitHubPullRequestReviewComment,
};
use github_activity::github::types::{
    GitHubLabel, GitHubPullRequest, GitHubPullRequestBranch, GitHubRepositoryRef, GitHubUser,
};
use github_activity::pr_page::{
    check_state_label, github_pull_request_state_color, render_checks_section, render_diff_boxes,
    render_review_section, render_sidebar, render_user_section, Color, DiffBox, IconName,
    PageWords, ReviewDetailSection, ReviewVerdict,
};
use github_activity::pr_view::{
    build_review_detail, check_run_state, checks_overall_state, combined_status_state,
    github_format_timestamp, github_pr_checks_summary, github_pr_commit_timeline_item,
    github_pr_review_comment_timeline_item, github_pr_review_state_label,
    github_pr_review_summary, github_pr_review_timeline_item, github_pull_request_body_text,
    github_pull_request_diff_boxes, github_pull_request_row_meta,
    github_pull_request_state_label, load_github_pull_request_review_detail, CheckoutAction, CheckoutOperation, CheckoutStage,
    GitHubPullRequestCheckItem, GitHubPullRequestCheckState, GitHubPullRequestReviewDetailLoad,
    GitHubPullRequestReviewDetailState, GitHubPullRequestView, ReviewDetailPart, ReviewSubject,
    Timestamp,
};

fn user(login: &str) -> GitHubUser {
    GitHubUser {
        login: login.to_string(),
    }
}

fn pull_request() -> GitHubPullRequest {
    let branch = |ref_name: &str, sha: &str| GitHubPullRequestBranch {
        ref_name: ref_name.to_string(),
        sha: sha.to_string(),
        repo: Some(GitHubRepositoryRef {
            full_name: "owner/repo".to_string(),
            clone_url: None,
            ssh_url: None,
        }),
    };
    GitHubPullRequest {
        number: 42,
        title: "Improve GitHub PR UI".to_string(),
        html_url: "https://github.com/owner/repo/pull/42".to_string(),
        state: "open".to_string(),
        user: user("octo"),
        base: branch("main", "base-sha"),
        head: branch("feature/pr-ui", "head-sha"),
        draft: false,
        updated_at: None,
        created_at: None,
        labels: Vec::new(),
        body: None,
        requested_reviewers: Vec::new(),
        comments: 3,
        review_comments: 2,
        commits: Some(4),
        changed_files: Some(5),
        additions: Some(12),
        deletions: Some(4),
    }
}

fn rounded_share(additions: u32, deletions: u32) -> usize {
    ((additions as f32 / (additions + deletions) as f32) * 5.0).round() as usize
}

fn review(state: &str) -> GitHubPullRequestReview {
    GitHubPullRequestReview {
        id: 1,
        html_url: None,
        user: user("hubot"),
        state: state.to_string(),
        body: None,
        submitted_at: None,
    }
}

fn check_run(name: &str, status: &str, conclusion: Option<&str>) -> GitHubCheckRun {
    GitHubCheckRun {
        id: 1,
        name: name.to_string(),
        html_url: format!("https://github.com/owner/repo/actions/runs/{name}"),
        status: status.to_string(),
        conclusion: conclusion.map(ToString::to_string),
        started_at: None,
        completed_at: None,
    }
}

fn status(state: &str, statuses: Vec<GitHubCommitStatus>) -> GitHubCombinedStatus {
    GitHubCombinedStatus {
        state: state.to_string(),
        total_count: 1,
        statuses,
    }
}

fn words() -> PageWords {
    PageWords {
        nobody_asked: "Nobody was asked".to_string(),
        asked_heading: "Asked People".to_string(),
    }
}

fn nothing_loaded() -> GitHubPullRequestReviewDetailLoad {
    GitHubPullRequestReviewDetailLoad {
        commits: Ok(Vec::new()),
        issue_comments: Ok(Vec::new()),
        reviews: Ok(Vec::new()),
        review_comments: Ok(Vec::new()),
        check_runs: Ok(Vec::new()),
        combined_status: Err("gone".to_string()),
    }
}

fn commit(date: Option<&str>) -> GitHubPullRequestCommit {
    GitHubPullRequestCommit {
        sha: "0123456789abcdef".to_string(),
        html_url: "https://github.com/c".to_string(),
        commit: GitHubCommitDetail {
            message: "Fix it\n\nWell.".to_string(),
            author: Some(GitHubCommitAuthor {
                name: Some("Octo Cat".to_string()),
                date: date.map(ToString::to_string),
            }),
        },
        author: None,
    }
}

#[test]
fn test_github_pull_request_row_meta_is_compact() {
    let pull = pull_request();
    let row = github_pull_request_row_meta("owner/repo", &pull, None);

    assert_eq!(row.title, "Improve GitHub PR UI");
    assert_eq!(row.metadata, "owner/repo #42 · @octo · unknown");
}

#[test]
fn test_github_pull_request_state_label_prefers_draft() {
    let mut pull = pull_request();
    assert_eq!(github_pull_request_state_label(&pull), "Open");

    pull.draft = true;
    assert_eq!(github_pull_request_state_label(&pull), "Draft");

    pull.draft = false;
    pull.state = "closed".to_string();
    assert_eq!(github_pull_request_state_label(&pull), "Closed");
}

#[test]
fn test_github_pull_request_diff_boxes_splits_additions_and_deletions() {
    assert_eq!(github_pull_request_diff_boxes(0, 0, rounded_share(0, 0)), (0, 0));
    assert_eq!(github_pull_request_diff_boxes(12, 4, rounded_share(12, 4)), (4, 1));
    assert_eq!(github_pull_request_diff_boxes(0, 7, rounded_share(0, 7)), (0, 5));
}

#[test]
fn test_github_pull_request_review_summary_counts_states() {
    let reviews = vec![
        review("APPROVED"),
        review("CHANGES_REQUESTED"),
        review("COMMENTED"),
        review("DISMISSED"),
    ];

    let summary = github_pr_review_summary(&reviews, 2);

    assert_eq!(summary.approved, 1);
    assert_eq!(summary.changes_requested, 1);
    assert_eq!(summary.commented, 1);
    assert_eq!(summary.pending_reviewers, 2);
}

#[test]
fn test_github_pull_request_checks_summary_prefers_failures() {
    let summary = github_pr_checks_summary(
        vec![
            check_run("unit", "completed", Some("success")),
            check_run("lint", "completed", Some("failure")),
        ],
        Some(status(
            "success",
            vec![GitHubCommitStatus {
                context: "legacy-ci".to_string(),
                state: "success".to_string(),
                description: Some("passed".to_string()),
                target_url: None,
                updated_at: None,
            }],
        )),
    );

    assert_eq!(summary.overall, GitHubPullRequestCheckState::Failed);
    assert_eq!(summary.items.len(), 3);
}

#[test]
fn test_github_pull_request_checks_summary_handles_missing_checks() {
    let summary = github_pr_checks_summary(Vec::new(), None);

    assert_eq!(summary.overall, GitHubPullRequestCheckState::Missing);
    assert!(summary.items.is_empty());
}

#[test]
fn timestamps_are_read_with_their_offset() {
    assert_eq!(
        github_format_timestamp("1970-01-01T01:00:00.5+01:00"),
        Some(Timestamp {
            unix_nanoseconds: 500_000_000,
            offset_seconds: 3600,
        })
    );
    assert_eq!(github_format_timestamp("yesterday"), None);
}

#[test]
fn bodies_that_say_nothing_are_replaced() {
    let mut pull = pull_request();
    assert_eq!(github_pull_request_body_text(&pull), "No description provided.");
    pull.body = Some(" \n\t".to_string());
    assert_eq!(github_pull_request_body_text(&pull), "No description provided.");
    pull.body = Some(" text ".to_string());
    assert_eq!(github_pull_request_body_text(&pull), " text ");
}

#[test]
fn states_of_checks_are_read() {
    let state = |status, conclusion| check_run_state(&check_run("x", status, conclusion));
    assert_eq!(state("queued", Some("success")), GitHubPullRequestCheckState::Pending);
    assert_eq!(state("completed", None), GitHubPullRequestCheckState::Pending);
    assert_eq!(state("completed", Some("neutral")), GitHubPullRequestCheckState::Passed);
    assert_eq!(state("completed", Some("skipped")), GitHubPullRequestCheckState::Skipped);
    assert_eq!(state("completed", Some("timed_out")), GitHubPullRequestCheckState::Failed);
    assert_eq!(state("completed", Some("stale")), GitHubPullRequestCheckState::Pending);
    assert_eq!(combined_status_state("error"), GitHubPullRequestCheckState::Failed);
    assert_eq!(combined_status_state("pending"), GitHubPullRequestCheckState::Pending);
    assert_eq!(combined_status_state("odd"), GitHubPullRequestCheckState::Missing);
}

#[test]
fn a_failure_prevails_and_all_passing_pass() {
    let item = |state| GitHubPullRequestCheckItem {
        name: "x".to_string(),
        state,
        description: None,
        url: None,
    };
    use_state(
        vec![
            item(GitHubPullRequestCheckState::Pending),
            item(GitHubPullRequestCheckState::Failed),
        ],
        GitHubPullRequestCheckState::Failed,
    );
    use_state(
        vec![
            item(GitHubPullRequestCheckState::Passed),
            item(GitHubPullRequestCheckState::Pending),
        ],
        GitHubPullRequestCheckState::Pending,
    );
    use_state(
        vec![
            item(GitHubPullRequestCheckState::Passed),
            item(GitHubPullRequestCheckState::Skipped),
        ],
        GitHubPullRequestCheckState::Passed,
    );
}

fn use_state(items: Vec<GitHubPullRequestCheckItem>, expected: GitHubPullRequestCheckState) {
    assert_eq!(checks_overall_state(&items), expected);
}

#[test]
fn timeline_items_say_who_did_what() {
    let item = github_pr_commit_timeline_item(commit(None));
    assert_eq!(item.author, "Octo Cat");
    assert_eq!(item.title, "Fix it");
    assert_eq!(item.metadata.as_deref(), Some("0123456"));

    let mut given = review("APPROVED");
    given.body = Some("  ".to_string());
    let item = github_pr_review_timeline_item(&given);
    assert_eq!(item.title, github_pr_review_state_label("APPROVED"));
    assert_eq!(item.metadata.as_deref(), Some("APPROVED"));
    assert_eq!(item.markdown, None);

    let comment = |line, original_line| GitHubPullRequestReviewComment {
        user: user("octo"),
        body: "Why?".to_string(),
        html_url: "https://github.com/rc".to_string(),
        created_at: "2026-01-01T00:00:00Z".to_string(),
        path: "src/main.rs".to_string(),
        line,
        original_line,
    };
    let place = |line, original_line| {
        github_pr_review_comment_timeline_item(comment(line, original_line))
            .metadata
            .unwrap()
    };
    assert_eq!(place(Some(3), Some(4)), "src/main.rs:3");
    assert_eq!(place(None, Some(4)), "src/main.rs:4");
    assert_eq!(place(None, None), "src/main.rs");
}

#[test]
fn details_are_in_order_and_say_what_is_missing() {
    let comment = |created_at: &str| GitHubIssueComment {
        user: user("octo"),
        body: "Hello".to_string(),
        html_url: "https://github.com/ic".to_string(),
        created_at: created_at.to_string(),
    };
    let detail = build_review_detail(
        GitHubPullRequestReviewDetailLoad {
            commits: Ok(vec![commit(Some("2026-01-02")), commit(None)]),
            issue_comments: Ok(vec![comment("2026-01-01")]),
            reviews: Err("refused".to_string()),
            ..nothing_loaded()
        },
        3,
    );
    let times: Vec<Option<&str>> = detail
        .timeline
        .iter()
        .map(|item| item.timestamp.as_deref())
        .collect();
    assert_eq!(times, vec![None, Some("2026-01-01"), Some("2026-01-02")]);
    assert_eq!(detail.errors, vec!["Reviews: refused", "Commit status: gone"]);
    assert_eq!(detail.review_summary.pending_reviewers, 3);
    assert_eq!(
        detail.checks_summary.overall,
        GitHubPullRequestCheckState::Missing
    );
}

#[test]
fn a_view_loads_its_details_once_at_a_time() {
    let mut view = GitHubPullRequestView::new("owner/repo".to_string(), pull_request());
    assert_eq!(view.review_detail, GitHubPullRequestReviewDetailState::NotLoaded);
    assert!(view.load_review_detail());
    assert!(!view.load_review_detail());
    view.finish_loading(Err("offline".to_string()));
    assert_eq!(
        view.review_detail,
        GitHubPullRequestReviewDetailState::Error("offline".to_string())
    );
    assert!(view.load_review_detail());
    view.finish_loading(Ok(nothing_loaded()));
    assert!(matches!(
        view.review_detail,
        GitHubPullRequestReviewDetailState::Loaded(_)
    ));
    assert_eq!(view.tab_content_text(), "#42 Improve GitHub PR UI");
    assert_eq!(view.tab_tooltip_text(), "https://github.com/owner/repo/pull/42");
    view.set_pull_request("owner/other".to_string(), pull_request());
    assert_eq!(view.review_detail, GitHubPullRequestReviewDetailState::NotLoaded);
    assert_eq!(view.repo_name_with_owner, "owner/other");
}

#[test]
fn a_checkout_fetches_and_then_changes_branch() {
    let mut view = GitHubPullRequestView::new("owner/repo".to_string(), pull_request());
    assert_eq!(view.checkout_pull_request(None), None);
    assert!(!view.checking_out);
    let operation = CheckoutOperation {
        remote_name: "origin".to_string(),
        local_branch: "pr-42".to_string(),
        refspec: "pull/42/head".to_string(),
    };
    assert_eq!(
        view.checkout_pull_request(Some(&operation)),
        Some(CheckoutAction::Fetch {
            remote_name: "origin".to_string(),
            refspec: "pull/42/head".to_string(),
        })
    );
    assert!(view.checking_out);
    assert_eq!(
        view.continue_checkout(&operation, CheckoutStage::Fetching, Ok(())),
        CheckoutAction::ChangeBranch {
            branch: "origin/pr-42".to_string(),
        }
    );
    assert!(view.checking_out);
    assert_eq!(
        view.continue_checkout(&operation, CheckoutStage::ChangingBranch, Ok(())),
        CheckoutAction::Finish { outcome: Ok(()) }
    );
    assert!(!view.checking_out);
    view.checkout_pull_request(Some(&operation));
    let failed = view.continue_checkout(
        &operation,
        CheckoutStage::Fetching,
        Err("no network".to_string()),
    );
    assert_eq!(
        failed,
        CheckoutAction::Finish {
            outcome: Err("no network".to_string()),
        }
    );
    assert!(!view.checking_out);
    assert!(!view.view_changes(false) && !view.viewing_changes);
    assert!(view.view_changes(true) && view.viewing_changes);
    view.finish_view_changes();
    assert!(!view.viewing_changes);
}

#[test]
fn pages_show_the_pull_request() {
    let mut pull = pull_request();
    pull.labels.push(GitHubLabel {
        name: "bug".to_string(),
    });
    pull.requested_reviewers.push(user("hubot"));
    let mut view = GitHubPullRequestView::new("owner/repo".to_string(), pull);
    let share = rounded_share(12, 4);
    let page = view.render(None, Some("today".to_string()), &Vec::new(), share, &words());
    assert_eq!(page.header.title, "Improve GitHub PR UI");
    assert_eq!(page.header.state_label, "Open");
    assert_eq!(page.header.state_color, Color::Success);
    assert_eq!(page.stats.additions, "+12");
    assert_eq!(page.stats.deletions, "-4");
    assert_eq!(
        page.stats.boxes,
        vec![
            DiffBox::Created,
            DiffBox::Created,
            DiffBox::Created,
            DiffBox::Created,
            DiffBox::Deleted,
        ]
    );
    assert_eq!(page.body, "No description provided.");
    assert_eq!(page.sidebar.labels, vec!["bug"]);
    assert_eq!(page.sidebar.labels_note, None);
    assert_eq!(page.sidebar.reviewers.title, "Asked People");
    assert_eq!(page.sidebar.reviewers.users, vec!["@hubot"]);
    assert_eq!(page.sidebar.reviewers.note, None);
    assert_eq!(page.sidebar.participants, vec!["@octo"]);
    assert_eq!(page.sidebar.details[0].count, "unknown");
    assert_eq!(page.sidebar.details[1].count, "today");
    assert!(matches!(page.review, ReviewDetailSection::Loading { .. }));

    view.finish_loading(Ok(GitHubPullRequestReviewDetailLoad {
        commits: Ok(vec![commit(None)]),
        ..nothing_loaded()
    }));
    let page = view.render(None, None, &vec![None], share, &words());
    let ReviewDetailSection::Loaded {
        warnings,
        activity,
        review,
        ..
    } = page.review
    else {
        panic!("expected details");
    };
    assert_eq!(warnings, vec!["Commit status: gone"]);
    assert_eq!(review.title, "Review required");
    assert_eq!(activity.rows[0].icon, IconName::GitCommit);
    assert_eq!(activity.rows[0].time, "unknown");
    view.finish_loading(Err("offline".to_string()));
    let page = view.render(None, None, &Vec::new(), share, &words());
    assert!(matches!(page.review, ReviewDetailSection::Failed { .. }));
}

#[test]
fn sections_sum_up_reviews_and_checks() {
    let verdict = |states: Vec<&str>, pending| {
        let reviews = states.into_iter().map(review).collect();
        let section = render_review_section(
            &github_pr_review_summary(&reviews, pending),
            "Nobody was asked",
        );
        (section.verdict, section.title, section.color)
    };
    assert_eq!(
        verdict(vec!["APPROVED", "CHANGES_REQUESTED"], 1),
        (
            ReviewVerdict::ChangesRequested,
            "Changes requested".to_string(),
            Color::Error
        )
    );
    assert_eq!(
        verdict(vec!["APPROVED"], 1),
        (ReviewVerdict::Approved, "Approved".to_string(), Color::Success)
    );
    assert_eq!(
        verdict(vec![], 1),
        (
            ReviewVerdict::Required,
            "Review required".to_string(),
            Color::Warning
        )
    );
    assert_eq!(
        verdict(vec!["COMMENTED"], 0),
        (
            ReviewVerdict::NobodyAsked,
            "Nobody was asked".to_string(),
            Color::Muted
        )
    );

    let none = render_checks_section(&github_pr_checks_summary(Vec::new(), None));
    assert_eq!(none.title, "No checks found");
    assert_eq!(
        none.note.as_deref(),
        Some("No check runs or commit statuses found.")
    );
    let failed = render_checks_section(&github_pr_checks_summary(
        vec![check_run("lint", "completed", Some("failure"))],
        None,
    ));
    assert_eq!(failed.title, "Some checks failed");
    assert_eq!(failed.color, Color::Error);
    assert_eq!(
        failed.rows[0].label,
        check_state_label(GitHubPullRequestCheckState::Failed)
    );
    assert_eq!(render_diff_boxes(0, 0), vec![DiffBox::Muted; 5]);
    let mut draft = pull_request();
    draft.draft = true;
    assert_eq!(github_pull_request_state_color(&draft), Color::Warning);
}

#[test]
fn checks_are_those_of_the_head() {
    let queries = load_github_pull_request_review_detail(&pull_request());
    assert_eq!(queries.len(), 6);
    for query in queries {
        let expected = match query.part {
            ReviewDetailPart::CheckRuns | ReviewDetailPart::CombinedStatus => {
                ReviewSubject::Commit {
                    sha: "head-sha".to_string(),
                }
            }
            _ => ReviewSubject::Pull { number: 42 },
        };
        assert_eq!(query.subject, expected);
    }
}

#[test]
fn a_section_without_users_says_so_under_its_heading() {
    let section = render_user_section("Asked People", &Vec::new());
    assert_eq!(section.title, "Asked People");
    assert_eq!(section.note.as_deref(), Some("No asked people"));
    assert!(section.users.is_empty());
    let section = render_user_section("\u{c9}TUDIANTS", &vec![user("octo"), user("hubot")]);
    assert_eq!(section.note, None);
    assert_eq!(section.users, vec!["@octo", "@hubot"]);
    let section = render_user_section("\u{c9}TUDIANTS", &Vec::new());
    assert_eq!(section.note.as_deref(), Some("No \u{e9}tudiants"));
    let sidebar = render_sidebar(&pull_request(), None, None, "Asked");
    assert_eq!(sidebar.reviewers.note.as_deref(), Some("No asked"));
    assert_eq!(sidebar.labels_note.as_deref(), Some("No labels"));
}
