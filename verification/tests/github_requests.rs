use github_activity::cloud_api_types::GitHubActivityKind;
use github_activity::github::activity::activity_from_lists;
use github_activity::github::releases::{
    build_asset_url, checked_build_asset_url, finish_asset_url, get_release_by_tag_name,
    latest_github_release, make_archive_name, read_latest_release, read_tagged_release,
    select_release,
};
use github_activity::github::requests::{
    device_access_token_poll, get_github_json_page, github_next_link, github_status_error,
    make_status_message, poll_device_access_token, post_form, pull_request, pull_request_files,
    pull_requests, pull_requests_page, pull_requests_page_url, read_github_json_response,
    repository_activity, request_device_code, viewer,
};
use github_activity::github::types::{
    AssetKind, GitHubDeviceAccessTokenPoll, GitHubDeviceAccessTokenResponse, GitHubDeviceCode,
    GitHubIssue, GitHubIssueItem, GitHubLabel, GitHubPullRequest, GitHubPullRequestBranch,
    GitHubPullRequestFile, GitHubRepositoryActivity, GitHubRepositoryRef, GitHubUser, GitHubViewer,
    GitHubWorkflowRun, GithubRelease, GithubReleaseAsset,
};
use github_activity::http_request::{HttpRequest, Method, RedirectPolicy};
use serde_json::Value;

fn parse(body: &str) -> Value {
    serde_json::from_str(body).expect("test body should be JSON")
}

fn text(value: &Value, key: &str) -> String {
    value[key].as_str().expect("text should be there").to_string()
}

fn optional_text(value: &Value, key: &str) -> Option<String> {
    value[key].as_str().map(|text| text.to_string())
}

fn optional_count(value: &Value, key: &str) -> Option<u32> {
    value[key].as_u64().map(|count| count as u32)
}

fn count(value: &Value, key: &str) -> u32 {
    optional_count(value, key).unwrap_or(0)
}

fn list(value: &Value) -> Vec<Value> {
    value.as_array().cloned().unwrap_or_default()
}

fn user(value: &Value) -> GitHubUser {
    GitHubUser {
        login: text(value, "login"),
    }
}

fn labels(value: &Value) -> Vec<GitHubLabel> {
    list(value)
        .iter()
        .map(|label| GitHubLabel {
            name: text(label, "name"),
        })
        .collect()
}

fn branch(value: &Value) -> GitHubPullRequestBranch {
    GitHubPullRequestBranch {
        ref_name: text(value, "ref"),
        sha: text(value, "sha"),
        repo: value["repo"].as_object().map(|_| GitHubRepositoryRef {
            full_name: text(&value["repo"], "full_name"),
            clone_url: optional_text(&value["repo"], "clone_url"),
            ssh_url: optional_text(&value["repo"], "ssh_url"),
        }),
    }
}

fn issue(value: &Value) -> GitHubIssue {
    GitHubIssue {
        number: value["number"].as_u64().unwrap(),
        title: text(value, "title"),
        html_url: text(value, "html_url"),
        state: text(value, "state"),
        user: user(&value["user"]),
        updated_at: optional_text(value, "updated_at"),
        labels: labels(&value["labels"]),
        body: optional_text(value, "body"),
    }
}

fn issue_item(value: &Value) -> GitHubIssueItem {
    GitHubIssueItem {
        issue: issue(value),
        is_pull_request: !value["pull_request"].is_null(),
    }
}

fn pull(value: &Value) -> GitHubPullRequest {
    GitHubPullRequest {
        number: value["number"].as_u64().unwrap(),
        title: text(value, "title"),
        html_url: text(value, "html_url"),
        state: text(value, "state"),
        user: user(&value["user"]),
        base: branch(&value["base"]),
        head: branch(&value["head"]),
        draft: value["draft"].as_bool().unwrap_or(false),
        updated_at: optional_text(value, "updated_at"),
        created_at: optional_text(value, "created_at"),
        labels: labels(&value["labels"]),
        body: optional_text(value, "body"),
        requested_reviewers: list(&value["requested_reviewers"]).iter().map(user).collect(),
        comments: count(value, "comments"),
        review_comments: count(value, "review_comments"),
        commits: optional_count(value, "commits"),
        changed_files: optional_count(value, "changed_files"),
        additions: optional_count(value, "additions"),
        deletions: optional_count(value, "deletions"),
    }
}

fn file(value: &Value) -> GitHubPullRequestFile {
    GitHubPullRequestFile {
        filename: text(value, "filename"),
        status: text(value, "status"),
        previous_filename: optional_text(value, "previous_filename"),
        additions: count(value, "additions"),
        deletions: count(value, "deletions"),
        changes: count(value, "changes"),
        patch: optional_text(value, "patch"),
    }
}

fn run(value: &Value) -> GitHubWorkflowRun {
    GitHubWorkflowRun {
        id: value["id"].as_u64().unwrap(),
        name: optional_text(value, "name"),
        html_url: text(value, "html_url"),
        status: optional_text(value, "status"),
        conclusion: optional_text(value, "conclusion"),
        head_branch: optional_text(value, "head_branch"),
        head_sha: optional_text(value, "head_sha"),
        actor: value["actor"].as_object().map(|_| user(&value["actor"])),
        updated_at: optional_text(value, "updated_at"),
        event: text(value, "event"),
    }
}

fn poll_response(body: &str) -> GitHubDeviceAccessTokenResponse {
    let value = parse(body);
    GitHubDeviceAccessTokenResponse {
        access_token: optional_text(&value, "access_token"),
        token_type: optional_text(&value, "token_type"),
        scope: optional_text(&value, "scope"),
        error: optional_text(&value, "error"),
        error_description: optional_text(&value, "error_description"),
    }
}

fn header<'a>(request: &'a HttpRequest, name: &str) -> Option<&'a str> {
    request
        .headers
        .iter()
        .find(|(header, _)| header == name)
        .map(|(_, value)| value.as_str())
}

fn page(status: u16, link: Option<&str>, body: &str) -> Result<(Value, Option<String>), String> {
    let bytes = body.as_bytes().to_vec();
    let parsed = serde_json::from_slice(&bytes).map_err(|error| format!("{error:?}"));
    get_github_json_page(status, link, &bytes, parsed)
}

#[test]
fn test_build_asset_url() {
    let tag = "release/2.3.5";
    let repo_name_with_owner = "microsoft/vscode-eslint";

    let tarball = build_asset_url(repo_name_with_owner, tag, AssetKind::TarGz).unwrap();
    assert_eq!(
        tarball,
        "https://github.com/microsoft/vscode-eslint/archive/refs/tags/release%2F2.3.5.tar.gz"
    );

    let zip = build_asset_url(repo_name_with_owner, tag, AssetKind::Zip).unwrap();
    assert_eq!(
        zip,
        "https://github.com/microsoft/vscode-eslint/archive/refs/tags/release%2F2.3.5.zip"
    );
}

#[test]
fn test_request_device_code_posts_client_id_and_scope() {
    let request = request_device_code("client-id", "repo read:user")
        .expect("device code request should build");

    assert_eq!(request.method, Method::Post);
    assert_eq!(request.uri, "https://github.com/login/device/code");
    assert_eq!(header(&request, "Accept"), Some("application/json"));
    assert_eq!(request.body, "client_id=client-id&scope=repo+read%3Auser");
    assert_eq!(request.redirect_policy, Some(RedirectPolicy::FollowAll));
    assert_eq!(request.clone().validated(), Ok(request));

    let body = r#"{
        "device_code": "device-code",
        "user_code": "ABCD-1234",
        "verification_uri": "https://github.com/login/device",
        "verification_uri_complete": "https://github.com/login/device?user_code=ABCD-1234",
        "expires_in": 900,
        "interval": 5
    }"#;
    let value = parse(body);
    let parsed = Ok(GitHubDeviceCode {
        device_code: text(&value, "device_code"),
        user_code: text(&value, "user_code"),
        verification_uri: text(&value, "verification_uri"),
        verification_uri_complete: optional_text(&value, "verification_uri_complete"),
        expires_in: value["expires_in"].as_u64().unwrap(),
        interval: value["interval"].as_u64().unwrap(),
    });
    let response = read_github_json_response(200, &body.as_bytes().to_vec(), parsed)
        .expect("device code request should succeed");
    assert_eq!(response.device_code, "device-code");
    assert_eq!(response.user_code, "ABCD-1234");
    assert_eq!(response.expires_in, 900);
    assert_eq!(response.interval, 5);
}

#[test]
fn test_poll_device_access_token_handles_pending_slow_down_and_success() {
    assert_eq!(
        device_access_token_poll(poll_response(r#"{"error":"authorization_pending"}"#)).unwrap(),
        GitHubDeviceAccessTokenPoll::Pending
    );
    assert_eq!(
        device_access_token_poll(poll_response(r#"{"error":"slow_down"}"#)).unwrap(),
        GitHubDeviceAccessTokenPoll::SlowDown
    );
    let GitHubDeviceAccessTokenPoll::Complete(token) = device_access_token_poll(poll_response(
        r#"{
            "access_token": "github-token",
            "token_type": "bearer",
            "scope": "repo,read:user"
        }"#,
    ))
    .unwrap() else {
        panic!("expected device flow to complete");
    };
    assert_eq!(token.access_token, "github-token");
    assert_eq!(token.scope, "repo,read:user");

    let request = poll_device_access_token("client-id", "device-code").unwrap();
    assert_eq!(request.uri, "https://github.com/login/oauth/access_token");
    assert_eq!(
        request.body,
        "client_id=client-id&device_code=device-code&grant_type=urn%3Aietf%3Aparams%3Aoauth%3Agrant-type%3Adevice_code"
    );
}

#[test]
fn test_poll_device_access_token_rejects_terminal_errors() {
    let error = device_access_token_poll(poll_response(
        r#"{
            "error": "expired_token",
            "error_description": "The device code has expired."
        }"#,
    ))
    .expect_err("expired token should fail");

    assert!(error.contains("The device code has expired."));
}

#[test]
fn poll_failures_say_what_is_missing() {
    assert_eq!(
        device_access_token_poll(poll_response(r#"{"error":"access_denied"}"#)),
        Err("GitHub device authorization failed: access_denied".to_string())
    );
    assert_eq!(
        device_access_token_poll(poll_response("{}")),
        Err("GitHub device authorization did not return an access token".to_string())
    );
    assert_eq!(
        device_access_token_poll(poll_response(r#"{"access_token":"t"}"#)),
        Err("GitHub device authorization did not return a token type".to_string())
    );
    let complete =
        device_access_token_poll(poll_response(r#"{"access_token":"t","token_type":"bearer"}"#));
    let Ok(GitHubDeviceAccessTokenPoll::Complete(token)) = complete else {
        panic!("expected a token");
    };
    assert_eq!(token.scope, "");
}

#[test]
fn test_viewer_fetches_authenticated_github_user() {
    let request = viewer("github-token").unwrap();
    assert_eq!(request.method, Method::Get);
    assert_eq!(request.uri, "https://api.github.com/user");
    assert_eq!(header(&request, "Authorization"), Some("Bearer github-token"));

    let body = r#"{"login":"octo"}"#;
    let parsed = Ok(GitHubViewer {
        login: text(&parse(body), "login"),
    });
    let user = read_github_json_response(200, &body.as_bytes().to_vec(), parsed)
        .expect("viewer request should succeed");
    assert_eq!(user.login, "octo");
}

#[test]
fn test_pull_requests_fetches_open_pr_metadata() {
    let body = r#"[
        {
            "number": 7,
            "title": "Improve graph",
            "html_url": "https://github.com/owner/repo/pull/7",
            "state": "open",
            "user": { "login": "hubot" },
            "base": {
                "ref": "main",
                "sha": "base-sha",
                "repo": {
                    "full_name": "owner/repo",
                    "clone_url": "https://github.com/owner/repo.git",
                    "ssh_url": "git@github.com:owner/repo.git"
                }
            },
            "head": {
                "ref": "feature/pr-diff",
                "sha": "head-sha",
                "repo": {
                    "full_name": "owner/repo",
                    "clone_url": "https://github.com/owner/repo.git",
                    "ssh_url": "git@github.com:owner/repo.git"
                }
            },
            "draft": true,
            "updated_at": "2026-06-24T11:00:00Z",
            "created_at": "2026-06-20T11:00:00Z",
            "labels": [{ "name": "enhancement" }],
            "requested_reviewers": [{ "login": "octo" }],
            "changed_files": 3,
            "commits": 2,
            "additions": 12,
            "deletions": 4,
            "review_comments": 5
        }
    ]"#;
    let link = r#"<https://api.github.com/repositories/1/pulls?page=2>; rel="next""#;
    let (value, _) = page(200, Some(link), body).expect("pull requests should parse");
    let pulls: Vec<GitHubPullRequest> = list(&value).iter().map(pull).collect();

    assert_eq!(pulls.len(), 1);
    assert_eq!(pulls[0].number, 7);
    assert_eq!(pulls[0].base.ref_name, "main");
    assert_eq!(pulls[0].head.ref_name, "feature/pr-diff");
    assert_eq!(pulls[0].requested_reviewers[0].login, "octo");
    assert_eq!(pulls[0].changed_files, Some(3));
    assert_eq!(pulls[0].additions, Some(12));
    assert_eq!(pulls[0].deletions, Some(4));
    assert_eq!(pulls[0].review_comments, 5);
    assert_eq!(pulls[0].created_at.as_deref(), Some("2026-06-20T11:00:00Z"));

    let request = pull_requests("owner/repo", Some("secret")).unwrap();
    assert!(request
        .uri
        .ends_with("/pulls?state=open&per_page=20&sort=updated&direction=desc"));
    assert_eq!(header(&request, "Authorization"), Some("Bearer secret"));
}

#[test]
fn test_pull_requests_page_returns_next_url() {
    let link = r#"<https://api.github.com/repositories/1/pulls?page=2>; rel="next""#;
    let (pulls, next_url) =
        page(200, Some(link), "[]").expect("pull request page should parse");

    assert!(list(&pulls).is_empty());
    assert_eq!(
        next_url.as_deref(),
        Some("https://api.github.com/repositories/1/pulls?page=2")
    );
    assert_eq!(
        pull_requests_page("owner/repo", None).unwrap().uri,
        "https://api.github.com/repos/owner/repo/pulls?state=open&per_page=20&sort=updated&direction=desc"
    );
    assert_eq!(
        pull_requests_page_url(&next_url.unwrap(), None).unwrap().uri,
        "https://api.github.com/repositories/1/pulls?page=2"
    );
}

#[test]
fn test_pull_request_fetches_detail_stats() {
    let body = r#"{
        "number": 7,
        "title": "Improve graph",
        "html_url": "https://github.com/owner/repo/pull/7",
        "state": "open",
        "user": { "login": "hubot" },
        "base": {
            "ref": "main",
            "sha": "base-sha",
            "repo": {
                "full_name": "owner/repo",
                "clone_url": "https://github.com/owner/repo.git",
                "ssh_url": "git@github.com:owner/repo.git"
            }
        },
        "head": {
            "ref": "feature/pr-diff",
            "sha": "head-sha",
            "repo": {
                "full_name": "owner/repo",
                "clone_url": "https://github.com/owner/repo.git",
                "ssh_url": "git@github.com:owner/repo.git"
            }
        },
        "draft": false,
        "updated_at": "2026-06-24T11:00:00Z",
        "created_at": "2026-06-20T11:00:00Z",
        "comments": 4,
        "review_comments": 5,
        "changed_files": 3,
        "commits": 2,
        "additions": 12,
        "deletions": 4
    }"#;
    let (value, _) = page(200, None, body).expect("pull request detail should parse");
    let detail = pull(&value);

    assert_eq!(detail.number, 7);
    assert_eq!(detail.commits, Some(2));
    assert_eq!(detail.changed_files, Some(3));
    assert_eq!(detail.additions, Some(12));
    assert_eq!(detail.deletions, Some(4));
    assert_eq!(detail.comments, 4);
    assert_eq!(detail.review_comments, 5);

    let request = pull_request("owner/repo", 7, Some("secret")).unwrap();
    assert!(request.uri.ends_with("/pulls/7"));
    assert_eq!(header(&request, "Authorization"), Some("Bearer secret"));
}

#[test]
fn test_pull_request_files_parse_patch_metadata() {
    let body = r#"[
        {
            "filename": "src/main.rs",
            "status": "modified",
            "additions": 3,
            "deletions": 1,
            "changes": 4,
            "patch": "@@ -1 +1 @@\n-old\n+new"
        },
        {
            "filename": "src/new.rs",
            "status": "added",
            "additions": 10,
            "deletions": 0,
            "changes": 10
        }
    ]"#;
    let (value, _) = page(200, None, body).expect("pull request files should parse");
    let files: Vec<GitHubPullRequestFile> = list(&value).iter().map(file).collect();

    assert_eq!(files.len(), 2);
    assert_eq!(files[0].filename, "src/main.rs");
    assert_eq!(files[0].patch.as_deref(), Some("@@ -1 +1 @@\n-old\n+new"));
    assert_eq!(files[1].patch, None);

    let request = pull_request_files("owner/repo", 7, Some("secret")).unwrap();
    assert!(request.uri.ends_with("/pulls/7/files"));
    assert_eq!(header(&request, "Authorization"), Some("Bearer secret"));
}

#[test]
fn test_repository_activity_fetches_issues_pull_requests_and_runs() {
    let issues_link = r#"<https://api.github.com/repos/owner/repo/issues?page=2>; rel="next""#;
    let (issue_values, _) = page(
        200,
        Some(issues_link),
        r#"[
        {
            "number": 1,
            "title": "Real issue",
            "html_url": "https://github.com/owner/repo/issues/1",
            "state": "open",
            "user": { "login": "octo" },
            "updated_at": "2026-06-24T10:00:00Z",
            "labels": [{ "name": "bug" }],
            "body": "issue body"
        },
        {
            "number": 2,
            "title": "PR issue item",
            "html_url": "https://github.com/owner/repo/pull/2",
            "state": "open",
            "user": { "login": "octo" },
            "pull_request": {}
        }
    ]"#,
    )
    .expect("issues should parse");
    let (pull_values, _) = page(
        200,
        None,
        r#"[
        {
            "number": 7,
            "title": "Improve graph",
            "html_url": "https://github.com/owner/repo/pull/7",
            "state": "open",
            "user": { "login": "hubot" },
            "base": {
                "ref": "main",
                "sha": "base-sha",
                "repo": {
                    "full_name": "owner/repo",
                    "clone_url": "https://github.com/owner/repo.git",
                    "ssh_url": "git@github.com:owner/repo.git"
                }
            },
            "head": {
                "ref": "feature/graph",
                "sha": "head-sha",
                "repo": {
                    "full_name": "owner/repo",
                    "clone_url": "https://github.com/owner/repo.git",
                    "ssh_url": "git@github.com:owner/repo.git"
                }
            },
            "draft": true,
            "updated_at": "2026-06-24T11:00:00Z",
            "created_at": "2026-06-20T11:00:00Z",
            "labels": [{ "name": "enhancement" }],
            "body": "pull request body",
            "additions": 12,
            "deletions": 4,
            "review_comments": 5
        }
    ]"#,
    )
    .expect("pull requests should parse");
    let runs_link = r#"<https://api.github.com/repos/owner/repo/actions/runs?page=2>; rel="next""#;
    let (run_values, _) = page(
        200,
        Some(runs_link),
        r#"{
        "workflow_runs": [
            {
                "id": 42,
                "name": "CI",
                "html_url": "https://github.com/owner/repo/actions/runs/42",
                "status": "completed",
                "conclusion": "success",
                "head_branch": "main",
                "head_sha": "1234567890abcdef",
                "actor": { "login": "ci-user" },
                "updated_at": "2026-06-24T12:00:00Z",
                "event": "push"
            }
        ]
    }"#,
    )
    .expect("workflow runs should parse");

    let activity = activity_from_lists(
        "owner/repo",
        list(&issue_values).iter().map(issue_item).collect(),
        list(&pull_values).iter().map(pull).collect(),
        list(&run_values["workflow_runs"]).iter().map(run).collect(),
    );

    assert_eq!(activity.repository_name_with_owner, "owner/repo");
    assert_eq!(activity.issues.len(), 1);
    assert_eq!(activity.issues[0].number, 1);
    assert_eq!(activity.pull_requests.len(), 1);
    assert_eq!(activity.pull_requests[0].number, 7);
    assert_eq!(activity.pull_requests[0].labels[0].name, "enhancement");
    assert_eq!(
        activity.pull_requests[0].body.as_deref(),
        Some("pull request body")
    );
    assert_eq!(activity.workflow_runs.len(), 1);
    assert_eq!(activity.workflow_runs[0].id, 42);

    let sync_batch = activity.to_sync_batch();
    assert_eq!(sync_batch.repository_name_with_owner, "owner/repo");
    assert_eq!(
        sync_batch
            .items
            .iter()
            .map(|item| item.source_id.as_str())
            .collect::<Vec<_>>(),
        vec![
            "github:owner/repo:workflow_run:42",
            "github:owner/repo:pull_request:7",
            "github:owner/repo:issue:1",
        ]
    );

    let items = activity.to_activity_items();
    assert_eq!(items.len(), 3);
    assert_eq!(
        items
            .iter()
            .map(|item| item.source_id.as_str())
            .collect::<Vec<_>>(),
        vec![
            "github:owner/repo:workflow_run:42",
            "github:owner/repo:pull_request:7",
            "github:owner/repo:issue:1",
        ]
    );

    let issue = items
        .iter()
        .find(|item| item.source_id == "github:owner/repo:issue:1")
        .expect("issue item should exist");
    assert_eq!(issue.kind, GitHubActivityKind::Issue);
    assert_eq!(issue.repository_name_with_owner, "owner/repo");
    assert_eq!(issue.title, "Real issue");
    assert_eq!(issue.body.as_deref(), Some("issue body"));
    assert_eq!(issue.author_login.as_deref(), Some("octo"));
    assert_eq!(issue.labels, vec!["bug"]);
    assert_eq!(issue.number, Some(1));
    assert_eq!(issue.state.as_deref(), Some("open"));
    assert_eq!(issue.updated_at.as_deref(), Some("2026-06-24T10:00:00Z"));

    let pull_request = items
        .iter()
        .find(|item| item.source_id == "github:owner/repo:pull_request:7")
        .expect("pull request item should exist");
    assert_eq!(pull_request.kind, GitHubActivityKind::PullRequest);
    assert_eq!(pull_request.title, "Improve graph");
    assert_eq!(pull_request.body.as_deref(), Some("pull request body"));
    assert_eq!(pull_request.author_login.as_deref(), Some("hubot"));
    assert_eq!(pull_request.labels, vec!["enhancement"]);
    assert_eq!(pull_request.number, Some(7));
    assert_eq!(pull_request.state.as_deref(), Some("open"));
    assert_eq!(pull_request.draft, Some(true));
    assert_eq!(
        pull_request.updated_at.as_deref(),
        Some("2026-06-24T11:00:00Z")
    );

    let workflow_run = items
        .iter()
        .find(|item| item.source_id == "github:owner/repo:workflow_run:42")
        .expect("workflow run item should exist");
    assert_eq!(workflow_run.kind, GitHubActivityKind::WorkflowRun);
    assert_eq!(workflow_run.title, "CI");
    assert_eq!(workflow_run.author_login.as_deref(), Some("ci-user"));
    assert_eq!(workflow_run.workflow_run_id, Some(42));
    assert_eq!(
        workflow_run.updated_at.as_deref(),
        Some("2026-06-24T12:00:00Z")
    );
    assert_eq!(workflow_run.workflow_status.as_deref(), Some("completed"));
    assert_eq!(workflow_run.workflow_conclusion.as_deref(), Some("success"));
    assert_eq!(workflow_run.workflow_event.as_deref(), Some("push"));
    assert_eq!(workflow_run.workflow_head_branch.as_deref(), Some("main"));
    assert_eq!(
        workflow_run.workflow_head_sha.as_deref(),
        Some("1234567890abcdef")
    );

    let (first, second, third) = repository_activity("owner/repo", Some("secret"));
    let (first, second, third) = (first.unwrap(), second.unwrap(), third.unwrap());
    assert!(first
        .uri
        .ends_with("/issues?state=all&per_page=20&sort=updated&direction=desc"));
    assert!(second
        .uri
        .ends_with("/pulls?state=all&per_page=20&sort=updated&direction=desc"));
    assert!(third
        .uri
        .ends_with("/actions/runs?per_page=20&exclude_pull_requests=false"));
    for request in [&first, &second, &third] {
        assert_eq!(header(request, "Authorization"), Some("Bearer secret"));
        assert_eq!(header(request, "User-Agent"), Some("Rezed"));
        assert_eq!(header(request, "Accept"), Some("application/vnd.github+json"));
        assert_eq!(header(request, "X-GitHub-Api-Version"), Some("2022-11-28"));
    }
}

#[test]
fn test_repository_activity_omits_authorization_without_token() {
    let (issues, _) = page(200, None, "[]").unwrap();
    let (pulls, _) = page(200, None, "[]").unwrap();
    let (runs, _) = page(200, None, r#"{"workflow_runs":[]}"#).unwrap();
    let activity = activity_from_lists(
        "owner/repo",
        list(&issues).iter().map(issue_item).collect(),
        list(&pulls).iter().map(pull).collect(),
        list(&runs["workflow_runs"]).iter().map(run).collect(),
    );

    assert!(activity.issues.is_empty());
    assert!(activity.pull_requests.is_empty());
    assert!(activity.workflow_runs.is_empty());

    let (first, second, third) = repository_activity("owner/repo", None);
    let (first, second, third) = (first.unwrap(), second.unwrap(), third.unwrap());
    for request in [&first, &second, &third] {
        assert_eq!(header(request, "Authorization"), None);
        assert_eq!(header(request, "User-Agent"), Some("Rezed"));
        assert_eq!(header(request, "Accept"), Some("application/vnd.github+json"));
        assert_eq!(header(request, "X-GitHub-Api-Version"), Some("2022-11-28"));
    }
}

#[test]
fn lists_make_up_the_activity_of_a_repository() {
    let activity = GitHubRepositoryActivity {
        repository_name_with_owner: "owner/repo".to_string(),
        issues: vec![GitHubIssue {
            number: 1,
            title: "Issue".to_string(),
            html_url: "https://github.com/owner/repo/issues/1".to_string(),
            state: "open".to_string(),
            user: GitHubUser {
                login: "octo".to_string(),
            },
            updated_at: Some("2026-06-24T10:00:00Z".to_string()),
            labels: vec![GitHubLabel {
                name: "bug".to_string(),
            }],
            body: Some("body".to_string()),
        }],
        pull_requests: vec![GitHubPullRequest {
            number: 7,
            title: "PR".to_string(),
            html_url: "https://github.com/owner/repo/pull/7".to_string(),
            state: "open".to_string(),
            user: GitHubUser {
                login: "hubot".to_string(),
            },
            base: GitHubPullRequestBranch {
                ref_name: "main".to_string(),
                sha: "base-sha".to_string(),
                repo: Some(GitHubRepositoryRef {
                    full_name: "owner/repo".to_string(),
                    clone_url: Some("https://github.com/owner/repo.git".to_string()),
                    ssh_url: Some("git@github.com:owner/repo.git".to_string()),
                }),
            },
            head: GitHubPullRequestBranch {
                ref_name: "feature/graph".to_string(),
                sha: "head-sha".to_string(),
                repo: Some(GitHubRepositoryRef {
                    full_name: "owner/repo".to_string(),
                    clone_url: Some("https://github.com/owner/repo.git".to_string()),
                    ssh_url: Some("git@github.com:owner/repo.git".to_string()),
                }),
            },
            draft: false,
            updated_at: Some("2026-06-24T11:00:00Z".to_string()),
            created_at: Some("2026-06-20T11:00:00Z".to_string()),
            labels: Vec::new(),
            body: None,
            requested_reviewers: Vec::new(),
            comments: 0,
            review_comments: 0,
            commits: None,
            changed_files: None,
            additions: None,
            deletions: None,
        }],
        workflow_runs: vec![GitHubWorkflowRun {
            id: 42,
            name: Some("CI".to_string()),
            html_url: "https://github.com/owner/repo/actions/runs/42".to_string(),
            status: Some("completed".to_string()),
            conclusion: Some("success".to_string()),
            head_branch: Some("main".to_string()),
            head_sha: Some("1234567890abcdef".to_string()),
            actor: Some(GitHubUser {
                login: "ci-user".to_string(),
            }),
            updated_at: Some("2026-06-24T12:00:00Z".to_string()),
            event: "push".to_string(),
        }],
    };
    let json = parse(
        r#"{
        "repository_name_with_owner": "owner/repo",
        "issues": [{
            "number": 1,
            "title": "Issue",
            "html_url": "https://github.com/owner/repo/issues/1",
            "state": "open",
            "user": { "login": "octo" },
            "updated_at": "2026-06-24T10:00:00Z",
            "labels": [{ "name": "bug" }],
            "body": "body"
        }],
        "pull_requests": [{
            "number": 7,
            "title": "PR",
            "html_url": "https://github.com/owner/repo/pull/7",
            "state": "open",
            "user": { "login": "hubot" },
            "base": {
                "ref": "main",
                "sha": "base-sha",
                "repo": {
                    "full_name": "owner/repo",
                    "clone_url": "https://github.com/owner/repo.git",
                    "ssh_url": "git@github.com:owner/repo.git"
                }
            },
            "head": {
                "ref": "feature/graph",
                "sha": "head-sha",
                "repo": {
                    "full_name": "owner/repo",
                    "clone_url": "https://github.com/owner/repo.git",
                    "ssh_url": "git@github.com:owner/repo.git"
                }
            },
            "draft": false,
            "updated_at": "2026-06-24T11:00:00Z",
            "created_at": "2026-06-20T11:00:00Z",
            "labels": [],
            "body": null,
            "requested_reviewers": [],
            "comments": 0,
            "review_comments": 0,
            "commits": null,
            "changed_files": null,
            "additions": null,
            "deletions": null
        }],
        "workflow_runs": [{
            "id": 42,
            "name": "CI",
            "html_url": "https://github.com/owner/repo/actions/runs/42",
            "status": "completed",
            "conclusion": "success",
            "head_branch": "main",
            "head_sha": "1234567890abcdef",
            "actor": { "login": "ci-user" },
            "updated_at": "2026-06-24T12:00:00Z",
            "event": "push"
        }]
    }"#,
    );
    let assembled = activity_from_lists(
        &text(&json, "repository_name_with_owner"),
        list(&json["issues"]).iter().map(issue_item).collect(),
        list(&json["pull_requests"]).iter().map(pull).collect(),
        list(&json["workflow_runs"]).iter().map(run).collect(),
    );
    assert_eq!(assembled, activity);
    assert_eq!(GitHubRepositoryActivity::default().issues, Vec::new());
}

fn dated_issue(number: u64, updated_at: Option<&str>) -> GitHubIssue {
    GitHubIssue {
        number,
        title: format!("Issue {number}"),
        html_url: String::new(),
        state: "open".to_string(),
        user: GitHubUser {
            login: "octo".to_string(),
        },
        updated_at: updated_at.map(|time| time.to_string()),
        labels: Vec::new(),
        body: None,
    }
}

#[test]
fn activity_is_listed_by_time_then_by_id() {
    let activity = GitHubRepositoryActivity {
        repository_name_with_owner: "o/r".to_string(),
        issues: vec![
            dated_issue(3, None),
            dated_issue(2, Some("2026-01-02")),
            dated_issue(10, Some("2026-01-02")),
            dated_issue(1, Some("2026-01-03")),
        ],
        ..GitHubRepositoryActivity::default()
    };
    let ids: Vec<String> = activity
        .to_activity_items()
        .into_iter()
        .map(|item| item.source_id)
        .collect();
    assert_eq!(
        ids,
        vec![
            "github:o/r:issue:1",
            "github:o/r:issue:10",
            "github:o/r:issue:2",
            "github:o/r:issue:3",
        ]
    );
}

#[test]
fn a_run_without_a_name_is_called_workflow_run() {
    let mut activity = GitHubRepositoryActivity::default();
    for (id, name) in [(1, None), (2, Some(String::new()))] {
        activity.workflow_runs.push(GitHubWorkflowRun {
            id,
            name,
            html_url: String::new(),
            status: None,
            conclusion: None,
            head_branch: None,
            head_sha: None,
            actor: None,
            updated_at: None,
            event: "push".to_string(),
        });
    }
    let items = activity.to_activity_items();
    assert_eq!(items.len(), 2);
    assert!(items.iter().all(|item| item.title == "Workflow run"));
    assert!(items.iter().all(|item| item.author_login.is_none()));
}

#[test]
fn next_links_are_found_in_link_headers() {
    assert_eq!(
        github_next_link(r#"<https://a/1>; rel="prev", <https://a/3>; rel="next""#).as_deref(),
        Some("https://a/3")
    );
    assert_eq!(
        github_next_link(r#" <https://a/3> ; title="x"; rel="next" "#).as_deref(),
        Some("https://a/3")
    );
    assert_eq!(github_next_link(r#"<https://a/1>; rel="prev""#), None);
    assert_eq!(github_next_link(r#"https://a/1; rel="next""#), None);
    assert_eq!(github_next_link(r#"<; rel="next""#), None);
    assert_eq!(
        github_next_link(r#"https://a/1; rel="next", <https://a/2>; rel="next""#).as_deref(),
        Some("https://a/2")
    );
    assert_eq!(github_next_link(""), None);
}

#[test]
fn failures_of_the_api_are_reported() {
    assert_eq!(
        page(404, None, "not \"found\""),
        Err("GitHub returned status 404, response: \"not \\\"found\\\"\"".to_string())
    );
    assert_eq!(
        make_status_message(404, "\"text\""),
        "GitHub returned status 404, response: \"text\""
    );
    assert_eq!(
        github_status_error(500, &vec![b'a', 0xff]),
        "GitHub returned status 500, response: \"a\u{fffd}\""
    );
    let failed = read_github_json_response::<u64>(200, &Vec::new(), Err("EOF".to_string()));
    assert_eq!(
        failed,
        Err("error deserializing GitHub API response: EOF".to_string())
    );
    let redirected = read_github_json_response::<u64>(301, &Vec::new(), Ok(1));
    assert_eq!(
        redirected,
        Err("GitHub returned status 301, response: \"\"".to_string())
    );
}

#[test]
fn forms_are_posted_as_they_are_encoded() {
    let request = post_form("https://example.test", "a=b".to_string());
    assert_eq!(request.method, Method::Post);
    assert_eq!(request.body, "a=b");
    assert_eq!(
        header(&request, "Content-Type"),
        Some("application/x-www-form-urlencoded")
    );
}

fn release(tag: &str, pre_release: bool, digests: Vec<Option<&str>>) -> GithubRelease {
    GithubRelease {
        tag_name: tag.to_string(),
        pre_release,
        assets: digests
            .into_iter()
            .map(|digest| GithubReleaseAsset {
                name: "asset".to_string(),
                browser_download_url: "https://example.test/asset".to_string(),
                digest: digest.map(|digest| digest.to_string()),
            })
            .collect(),
        tarball_url: "https://example.test/tar".to_string(),
        zipball_url: "https://example.test/zip".to_string(),
    }
}

#[test]
fn the_first_wanted_release_is_selected() {
    let releases = || {
        vec![
            release("v3", true, vec![Some("sha256:abc")]),
            release("v2", false, vec![]),
            release(
                "v1",
                false,
                vec![Some("sha256:def"), Some("md5:1"), None, Some("sha256:sha256:x")],
            ),
        ]
    };
    assert_eq!(select_release(releases(), false, false).unwrap().tag_name, "v2");
    assert_eq!(select_release(releases(), false, true).unwrap().tag_name, "v3");
    let selected = select_release(releases(), true, false).unwrap();
    assert_eq!(selected.tag_name, "v1");
    let digests: Vec<Option<String>> =
        selected.assets.into_iter().map(|asset| asset.digest).collect();
    assert_eq!(
        digests,
        vec![
            Some("def".to_string()),
            Some("md5:1".to_string()),
            None,
            Some("sha256:x".to_string()),
        ]
    );
    assert_eq!(
        select_release(vec![release("v2", false, vec![])], true, false).unwrap_err(),
        "finding a prerelease"
    );
}

#[test]
fn answers_about_releases_are_read() {
    let body = b"gone".to_vec();
    assert_eq!(
        read_latest_release(404, &body, Err("x".to_string()), false, false).unwrap_err(),
        "status error 404, response: \"gone\""
    );
    assert_eq!(
        read_latest_release(500, &body, Err("x".to_string()), false, false).unwrap_err(),
        "error deserializing latest release: x"
    );
    assert_eq!(
        read_latest_release(200, &body, Ok(vec![release("v1", false, vec![])]), false, false)
            .unwrap()
            .tag_name,
        "v1"
    );
    assert_eq!(
        read_tagged_release(200, &body, Err("x".to_string())).unwrap_err(),
        "error deserializing GitHub release: x"
    );
    let tagged = read_tagged_release(200, &body, Ok(release("v1", false, vec![Some("sha256:a")])));
    assert_eq!(tagged.unwrap().assets[0].digest.as_deref(), Some("sha256:a"));
    assert_eq!(
        read_tagged_release(403, &body, Ok(release("v1", false, vec![]))).unwrap_err(),
        "status error 403, response: \"gone\""
    );
}

#[test]
fn releases_are_asked_for_with_a_token_if_there_is_one() {
    let request = latest_github_release("owner/repo", Some("secret")).unwrap();
    assert_eq!(request.uri, "https://api.github.com/repos/owner/repo/releases");
    assert_eq!(request.headers.len(), 1);
    assert_eq!(header(&request, "Authorization"), Some("Bearer secret"));
    let request = get_release_by_tag_name("owner/repo", "v1", None).unwrap();
    assert_eq!(
        request.uri,
        "https://api.github.com/repos/owner/repo/releases/tags/v1"
    );
    assert!(request.headers.is_empty());
    assert_eq!(request.redirect_policy, Some(RedirectPolicy::FollowAll));
}

#[test]
fn archive_urls_name_every_kind_and_report_failures() {
    assert_eq!(make_archive_name("v1", AssetKind::TarBz2), "v1.tar.bz2");
    assert_eq!(make_archive_name("v1", AssetKind::Gz), "v1.gz");
    assert_eq!(
        checked_build_asset_url("owner/repo", "100%", AssetKind::Gz),
        Some(Ok(
            "https://github.com/owner/repo/archive/refs/tags/100%25.gz".to_string()
        ))
    );
    assert_eq!(
        finish_asset_url(Err("bad".to_string()), None),
        Err("bad".to_string())
    );
    assert_eq!(
        finish_asset_url(Ok("https://a".to_string()), None),
        Err("cannot modify url path segments".to_string())
    );
}

#[test]
fn requests_that_http_does_not_allow_are_reported() {
    assert_eq!(
        pull_requests("owner /repo", None),
        Err("invalid uri character".to_string())
    );
    assert_eq!(
        viewer("line\nbreak"),
        Err("failed to parse header value".to_string())
    );
    assert!(viewer("tab\t\u{e9}").is_ok());
    assert_eq!(
        viewer("\u{7f}"),
        Err("failed to parse header value".to_string())
    );
    let named = |name: &str| HttpRequest::new(Method::Get, "/").header(name, "").validated();
    assert!(named("X-Ok_!#$%&'*+-.^`|~09").is_ok());
    for name in ["", "a b", "\u{e9}", "a:b", "(", "a\""] {
        assert_eq!(named(name), Err("invalid HTTP header name".to_string()));
    }
    assert!(named(&"a".repeat(0xffff)).is_ok());
    assert!(named(&"a".repeat(0x10000)).is_err());
}

#[test]
fn forms_escape_what_needs_it() {
    let request = request_device_code("*-._09azAZ", "a b&=+%\u{e9}~").unwrap();
    assert_eq!(
        request.body,
        "client_id=*-._09azAZ&scope=a+b%26%3D%2B%25%C3%A9%7E"
    );
}
