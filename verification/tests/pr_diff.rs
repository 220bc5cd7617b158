use github_activity::github::types::{
    GitHubPullRequest, GitHubPullRequestBranch, GitHubPullRequestFile, GitHubRepositoryRef,
    GitHubUser,
};
use github_activity::pr_diff::{
    branch_repo_name, can_parse_patch, existing_view, file_content_request, file_revisions,
    github_pr_diff_totals, parse_github_pr_diff_file, parse_unified_patch_text,
    path_key_for_file, plan_diff, resolve_github_pr_diff_file,
    resolve_github_pr_diff_file_content, GitHubPrDiffFile, GitHubPrDiffView, RelativePath,
    ResolvedFile,
};

fn file(status: &str, patch: Option<&str>) -> GitHubPullRequestFile {
    GitHubPullRequestFile {
        filename: "src/main.rs".to_string(),
        status: status.to_string(),
        previous_filename: None,
        additions: 1,
        deletions: 1,
        changes: 2,
        patch: patch.map(ToString::to_string),
    }
}

fn relative(path: &str) -> RelativePath {
    RelativePath {
        path: path.to_string(),
        file_name: path.rsplit('/').next().map(ToString::to_string),
    }
}

fn diff_file(index: usize, filename: &str) -> GitHubPrDiffFile {
    GitHubPrDiffFile {
        filename: filename.to_string(),
        old_filename: filename.to_string(),
        status: "modified".to_string(),
        additions: index as u32 + 1,
        deletions: index as u32,
        path_key: path_key_for_file(index, &relative(filename)),
        unsupported_reason: None,
        preview_note: None,
    }
}

fn branch(ref_name: &str, sha: &str, repository: &str) -> GitHubPullRequestBranch {
    GitHubPullRequestBranch {
        ref_name: ref_name.to_string(),
        sha: sha.to_string(),
        repo: Some(GitHubRepositoryRef {
            full_name: repository.to_string(),
            clone_url: None,
            ssh_url: None,
        }),
    }
}

fn pull() -> GitHubPullRequest {
    GitHubPullRequest {
        number: 7,
        title: "Improve graph".to_string(),
        html_url: "https://github.com/owner/repo/pull/7".to_string(),
        state: "open".to_string(),
        user: GitHubUser {
            login: "octo".to_string(),
        },
        base: branch("main", "base-sha", "owner/repo"),
        head: branch("feature", "head-sha", "fork/repo"),
        draft: false,
        updated_at: None,
        created_at: None,
        labels: Vec::new(),
        body: None,
        requested_reviewers: Vec::new(),
        comments: 0,
        review_comments: 0,
        commits: None,
        changed_files: None,
        additions: None,
        deletions: None,
    }
}

fn request_uris(file: &GitHubPullRequestFile, token: Option<&str>) -> Vec<String> {
    let (old, new) = file_revisions("owner/repo", &pull(), file);
    old.iter()
        .chain(new.iter())
        .map(|revision| file_content_request(revision, token).unwrap().uri)
        .collect()
}

#[test]
fn test_parse_modified_patch_reconstructs_old_and_new_text() {
    let parsed = parse_github_pr_diff_file(&file(
        "modified",
        Some("@@ -1,3 +1,3 @@\n fn main() {\n-old();\n+new();\n }"),
    ));

    assert_eq!(parsed.old_text, "fn main() {\nold();\n}\n");
    assert_eq!(parsed.new_text, "fn main() {\nnew();\n}\n");
    assert_eq!(parsed.unsupported_reason, None);
}

#[test]
fn test_parse_added_patch_has_empty_old_text() {
    let parsed = parse_github_pr_diff_file(&GitHubPullRequestFile {
        filename: "src/new.rs".to_string(),
        status: "added".to_string(),
        previous_filename: None,
        additions: 2,
        deletions: 0,
        changes: 2,
        patch: Some("@@ -0,0 +1,2 @@\n+one\n+two".to_string()),
    });

    assert_eq!(parsed.old_text, "");
    assert_eq!(parsed.new_text, "one\ntwo\n");
    assert_eq!(parsed.unsupported_reason, None);
}

#[test]
fn test_parse_deleted_patch_has_empty_new_text() {
    let parsed = parse_github_pr_diff_file(&GitHubPullRequestFile {
        filename: "src/old.rs".to_string(),
        status: "removed".to_string(),
        previous_filename: None,
        additions: 0,
        deletions: 2,
        changes: 2,
        patch: Some("@@ -1,2 +0,0 @@\n-one\n-two".to_string()),
    });

    assert_eq!(parsed.old_text, "one\ntwo\n");
    assert_eq!(parsed.new_text, "");
    assert_eq!(parsed.unsupported_reason, None);
}

#[test]
fn test_parse_renamed_patch_uses_previous_filename() {
    let parsed = parse_github_pr_diff_file(&GitHubPullRequestFile {
        filename: "src/new.rs".to_string(),
        status: "renamed".to_string(),
        previous_filename: Some("src/old.rs".to_string()),
        additions: 1,
        deletions: 1,
        changes: 2,
        patch: Some("@@ -1 +1 @@\n-old\n+new".to_string()),
    });

    assert_eq!(parsed.old_filename, "src/old.rs");
    assert_eq!(parsed.filename, "src/new.rs");
    assert_eq!(parsed.old_text, "old\n");
    assert_eq!(parsed.new_text, "new\n");
}

#[test]
fn test_missing_patch_is_unsupported() {
    let parsed = parse_github_pr_diff_file(&file("modified", None));

    assert_eq!(
        parsed.unsupported_reason.as_deref(),
        Some("Binary file or diff too large to display")
    );
}

#[test]
fn test_github_pr_diff_totals_format_header_stats() {
    let files = vec![
        diff_file(0, "src/main.rs"),
        diff_file(1, "src/lib.rs"),
        diff_file(2, "README.md"),
    ];

    assert_eq!(github_pr_diff_totals(&files), (3, 6, 3));
}

#[test]
fn test_resolve_modified_file_uses_full_base_and_head_content() {
    let changed = file("modified", Some("@@ -1 +1 @@\n-old\n+new"));
    let parsed = resolve_github_pr_diff_file_content(
        &changed,
        Some(Ok("fn main() {\n    old();\n}\n".to_string())),
        Some(Ok("fn main() {\n    new();\n}\n".to_string())),
    )
    .expect("full file content should resolve");

    assert_eq!(parsed.old_text, "fn main() {\n    old();\n}\n");
    assert_eq!(parsed.new_text, "fn main() {\n    new();\n}\n");
    assert_eq!(parsed.preview_note, None);
    assert_eq!(
        request_uris(&changed, Some("secret")),
        vec![
            "https://api.github.com/repos/owner/repo/contents/src/main.rs?ref=base-sha",
            "https://api.github.com/repos/fork/repo/contents/src/main.rs?ref=head-sha",
        ]
    );
}

#[test]
fn test_resolve_renamed_file_uses_previous_filename_for_base() {
    let renamed = GitHubPullRequestFile {
        filename: "src/new.rs".to_string(),
        status: "renamed".to_string(),
        previous_filename: Some("src/old.rs".to_string()),
        additions: 1,
        deletions: 1,
        changes: 2,
        patch: Some("@@ -1 +1 @@\n-old\n+new".to_string()),
    };
    let parsed = resolve_github_pr_diff_file_content(
        &renamed,
        Some(Ok("old name\n".to_string())),
        Some(Ok("new name\n".to_string())),
    )
    .expect("renamed file content should resolve");

    assert_eq!(parsed.old_filename, "src/old.rs");
    assert_eq!(parsed.old_text, "old name\n");
    assert_eq!(parsed.new_text, "new name\n");
    assert_eq!(
        request_uris(&renamed, None),
        vec![
            "https://api.github.com/repos/owner/repo/contents/src/old.rs?ref=base-sha",
            "https://api.github.com/repos/fork/repo/contents/src/new.rs?ref=head-sha",
        ]
    );
}

#[test]
fn test_resolve_file_falls_back_to_patch_preview() {
    let parsed = resolve_github_pr_diff_file(
        &file("modified", Some("@@ -1 +1 @@\n-old\n+new")),
        Err("GitHub returned status 404, response: \"{}\"".to_string()),
    );

    assert_eq!(parsed.old_text, "old\n");
    assert_eq!(parsed.new_text, "new\n");
    assert_eq!(parsed.preview_note.as_deref(), Some("Patch preview"));
}

#[test]
fn added_and_removed_files_have_one_revision() {
    assert_eq!(
        request_uris(&file("added", None), None),
        vec!["https://api.github.com/repos/fork/repo/contents/src/main.rs?ref=head-sha"]
    );
    assert_eq!(
        request_uris(&file("removed", None), None),
        vec!["https://api.github.com/repos/owner/repo/contents/src/main.rs?ref=base-sha"]
    );
}

#[test]
fn a_branch_without_a_repository_is_in_the_base() {
    let mut gone = branch("feature", "sha", "fork/repo");
    assert_eq!(branch_repo_name(&gone, "owner/repo"), "fork/repo");
    gone.repo = None;
    assert_eq!(branch_repo_name(&gone, "owner/repo"), "owner/repo");
}

#[test]
fn patches_may_hold_markers_and_lines_of_their_own() {
    assert_eq!(
        parse_unified_patch_text("@@ -1 +1 @@\n-old\n\\ No newline at end of file\n+new\n\n"),
        Ok(("old\n".to_string(), "new\n".to_string()))
    );
    assert!(parse_unified_patch_text("@@ -1 +1 @@\n*odd").is_err());
    assert!(can_parse_patch("@@ -1 +1 @@\n-old"));
    assert!(!can_parse_patch("@@ -1 +1 @@\n\u{e9}"));
    let parsed = parse_github_pr_diff_file(&file("modified", Some("@@ -1 +1 @@\n*odd")));
    assert!(parsed.unsupported_reason.is_some());
    assert_eq!(parsed.old_text, "");
}

#[test]
fn files_are_planned_in_the_order_of_the_pull_request() {
    let resolved = |index: usize, name: &str| ResolvedFile {
        index,
        parsed: parse_github_pr_diff_file(&GitHubPullRequestFile {
            filename: name.to_string(),
            ..file("removed", Some("@@ -1 +0,0 @@\n-old"))
        }),
        path: Ok(relative(name)),
    };
    let (files, entries) =
        plan_diff(vec![resolved(1, "b/second.rs"), resolved(0, "a/first.rs")]).unwrap();
    assert_eq!(files[0].filename, "a/first.rs");
    assert_eq!(files[1].path_key.sort_prefix, 1);
    assert_eq!(files[1].path_key.path, "b/second.rs");
    assert_eq!(entries[0].display_name, "first.rs");
    assert!(entries[0].is_removed);
    assert_eq!(entries[0].old_text, "old\n");

    let broken = ResolvedFile {
        path: Err("not relative".to_string()),
        ..resolved(0, "/x")
    };
    assert_eq!(plan_diff(vec![broken]), Err("not relative".to_string()));
}

#[test]
fn views_say_what_they_show() {
    let mut view = GitHubPrDiffView::new(
        "owner/repo".to_string(),
        7,
        "Improve graph".to_string(),
        vec![diff_file(1, "a"), diff_file(2, "b")],
    );
    assert_eq!(view.title(), "#7 Changes");
    assert_eq!(view.tab_tooltip_text(), "owner/repo #7");
    let header = view.render_header();
    assert_eq!(header.number, "#7");
    assert_eq!(header.file_count, "2 files");
    assert_eq!(header.additions, "+5");
    assert_eq!(header.deletions, "-3");
    assert!(view.shows("owner/repo", 7) && !view.shows("owner/repo", 8));
    let views = vec![view.clone(), view.clone()];
    assert_eq!(existing_view(&views, "owner/repo", 7), Some(0));
    assert_eq!(existing_view(&views, "other/repo", 7), None);
    view.rebuild("owner/repo".to_string(), 8, "Other".to_string(), Vec::new());
    assert_eq!(view.title(), "#8 Changes");
    assert!(view.files.is_empty());
}

#[test]
fn a_pull_request_is_shown_in_one_view() {
    let resolved = |name: &str| ResolvedFile {
        index: 0,
        parsed: parse_github_pr_diff_file(&GitHubPullRequestFile {
            filename: name.to_string(),
            ..file("modified", Some("@@ -1 +1 @@\n-old\n+new"))
        }),
        path: Ok(relative(name)),
    };
    let mut views = Vec::new();
    let build = |views: &mut Vec<GitHubPrDiffView>, repository: &str, name: &str, ready| {
        GitHubPrDiffView::build(
            views,
            repository.to_string(),
            &pull(),
            vec![resolved(name)],
            ready,
        )
    };
    assert_eq!(
        build(&mut views, "owner/repo", "a.rs", false),
        Err("project has no worktrees".to_string())
    );
    assert!(views.is_empty());
    assert_eq!(build(&mut views, "owner/repo", "a.rs", true).unwrap().view, 0);
    assert_eq!(build(&mut views, "owner/other", "b.rs", true).unwrap().view, 1);
    let built = build(&mut views, "owner/repo", "c.rs", true).unwrap();
    assert_eq!(built.view, 0);
    assert_eq!(built.entries[0].new_text, "new\n");
    assert_eq!(views.len(), 2);
    assert_eq!(views[0].files[0].filename, "c.rs");
    assert_eq!(views[1].files[0].filename, "b.rs");
}
