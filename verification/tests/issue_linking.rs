use github_activity::issue_linking::{
    add_matches, clip_highlights, remote_host, write_pieces, GitProvider, IssueLink,
    IssueLinkKind, IssueLinkingRule, IssueLinkingRules, IssueMatch, IssueUrlVariables, RawLink,
};

fn rule(name: &str, issue_regex: &str, issue_url: &str) -> IssueLinkingRule {
    IssueLinkingRule {
        name: Some(name.to_string()),
        issue_regex: issue_regex.to_string(),
        issue_url: issue_url.to_string(),
        enabled: true,
    }
}

fn github_variables() -> IssueUrlVariables {
    let text = |text: &str| Some(text.to_string());
    IssueUrlVariables {
        git_remote_url: text("git@github.com:zed-industries/zed.git"),
        git_remote_host: text("github.com"),
        git_remote_owner: text("zed-industries"),
        git_remote_repo: text("zed"),
        git_provider: text("GitHub"),
        git_provider_url: text("https://github.com"),
        github_host: text("github.com"),
        github_base_url: text("https://github.com"),
        github_org: text("zed-industries"),
        github_repo: text("zed"),
    }
}

fn raw(text: &str, url: &str) -> RawLink {
    let start = text.find(url).unwrap();
    RawLink {
        range: start..start + url.len(),
        url: url.to_string(),
    }
}

#[test]
fn test_multiple_issue_linking_rules() {
    let rules = IssueLinkingRules::new(&vec![
        rule("github", r"#(\d+)", "https://github.com/org/repo/issues/$1"),
        rule(
            "linear",
            r"(LIN-\d+)",
            "https://linear.app/company/issue/$1",
        ),
        rule(
            "jira",
            r"([A-Z][A-Z0-9]+-\d+)",
            "https://company.atlassian.net/browse/$1",
        ),
    ]);

    let links = rules.issue_links_for_text("Fix #123, LIN-456, and JIRA-789", Vec::new());
    assert_eq!(links.len(), 3);
    assert_eq!(links[0].range, 4..8);
    assert_eq!(links[0].url, "https://github.com/org/repo/issues/123");
    assert_eq!(links[1].range, 10..17);
    assert_eq!(links[1].url, "https://linear.app/company/issue/LIN-456");
    assert_eq!(links[2].range, 23..31);
    assert_eq!(links[2].url, "https://company.atlassian.net/browse/JIRA-789");
}

#[test]
fn test_first_issue_linking_rule_claims_overlapping_range() {
    let rules = IssueLinkingRules::new(&vec![
        rule(
            "jira",
            r"([A-Z][A-Z0-9]+-\d+)",
            "https://jira.test/browse/$1",
        ),
        rule("linear", r"([A-Z]+-\d+)", "https://linear.test/issue/$1"),
    ]);

    let links = rules.issue_links_for_text("Fix ABC-123", Vec::new());
    assert_eq!(links.len(), 1);
    assert_eq!(links[0].url, "https://jira.test/browse/ABC-123");
}

#[test]
fn test_invalid_rules_and_urls_are_skipped() {
    let rules = IssueLinkingRules::new(&vec![
        rule("invalid-regex", r"([", "https://invalid.test/$1"),
        rule("invalid-url", r"(BAD-\d+)", "not a url/$1"),
        IssueLinkingRule {
            enabled: false,
            ..rule("disabled", r"(OFF-\d+)", "https://disabled.test/$1")
        },
        rule("valid", r"(OK-\d+)", "https://valid.test/$1"),
    ]);

    let links = rules.issue_links_for_text("BAD-1 OFF-2 OK-3", Vec::new());
    assert_eq!(links.len(), 1);
    assert_eq!(links[0].range, 12..16);
    assert_eq!(links[0].url, "https://valid.test/OK-3");
}

#[test]
fn test_issue_url_expands_repository_variables_before_regex_captures() {
    let variables = github_variables();
    let rules = IssueLinkingRules::new_with_variables(
        &vec![rule(
            "github",
            r"#(\d+)",
            "$GITHUB_BASE_URL/$GITHUB_ORG/$GITHUB_REPO/issues/$1",
        )],
        &variables,
    );

    let links = rules.issue_links_for_text("Fix #123", Vec::new());
    assert_eq!(links.len(), 1);
    assert_eq!(links[0].url, "https://github.com/zed-industries/zed/issues/123");
}

#[test]
fn test_issue_url_expands_variables_with_shared_prefixes() {
    let variables = github_variables();
    let rules = IssueLinkingRules::new_with_variables(
        &vec![rule(
            "provider",
            r"#(\d+)",
            "https://links.test/?provider=$GIT_PROVIDER&base=$GIT_PROVIDER_URL&issue=$1",
        )],
        &variables,
    );

    let links = rules.issue_links_for_text("Fix #123", Vec::new());
    assert_eq!(links.len(), 1);
    assert_eq!(
        links[0].url,
        "https://links.test/?provider=GitHub&base=https://github.com&issue=123"
    );
}

#[test]
fn test_issue_url_skips_rules_with_missing_repository_variables() {
    let rules = IssueLinkingRules::new_with_variables(
        &vec![rule(
            "github",
            r"#(\d+)",
            "https://github.com/$GITHUB_ORG/$GITHUB_REPO/issues/$1",
        )],
        &IssueUrlVariables::default(),
    );

    assert!(rules.issue_links_for_text("Fix #123", Vec::new()).is_empty());
}

#[test]
fn test_issue_links_do_not_override_raw_urls() {
    let rules = IssueLinkingRules::new(&vec![rule(
        "linear",
        r"(ABC-\d+)",
        "https://linear.test/issue/$1",
    )]);

    let text = "See https://example.test/ABC-1 and ABC-1";
    let links = rules.issue_links_for_text(text, vec![raw(text, "https://example.test/ABC-1")]);
    assert_eq!(links.len(), 1);
    assert_eq!(links[0].range, 35..40);
}

#[test]
fn test_issue_linked_markdown_preserves_rendered_text() {
    let rules = IssueLinkingRules::new(&vec![rule(
        "linear",
        r"(ABC-\d+)",
        "https://linear.test/issue/$1",
    )]);
    let source = "Fix *ABC-123* and keep https://example.test/ABC-999";
    let pieces = rules
        .linked_markdown_source(source, vec![raw(source, "https://example.test/ABC-999")])
        .expect("an issue should be found");

    let rendered: String = pieces.iter().map(|piece| piece.text.as_str()).collect();
    assert_eq!(rendered, source);
    let urls: Vec<&str> = pieces.iter().filter_map(|piece| piece.url.as_deref()).collect();
    assert_eq!(
        urls,
        vec![
            "https://linear.test/issue/ABC-123",
            "https://example.test/ABC-999",
        ]
    );
    assert_eq!(rules.linked_markdown_source("Nothing here", Vec::new()), None);
}

#[test]
fn test_remote_host_parses_https_and_ssh_remotes() {
    assert_eq!(
        remote_host("https://github.com/zed-industries/zed.git").as_deref(),
        Some("github.com")
    );
    assert_eq!(
        remote_host("git@github.com:zed-industries/zed.git").as_deref(),
        Some("github.com")
    );
}

#[test]
fn written_markdown_links_its_targets() {
    let rules = IssueLinkingRules::new(&vec![rule(
        "linear",
        r"(ABC-\d+)",
        "https://linear.test/issue/$1",
    )]);
    let pieces = rules.linked_markdown_source("Fix ABC-1 now", Vec::new()).unwrap();
    assert_eq!(
        write_pieces(&pieces),
        "Fix [ABC-1](<https://linear.test/issue/ABC-1>) now"
    );
}

#[test]
fn an_empty_url_range_keeps_its_place() {
    let rules = IssueLinkingRules::new(&vec![rule(
        "linear",
        r"(ABC-\d+)",
        "https://linear.test/issue/$1",
    )]);
    let source = "ABC-1 now";
    let empty = |at: usize| RawLink {
        range: at..at,
        url: "https://example.test".to_string(),
    };
    let pieces = rules
        .linked_markdown_source(source, vec![empty(0), empty(5), empty(9)])
        .unwrap();
    assert_eq!(
        write_pieces(&pieces),
        "[](<https://example.test>)[ABC-1](<https://linear.test/issue/ABC-1>)\
         [](<https://example.test>) now[](<https://example.test>)"
    );
}

#[test]
fn labels_are_cut_into_segments() {
    let rules = IssueLinkingRules::new(&vec![rule(
        "github",
        r"#(\d+)",
        "https://github.com/o/r/issues/$1",
    )]);
    let segments = rules.render_label("é #1 b", Vec::new(), &vec![(0, 4), (5, 7)]);
    let texts: Vec<&str> = segments.iter().map(|segment| segment.text.as_str()).collect();
    assert_eq!(texts, vec!["é ", "#1", " b"]);
    assert_eq!(segments[0].highlights, vec![(0, 3)]);
    assert_eq!(segments[1].highlights, vec![(0, 1)]);
    assert_eq!(segments[2].highlights, vec![(0, 2)]);
    assert_eq!(
        segments[1].link.as_ref().unwrap().url,
        "https://github.com/o/r/issues/1"
    );
    assert_eq!(clip_highlights(&vec![(0, 10), (3, 4), (8, 9)], 2, 6), vec![(0, 4), (1, 2)]);
}

#[test]
fn earlier_links_keep_their_place() {
    let link = |start: usize, end: usize| IssueLink {
        range: start..end,
        url: "https://first.test".to_string(),
        kind: IssueLinkKind::RawUrl,
    };
    let found = |start: usize, end: usize| IssueMatch {
        range: start..end,
        url: Some("https://second.test".to_string()),
    };
    let links = add_matches(vec![link(2, 4)], vec![found(3, 5), found(4, 6), found(5, 7)]);
    let ranges: Vec<(usize, usize)> =
        links.iter().map(|link| (link.range.start, link.range.end)).collect();
    assert_eq!(ranges, vec![(2, 4), (4, 6)]);
}

#[test]
fn rules_of_the_project_replace_the_global_ones() {
    let provider = || GitProvider {
        name: "GitHub".to_string(),
        base_url: "https://github.com/".to_string(),
        owner: "zed-industries".to_string(),
        repo: "zed".to_string(),
    };
    let global = || vec![rule("global", r"#(\d+)", "https://global.test/$1")];
    let remote = Some("git@github.com:zed-industries/zed.git");
    let rules = IssueLinkingRules::for_repository(None, global(), remote, Some(provider()));
    assert_eq!(
        rules.issue_links_for_text("#1", Vec::new())[0].url,
        "https://global.test/1"
    );
    let project = vec![rule("project", r"#(\d+)", "https://$GIT_REMOTE_HOST/$GITHUB_ORG/$1")];
    let rules =
        IssueLinkingRules::for_repository(Some(project), global(), remote, Some(provider()));
    assert_eq!(
        rules.issue_links_for_text("#1", Vec::new())[0].url,
        "https://github.com/zed-industries/1"
    );
    let variables = IssueUrlVariables::from_remote_url(remote, Some(provider()));
    assert_eq!(variables.git_provider_url.as_deref(), Some("https://github.com"));
    assert_eq!(variables.expand_template("$GITHUB_REPO").as_deref(), Some("zed"));
    let none = IssueUrlVariables::from_remote_url(None, None);
    assert_eq!(none, IssueUrlVariables::default());
    assert_eq!(none.expand_template("$GITHUB_REPO"), None);
    assert_eq!(none.expand_template("plain $1").as_deref(), Some("plain $1"));
}
