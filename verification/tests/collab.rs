use github_activity::cloud_api_types::{
    GitHubActivityItem, GitHubActivityKind, GitHubActivitySyncBatch, GitHubConnectedAccount,
};
use github_activity::collab_api::{
    fetch_github_repository_activity, get_github_json_page, get_status, get_token,
    github_next_link, github_page_request, router, sync_repository_activity, upsert_token,
    ApiError, Handler, Pagination, Reply, SetGitHubIntegrationRequest,
};
use github_activity::http_request::Method;
use github_activity::inbox::{
    get_github_inbox_items, github_activity_kind, github_activity_kind_from_db,
    github_inbox_item_to_dto, inbox_conflict_columns, inbox_order_columns, inbox_updated_columns,
    row_from_item,
    sync_github_inbox_items, InboxColumn, Model,
};
use github_activity::integrations::{
    checked_decrypt_access_token, checked_get_github_integration, decoded_parts,
    decrypt_access_token, encrypt_access_token, encrypt_with_nonce, encryption_key,
    get_github_integration, integration_conflict_column, integration_updated_columns,
    token_from_plaintext, upsert_github_integration, IntegrationColumn, IntegrationError,
};

fn account() -> GitHubConnectedAccount {
    GitHubConnectedAccount {
        login: "octocat".to_string(),
        scopes: vec!["repo".to_string(), "read:user".to_string()],
        access_token: "github-token".to_string(),
    }
}

fn github_activity_item(kind: GitHubActivityKind, source_id: &str) -> GitHubActivityItem {
    GitHubActivityItem {
        kind,
        source_id: source_id.to_string(),
        repository_name_with_owner: "owner/repo".to_string(),
        title: "GitHub activity".to_string(),
        body: Some("Body".to_string()),
        author_login: Some("octocat".to_string()),
        labels: vec!["bug".to_string()],
        url: "https://github.com/owner/repo/issues/1".to_string(),
        number: Some(1),
        state: Some("open".to_string()),
        draft: Some(false),
        updated_at: Some("2026-06-25T00:00:00Z".to_string()),
        workflow_run_id: Some(42),
        workflow_status: Some("completed".to_string()),
        workflow_conclusion: Some("success".to_string()),
        workflow_event: Some("push".to_string()),
        workflow_head_branch: Some("main".to_string()),
        workflow_head_sha: Some("0123456789abcdef".to_string()),
    }
}

fn store(table: &mut Vec<Model<u32, u64>>, rows: Vec<Model<u32, u64>>) {
    for row in rows {
        match table
            .iter_mut()
            .find(|kept| kept.user_id == row.user_id && kept.source_id == row.source_id)
        {
            Some(kept) => *kept = row,
            None => table.push(row),
        }
    }
}

#[test]
fn github_access_token_encryption_round_trips_without_plaintext() {
    let encrypted = encrypt_access_token("github-token", "secret").unwrap();

    assert!(!encrypted.contains("github-token"));
    assert_eq!(
        decrypt_access_token(&encrypted, "secret").unwrap(),
        "github-token"
    );
    assert!(decrypt_access_token(&encrypted, "wrong-secret").is_err());
}

#[test]
fn test_github_integration_round_trip() {
    let row = upsert_github_integration(
        "octocat".to_string(),
        vec!["repo".to_string(), "read:user".to_string()],
        "github-token".to_string(),
        "encryption-secret",
    )
    .unwrap();
    assert!(!row.encrypted_access_token.contains("github-token"));
    assert_eq!(row.scopes_json, r#"["repo","read:user"]"#);

    let found = get_github_integration(Some(row.clone()), "encryption-secret")
        .unwrap()
        .unwrap();
    assert_eq!(found.login, "octocat");
    assert_eq!(found.scopes, vec!["repo", "read:user"]);
    assert_eq!(found.access_token, "github-token");
    assert!(
        checked_get_github_integration(Some(row), "encryption-secret")
            == Some(Ok(Some(account())))
    );
    assert!(get_github_integration(None, "encryption-secret") == Ok(None));
}

#[test]
fn encryption_is_the_same_for_the_same_nonce() {
    let nonce = vec![7u8; 12];
    let once = encrypt_with_nonce("token", "secret", &nonce).unwrap();
    assert_eq!(encrypt_with_nonce("token", "secret", &nonce).unwrap(), once);
    let (text, _) = once.split_once(':').unwrap();
    assert_eq!(text, "BwcHBwcHBwcHBwcH");
    assert_ne!(
        encrypt_access_token("token", "secret").unwrap(),
        encrypt_access_token("token", "secret").unwrap()
    );
    let key: String = encryption_key("abc").iter().map(|byte| format!("{byte:02x}")).collect();
    assert_eq!(
        key,
        "ba7816bf8f01cfea414140de5dae2223b00361a396177a9cb410ff61f20015ad"
    );
}

#[test]
fn broken_tokens_are_told_apart() {
    let error = |encrypted: &str| checked_decrypt_access_token(encrypted, "secret");
    assert_eq!(error("nocolon"), Some(Err(IntegrationError::InvalidToken)));
    assert_eq!(error("***:AAAA"), Some(Err(IntegrationError::InvalidNonce)));
    assert_eq!(
        error("BwcHBwcHBwcHBwcH:*"),
        Some(Err(IntegrationError::InvalidCiphertext))
    );
    assert_eq!(
        error("BwcHBwcHBwcHBwcH:AAAA"),
        Some(Err(IntegrationError::DecryptionFailed))
    );
    assert_eq!(error("AAAA:AAAA"), None);
    assert_eq!(decoded_parts(None, None), Err(IntegrationError::InvalidNonce));
    assert_eq!(
        token_from_plaintext(Some(vec![0xff])),
        Err(IntegrationError::InvalidUtf8)
    );
    assert_eq!(
        token_from_plaintext(Some("é".as_bytes().to_vec())),
        Ok("é".to_string())
    );
    let mut row = upsert_github_integration(
        String::new(),
        Vec::new(),
        "token".to_string(),
        "secret",
    )
    .unwrap();
    row.scopes_json = "{}".to_string();
    assert!(get_github_integration(Some(row), "secret") == Err(IntegrationError::InvalidScopes));
    assert!(!IntegrationError::EncryptionFailed.message().is_empty());
}

#[test]
fn rows_meet_by_their_user() {
    assert_eq!(integration_conflict_column(), IntegrationColumn::UserId);
    assert_eq!(
        integration_updated_columns(),
        vec![
            IntegrationColumn::Login,
            IntegrationColumn::ScopesJson,
            IntegrationColumn::EncryptedAccessToken,
            IntegrationColumn::UpdatedAt,
        ]
    );
    assert_eq!(
        inbox_conflict_columns(),
        vec![InboxColumn::UserId, InboxColumn::SourceId]
    );
    assert_eq!(inbox_updated_columns().len(), 18);
    assert_eq!(
        inbox_order_columns(),
        vec![InboxColumn::UpdatedAt, InboxColumn::SourceId]
    );
}

#[test]
fn test_github_inbox_activity_sync() {
    let mut table = Vec::new();
    let rows = sync_github_inbox_items(
        1u32,
        10u64,
        GitHubActivitySyncBatch {
            repository_name_with_owner: "owner/repo".to_string(),
            items: vec![
                github_activity_item(GitHubActivityKind::Issue, "github:owner/repo:issue:1"),
                github_activity_item(
                    GitHubActivityKind::WorkflowRun,
                    "github:owner/repo:workflow_run:42",
                ),
            ],
        },
    )
    .unwrap();
    assert_eq!(rows.len(), 2);
    store(&mut table, rows);

    assert_eq!(table.len(), 2);
    assert_eq!(table[0].source_id, "github:owner/repo:issue:1");
    assert_eq!(table[0].kind, "issue");
    assert_eq!(table[0].repository_name_with_owner, "owner/repo");
    assert_eq!(table[0].labels_json, "[\"bug\"]");
    assert_eq!(table[1].kind, "workflow_run");
    assert_eq!(
        table[1].workflow_head_sha.as_deref(),
        Some("0123456789abcdef")
    );

    let mut updated = github_activity_item(GitHubActivityKind::Issue, "github:owner/repo:issue:1");
    updated.title = "Updated issue".to_string();
    updated.state = Some("closed".to_string());
    let rows = sync_github_inbox_items(
        1u32,
        11u64,
        GitHubActivitySyncBatch {
            repository_name_with_owner: "owner/repo".to_string(),
            items: vec![updated],
        },
    )
    .unwrap();
    store(&mut table, rows);

    assert_eq!(table.len(), 2);
    assert_eq!(table[0].title, "Updated issue");
    assert_eq!(table[0].state.as_deref(), Some("closed"));
    let response = get_github_inbox_items(table).unwrap();
    assert_eq!(response.items.len(), 2);
    assert_eq!(response.items[0].kind, GitHubActivityKind::Issue);
    assert_eq!(response.items[0].labels, vec!["bug"]);
    assert_eq!(response.items[1].workflow_run_id, Some(42));
}

#[test]
fn items_that_cannot_be_kept_or_read_are_reported() {
    let mut large = github_activity_item(GitHubActivityKind::PullRequest, "x");
    large.number = Some(u64::MAX);
    assert!(row_from_item(1u32, 2u64, large).is_err());

    let item = github_activity_item(GitHubActivityKind::PullRequest, "x");
    let row = row_from_item(1u32, 2u64, item).unwrap();
    assert_eq!(row.kind, "pull_request");
    let mut odd = row.clone();
    odd.kind = "odd".to_string();
    assert!(github_inbox_item_to_dto(odd).is_err());
    let mut unlabelled = row.clone();
    unlabelled.labels_json = "[1]".to_string();
    assert!(github_inbox_item_to_dto(unlabelled).is_err());
    let mut negative = row;
    negative.number = Some(-1);
    assert!(github_inbox_item_to_dto(negative).is_err());
    for kind in [
        GitHubActivityKind::Issue,
        GitHubActivityKind::PullRequest,
        GitHubActivityKind::WorkflowRun,
    ] {
        assert_eq!(github_activity_kind_from_db(github_activity_kind(&kind)), Ok(kind));
    }
}

#[test]
fn handlers_answer_for_what_is_connected() {
    let Reply::Json(status) = get_status(Some(account())) else {
        panic!("expected a status");
    };
    assert_eq!(status.login, "octocat");
    assert!(status.missing_scopes.is_empty());
    assert_eq!(get_status(None).status(), 204);
    assert!(get_token(Some(account())) == Reply::Json(account()));
    assert_eq!(get_token(Some(account())).status(), 200);
    assert!(get_token(None) == Reply::NoContent);

    let request = |login: &str, token: &str| SetGitHubIntegrationRequest {
        login: login.to_string(),
        scopes: vec![" repo ".to_string(), String::new()],
        access_token: token.to_string(),
    };
    let given = upsert_token(request(" octocat ", " token ")).unwrap();
    assert_eq!(given.login, "octocat");
    assert_eq!(given.access_token, "token");
    for broken in [request(" ", "token"), request("octocat", "\n")] {
        assert!(
            upsert_token(broken)
                == Err(ApiError::Http {
                    status: 400,
                    message: "GitHub login and access token are required".to_string(),
                })
        );
    }
    assert!(sync_repository_activity(Some(account()), true) == Ok(account()));
    assert!(
        sync_repository_activity(None, true)
            == Err(ApiError::Http {
                status: 409,
                message: "GitHub is not connected".to_string(),
            })
    );
    assert!(
        sync_repository_activity(Some(account()), false)
            == Err(ApiError::Internal {
                message: "HTTP client is unavailable".to_string(),
            })
    );
}

#[test]
fn pages_are_gathered_until_there_is_no_next_one() {
    let urls = fetch_github_repository_activity("owner/repo").unwrap();
    assert_eq!(
        urls.issues,
        "https://api.github.com/repos/owner/repo/issues?state=all&per_page=100&sort=updated&direction=desc"
    );
    assert_eq!(
        urls.workflow_runs,
        "https://api.github.com/repos/owner/repo/actions/runs?per_page=100&exclude_pull_requests=false"
    );
    assert!(fetch_github_repository_activity("  ").is_err());

    let pages = [(vec![1, 2], Some("second")), (vec![3], None)];
    let mut gathered = Pagination::new("first");
    let mut asked = Vec::new();
    for (page, next) in pages {
        asked.push(gathered.take_next_url().unwrap());
        gathered.accept(page, next.map(|next: &str| next.to_string()));
    }
    assert_eq!(asked, vec!["first", "second"]);
    assert_eq!(gathered.take_next_url(), None);
    assert_eq!(gathered.results, vec![1, 2, 3]);
}

#[test]
fn pages_are_asked_for_and_read() {
    let request = github_page_request("https://api.github.com/x", "token");
    assert_eq!(request.uri, "https://api.github.com/x");
    assert!(request
        .headers
        .contains(&("Authorization".to_string(), "Bearer token".to_string())));
    let link = r#"<https://api.github.com/x?page=2>; rel="next""#;
    assert_eq!(
        get_github_json_page(200, Some(link), &Vec::new(), Ok(1)),
        Ok((1, Some("https://api.github.com/x?page=2".to_string())))
    );
    assert_eq!(github_next_link(r#"<x>; rel="last""#), None);
    let failed = get_github_json_page::<u8>(404, None, &b"a\"b\n\r\t\\\0\x7f\xffz".to_vec(), Ok(1));
    let Err(ApiError::Http { status, message }) = failed else {
        panic!("expected a failure of the gateway");
    };
    assert_eq!(status, 502);
    assert_eq!(
        message,
        "GitHub returned status 404 Not Found, response: \
         b\"a\\\"b\\n\\r\\t\\\\\\0\\x7f\\xffz\""
    );
    assert!(matches!(
        get_github_json_page::<u8>(200, None, &Vec::new(), Err("EOF".to_string())),
        Err(ApiError::Internal { .. })
    ));
}

#[test]
fn routes_are_found_by_path_and_method() {
    let handler = |path: &str, method: Method| {
        router()
            .into_iter()
            .find(|route| route.endpoint.path() == path && route.method == method)
            .map(|route| route.handler)
    };
    let account = "/client/integrations/github";
    assert_eq!(handler(account, Method::Get), Some(Handler::GetStatus));
    assert_eq!(handler(account, Method::Delete), Some(Handler::Disconnect));
    assert_eq!(handler(account, Method::Post), None);
    let token = "/client/integrations/github/token";
    assert_eq!(handler(token, Method::Get), Some(Handler::GetToken));
    assert_eq!(handler(token, Method::Put), Some(Handler::UpsertToken));
    let activity = "/client/integrations/github/activity";
    assert_eq!(handler(activity, Method::Post), Some(Handler::SyncActivity));
    let sync = "/client/integrations/github/activity/sync";
    assert_eq!(
        handler(sync, Method::Post),
        Some(Handler::SyncRepositoryActivity)
    );
    assert_eq!(router().len(), 6);
}
