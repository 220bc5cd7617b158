use github_activity::cloud_api_types::{
    write_account, GitHubConnectedAccount, LlmToken, SystemSettings, UpdateSystemSettingsBody,
    GITHUB_REQUIRED_OAUTH_SCOPES, MAX_EDIT_PREDICTION_SETTLED_PER_REQUEST,
    ZED_SYSTEM_ID_HEADER_NAME,
};
use serde_json::Value;

#[test]
fn github_connected_account_debug_redacts_token() {
    let account = GitHubConnectedAccount {
        login: "octo".to_string(),
        scopes: vec!["repo".to_string(), "read:user".to_string()],
        access_token: "github-secret-token".to_string(),
    };

    let formatted = account.debug_text();
    assert!(formatted.contains("octo"));
    assert!(formatted.contains("<redacted>"));
    assert!(!formatted.contains("github-secret-token"));
}

#[test]
fn github_connected_account_reports_missing_required_scopes() {
    let account = GitHubConnectedAccount {
        login: "octo".to_string(),
        scopes: vec!["repo".to_string(), "read:user".to_string()],
        access_token: "github-secret-token".to_string(),
    };
    assert!(account.missing_required_scopes().is_empty());

    let account = GitHubConnectedAccount {
        scopes: vec!["read:user".to_string()],
        ..account.clone()
    };
    assert_eq!(account.missing_required_scopes(), vec!["repo"]);

    let account = GitHubConnectedAccount {
        scopes: vec!["repo".to_string()],
        ..account
    };
    assert_eq!(account.missing_required_scopes(), vec!["read:user"]);
}

#[test]
fn github_required_oauth_scopes_match_integration_contract() {
    assert_eq!(GITHUB_REQUIRED_OAUTH_SCOPES, &["repo", "read:user"]);
}

#[test]
fn github_connected_account_status_excludes_token() {
    let account = GitHubConnectedAccount {
        login: "octo".to_string(),
        scopes: vec!["read:user".to_string()],
        access_token: "github-secret-token".to_string(),
    };

    let status = account.to_status();
    assert_eq!(status.login, "octo");
    assert_eq!(status.scopes, vec!["read:user"]);
    assert_eq!(status.missing_scopes, vec!["repo"]);

    let mut object = serde_json::Map::new();
    object.insert("login".to_string(), Value::from(status.login.clone()));
    object.insert("scopes".to_string(), Value::from(status.scopes.clone()));
    object.insert(
        "missing_scopes".to_string(),
        Value::from(status.missing_scopes.clone()),
    );
    let json = Value::Object(object);
    let expected: Value = serde_json::from_str(
        r#"{
            "login": "octo",
            "scopes": ["read:user"],
            "missing_scopes": ["repo"]
        }"#,
    )
    .unwrap();
    assert_eq!(json, expected);
    assert!(!json.to_string().contains("github-secret-token"));
    assert!(!format!("{status:?}").contains("github-secret-token"));
}

#[test]
fn debug_text_quotes_login_and_scopes() {
    let account = GitHubConnectedAccount {
        login: "o\"c\n".to_string(),
        scopes: vec!["repo".to_string(), "a\tb".to_string()],
        access_token: "t".to_string(),
    };
    assert_eq!(
        account.debug_text(),
        "GitHubConnectedAccount { login: \"o\\\"c\\n\", scopes: [\"repo\", \"a\\tb\"], \
         access_token: \"<redacted>\" }"
    );
    assert_eq!(
        write_account("\"octo\"", &Vec::new()),
        "GitHubConnectedAccount { login: \"octo\", scopes: [], access_token: \"<redacted>\" }"
    );
}

#[test]
fn plain_types_hold_what_they_are_given() {
    assert_eq!(ZED_SYSTEM_ID_HEADER_NAME, "x-zed-system-id");
    assert_eq!(MAX_EDIT_PREDICTION_SETTLED_PER_REQUEST, 32);
    assert_eq!(LlmToken("t".to_string()).0, "t");
    assert_eq!(SystemSettings::default().selected_organization_id, None);
    assert_eq!(UpdateSystemSettingsBody::default().selected_organization_id, None);
}
