use github_activity::cloud_api_client::{
    choose_socket_scheme, make_connect_url, read_optional_response, read_response_body,
    read_response_json, read_validity, send_authenticated_json_request,
    send_authenticated_request, validate_credentials, ClientApiError, CloudApiClient, CloudUrls,
    Endpoint, FeedbackError, HttpReply,
};
use github_activity::cloud_api_types::{GitHubConnectedAccount, GitHubIntegrationStatus};
use github_activity::http_request::{is_client_error, is_success, HttpRequest, Method};
use serde_json::Value;

const HOST: &str = "cloud.zed.dev";

fn url(endpoint: Endpoint) -> Result<String, String> {
    Ok(format!("https://{HOST}{}", endpoint.path()))
}

fn urls() -> CloudUrls {
    CloudUrls {
        root: url(Endpoint::Root),
        authenticated_user: url(Endpoint::AuthenticatedUser),
        github_connected_account: url(Endpoint::GitHubConnectedAccount),
        github_integration: url(Endpoint::GitHubIntegration),
        github_inbox: url(Endpoint::GitHubInbox),
        github_activity: url(Endpoint::GitHubActivity),
        github_repository_activity: url(Endpoint::GitHubRepositoryActivity),
        connect: url(Endpoint::Connect),
        llm_tokens: url(Endpoint::LlmTokens),
        system_settings: url(Endpoint::SystemSettings),
        agent_feedback: url(Endpoint::AgentFeedback),
        agent_feedback_comments: url(Endpoint::AgentFeedbackComments),
        edit_prediction_feedback: url(Endpoint::EditPredictionFeedback),
    }
}

fn path(request: &HttpRequest) -> String {
    url::Url::parse(&request.uri).unwrap().path().to_string()
}

fn header<'a>(request: &'a HttpRequest, name: &str) -> Option<&'a str> {
    request
        .headers
        .iter()
        .find(|(header, _)| header == name)
        .map(|(_, value)| value.as_str())
}

fn reply(status: u16, body: &str) -> Result<HttpReply, String> {
    Ok(HttpReply {
        status,
        body: Ok(body.to_string()),
    })
}

fn client(user_id: u32) -> CloudApiClient {
    let mut client = CloudApiClient::new();
    client.set_credentials(user_id, "rezed-token".to_string());
    client
}

fn texts(value: &Value) -> Vec<String> {
    value
        .as_array()
        .unwrap()
        .iter()
        .map(|text| text.as_str().unwrap().to_string())
        .collect()
}

fn parse_account(body: &str) -> Result<Option<GitHubConnectedAccount>, String> {
    let value: Value = serde_json::from_str(body).map_err(|error| error.to_string())?;
    Ok(value.as_object().map(|_| GitHubConnectedAccount {
        login: value["login"].as_str().unwrap().to_string(),
        scopes: texts(&value["scopes"]),
        access_token: value["access_token"].as_str().unwrap().to_string(),
    }))
}

fn parse_status(body: &str) -> Result<Option<GitHubIntegrationStatus>, String> {
    let value: Value = serde_json::from_str(body).map_err(|error| error.to_string())?;
    Ok(value.as_object().map(|_| GitHubIntegrationStatus {
        login: value["login"].as_str().unwrap().to_string(),
        scopes: texts(&value["scopes"]),
        missing_scopes: texts(&value["missing_scopes"]),
    }))
}

#[test]
fn test_fetch_github_connected_account() {
    let client = client(42);
    let request = client
        .fetch_github_connected_account(&urls())
        .expect("request should build");
    assert_eq!(path(&request), "/client/integrations/github/token");
    assert_eq!(header(&request, "Authorization"), Some("42 rezed-token"));

    let body =
        r#"{"login": "octo", "scopes": ["repo", "read:user"], "access_token": "github-token"}"#;
    let account = read_optional_response(reply(200, body), HOST, parse_account(body))
        .expect("request should succeed")
        .expect("account should be connected");

    assert_eq!(account.login, "octo");
    assert_eq!(account.scopes, vec!["repo", "read:user"]);
    assert_eq!(account.access_token, "github-token");
}

#[test]
fn test_fetch_github_connected_account_returns_none_when_disconnected() {
    for status in [204, 404] {
        let client = client(7);
        let request = client
            .fetch_github_connected_account(&urls())
            .expect("request should build");
        assert_eq!(path(&request), "/client/integrations/github/token");

        let account = read_optional_response(reply(status, ""), HOST, parse_account(""))
            .expect("request should succeed");
        assert!(account.is_none());
    }
}

#[test]
fn test_fetch_github_connected_account_requires_credentials() {
    let client = CloudApiClient::new();
    let error = client
        .fetch_github_connected_account(&urls())
        .expect_err("missing credentials should fail before request");

    assert!(matches!(error, ClientApiError::NotSignedIn));
}

#[test]
fn test_fetch_github_integration_status() {
    let client = client(42);
    let request = client
        .fetch_github_integration_status(&urls())
        .expect("request should build");
    assert_eq!(request.method, Method::Get);
    assert_eq!(path(&request), "/client/integrations/github");
    assert_eq!(header(&request, "Authorization"), Some("42 rezed-token"));

    let body = r#"{"login": "octo", "scopes": ["repo", "read:user"], "missing_scopes": []}"#;
    let status = read_optional_response(reply(200, body), HOST, parse_status(body))
        .expect("request should succeed")
        .expect("account should be connected");

    assert_eq!(status.login, "octo");
    assert_eq!(status.scopes, vec!["repo", "read:user"]);
    assert!(status.missing_scopes.is_empty());
}

#[test]
fn test_fetch_github_integration_status_returns_none_when_disconnected() {
    let client = client(42);
    let request = client
        .fetch_github_integration_status(&urls())
        .expect("request should build");
    assert_eq!(path(&request), "/client/integrations/github");

    let status = read_optional_response(reply(204, ""), HOST, parse_status(""))
        .expect("request should succeed");
    assert_eq!(status, None);
}

#[test]
fn test_fetch_github_inbox_items() {
    let client = client(42);
    let request = client
        .fetch_github_inbox_items(&urls(), 25)
        .expect("request should build");
    assert_eq!(request.method, Method::Get);
    assert_eq!(path(&request), "/client/integrations/github/inbox");
    assert_eq!(
        url::Url::parse(&request.uri).unwrap().query(),
        Some("limit=25")
    );
    assert_eq!(header(&request, "Authorization"), Some("42 rezed-token"));
    assert_eq!(
        client.checked_fetch_github_inbox_items(&urls(), 25),
        Some(Ok(request))
    );

    let body = r#"{
        "items": [{
            "source_id": "github:owner/repo:issue:1",
            "kind": "issue",
            "repository_name_with_owner": "owner/repo",
            "title": "Issue",
            "body": null,
            "author_login": "octocat",
            "labels": ["bug"],
            "url": "https://github.com/owner/repo/issues/1",
            "number": 1,
            "state": "open",
            "draft": null,
            "updated_at": "2026-06-25T00:00:00Z",
            "workflow_run_id": null,
            "workflow_status": null,
            "workflow_conclusion": null,
            "workflow_event": null,
            "workflow_head_branch": null,
            "workflow_head_sha": null
        }]
    }"#;
    let parsed: Result<Value, String> =
        serde_json::from_str(body).map_err(|error: serde_json::Error| error.to_string());
    let response = send_authenticated_json_request(reply(200, body), HOST, parsed)
        .expect("request should succeed");
    assert_eq!(response["items"].as_array().unwrap().len(), 1);
    assert_eq!(response["items"][0]["source_id"], "github:owner/repo:issue:1");
}

#[test]
fn test_sync_github_activity_posts_authenticated_batch() {
    let client = client(42);
    let body = r#"{
        "repository_name_with_owner": "owner/repo",
        "items": [{
            "kind": "issue",
            "source_id": "github:owner/repo:issue:1",
            "repository_name_with_owner": "owner/repo",
            "title": "Issue",
            "body": null,
            "author_login": "octocat",
            "labels": ["bug"],
            "url": "https://github.com/owner/repo/issues/1",
            "number": 1,
            "state": "open",
            "draft": null,
            "updated_at": "2026-06-25T00:00:00Z",
            "workflow_run_id": null,
            "workflow_status": null,
            "workflow_conclusion": null,
            "workflow_event": null,
            "workflow_head_branch": null,
            "workflow_head_sha": null
        }]
    }"#;
    let request = client
        .sync_github_activity(&urls(), body.to_string())
        .expect("request should build");
    assert_eq!(request.method, Method::Post);
    assert_eq!(path(&request), "/client/integrations/github/activity");
    assert_eq!(header(&request, "Authorization"), Some("42 rezed-token"));
    send_authenticated_request(reply(204, ""), HOST).expect("sync request should succeed");

    let body: Value = serde_json::from_str(&request.body).unwrap();
    assert_eq!(body["repository_name_with_owner"], "owner/repo");
    assert_eq!(body["items"][0]["kind"], "issue");
    assert_eq!(body["items"][0]["source_id"], "github:owner/repo:issue:1");
}

#[test]
fn test_sync_github_repository_activity_posts_authenticated_request() {
    let client = client(42);
    let request = client
        .sync_github_repository_activity(
            &urls(),
            r#"{"repository_name_with_owner":"owner/repo"}"#.to_string(),
        )
        .expect("request should build");
    assert_eq!(request.method, Method::Post);
    assert_eq!(path(&request), "/client/integrations/github/activity/sync");
    assert_eq!(header(&request, "Authorization"), Some("42 rezed-token"));
    send_authenticated_request(reply(204, ""), HOST).expect("sync request should succeed");

    let body: Value = serde_json::from_str(&request.body).unwrap();
    assert_eq!(body["repository_name_with_owner"], "owner/repo");
}

#[test]
fn test_disconnect_github_integration_posts_authenticated_request() {
    let client = client(42);
    let request = client
        .disconnect_github_integration(&urls())
        .expect("request should build");
    assert_eq!(request.method, Method::Delete);
    assert_eq!(path(&request), "/client/integrations/github");
    assert_eq!(header(&request, "Authorization"), Some("42 rezed-token"));
    send_authenticated_request(reply(204, ""), HOST).expect("disconnect request should succeed");
}

#[test]
fn credentials_can_be_set_and_cleared() {
    let mut client = CloudApiClient::new();
    assert!(!client.has_credentials());
    client.set_credentials(1, "a".to_string());
    assert!(client.has_credentials());
    client.set_credentials(2, "b".to_string());
    let request = client
        .get_authenticated_user(&urls(), Some("system"))
        .unwrap();
    assert_eq!(header(&request, "Authorization"), Some("2 b"));
    assert_eq!(header(&request, "Content-Type"), Some("application/json"));
    assert_eq!(header(&request, "x-zed-system-id"), Some("system"));
    assert_eq!(request.body, "");
    client.clear_credentials();
    assert!(!client.has_credentials());
    assert_eq!(
        client.disconnect_github_integration(&urls()),
        Err(ClientApiError::NotSignedIn)
    );
    let connection = client.connect(&urls(), "v", "1");
    assert_eq!(connection, Err("no credentials provided".to_string()));
}

#[test]
fn requests_that_cannot_be_built_are_reported() {
    let client = client(42);
    let broken = CloudUrls {
        llm_tokens: Err("no base".to_string()),
        agent_feedback: Ok("https://a b".to_string()),
        agent_feedback_comments: Err("no base".to_string()),
        ..urls()
    };
    assert_eq!(
        client.create_llm_token(&broken, None, String::new()),
        Err(ClientApiError::RequestBuildFailed("no base".to_string()))
    );
    assert_eq!(
        client.submit_agent_feedback(&broken, Ok(String::new())),
        Err(FeedbackError::Client(ClientApiError::RequestBuildFailed(
            "invalid uri character".to_string()
        )))
    );
    assert_eq!(
        client.submit_agent_feedback_comments(&broken, Err("no body".to_string())),
        Err(FeedbackError::Unwritten("no base".to_string()))
    );
    assert_eq!(
        client.submit_edit_prediction_feedback(&broken, Err("no body".to_string())),
        Err(FeedbackError::Unwritten("no body".to_string()))
    );
    assert_eq!(
        CloudApiClient::new().submit_edit_prediction_feedback(&broken, Ok(String::new())),
        Err(FeedbackError::Client(ClientApiError::NotSignedIn))
    );
    let bad = client.update_system_settings(&urls(), "a\nb", String::new());
    assert_eq!(
        bad,
        Err(ClientApiError::RequestBuildFailed(
            "failed to parse header value".to_string()
        ))
    );
    let sent = client.update_system_settings(&urls(), "id", "{}".to_string());
    assert_eq!(sent.unwrap().method, Method::Patch);
    for (submitted, expected) in [
        (
            client.submit_agent_feedback(&urls(), Ok("{}".to_string())),
            "/client/feedback/agent_thread",
        ),
        (
            client.submit_agent_feedback_comments(&urls(), Ok("{}".to_string())),
            "/client/feedback/agent_thread_comments",
        ),
        (
            client.submit_edit_prediction_feedback(&urls(), Ok("{}".to_string())),
            "/client/feedback/edit_prediction",
        ),
    ] {
        let request = submitted.unwrap();
        assert_eq!(request.method, Method::Post);
        assert_eq!(path(&request), expected);
        assert_eq!(request.body, "{}");
    }
    let token = client.create_llm_token(&urls(), Some("id"), "{}".to_string()).unwrap();
    assert_eq!(path(&token), "/client/llm_tokens");
}

#[test]
fn connections_use_a_socket_scheme_and_say_who_connects() {
    assert_eq!(make_connect_url("https://a/b").as_deref(), Ok("wss://a/b"));
    assert_eq!(make_connect_url("http://a:8080/b").as_deref(), Ok("ws://a:8080/b"));
    assert_eq!(
        make_connect_url("ftp://a/b"),
        Err("invalid URL scheme: ftp".to_string())
    );
    assert_eq!(choose_socket_scheme(Ok("https".to_string())), Ok("wss"));
    let connection = client(42).connect(&urls(), "x-version", "3").unwrap();
    assert_eq!(connection.url, "wss://cloud.zed.dev/client/users/connect");
    assert_eq!(
        connection.headers,
        vec![
            ("Authorization".to_string(), "42 rezed-token".to_string()),
            ("x-version".to_string(), "3".to_string()),
        ]
    );
}

#[test]
fn failures_say_who_failed_and_how() {
    let refused = send_authenticated_request(reply(401, "no"), HOST);
    assert!(matches!(refused, Err(ClientApiError::Unauthorized)));

    let failed = send_authenticated_request(reply(500, "broken"), HOST).err().unwrap();
    assert_eq!(
        failed,
        ClientApiError::ServerError {
            host: HOST.to_string(),
            status: 500,
            body: "broken".to_string(),
        }
    );
    assert_eq!(
        failed.message(),
        "cloud.zed.dev returned 500 Internal Server Error"
    );

    let unread = HttpReply {
        status: 418,
        body: Err("cut off".to_string()),
    };
    let failed = send_authenticated_request(Ok(unread), HOST).err().unwrap();
    let ClientApiError::ServerError { body, .. } = failed else {
        panic!("expected a failure of the server");
    };
    assert_eq!(body, "failed to read response body: invalid response");

    let lost = send_authenticated_request(Err("refused".to_string()), HOST).err().unwrap();
    assert_eq!(lost.message(), "connection to cloud.zed.dev failed");
    assert_eq!(ClientApiError::Unauthorized.message(), "Unauthorized");
    assert_eq!(ClientApiError::NotSignedIn.message(), "not signed in");
    assert_eq!(
        ClientApiError::InvalidResponse(String::new()).message(),
        "invalid response"
    );
    assert_eq!(
        ClientApiError::RequestBuildFailed(String::new()).message(),
        "failed to build request"
    );
}

#[test]
fn responses_that_cannot_be_read_are_invalid() {
    let unread = || HttpReply {
        status: 200,
        body: Err("cut off".to_string()),
    };
    assert_eq!(
        read_response_body(unread()),
        Err(ClientApiError::InvalidResponse("cut off".to_string()))
    );
    assert_eq!(
        read_response_json(unread(), Ok(1)),
        Err(ClientApiError::InvalidResponse("cut off".to_string()))
    );
    let text = HttpReply {
        status: 200,
        body: Ok("x".to_string()),
    };
    assert_eq!(
        read_response_json::<u64>(text, Err("not JSON".to_string())),
        Err(ClientApiError::InvalidResponse("not JSON".to_string()))
    );
    assert_eq!(
        read_optional_response::<u64>(reply(500, "b"), HOST, Ok(None)),
        Err(ClientApiError::ServerError {
            host: HOST.to_string(),
            status: 500,
            body: "b".to_string(),
        })
    );
}

#[test]
fn credentials_are_valid_unless_they_are_refused() {
    let request = validate_credentials(&urls(), 42, "token").unwrap();
    assert_eq!(path(&request), "/client/users/me");
    assert_eq!(header(&request, "Authorization"), Some("42 token"));
    assert_eq!(read_validity(reply(200, "").unwrap()), Ok(true));
    assert_eq!(read_validity(reply(401, "").unwrap()), Ok(false));
    assert!(read_validity(reply(500, "b").unwrap()).is_err());
    assert_eq!(
        validate_credentials(
            &CloudUrls {
                authenticated_user: Err("no base".to_string()),
                ..urls()
            },
            42,
            "token"
        ),
        Err("no base".to_string())
    );
}

#[test]
fn the_blamed_host_is_that_of_the_root() {
    let host = |root| CloudUrls { root, ..urls() }.cloud_host();
    assert_eq!(host(Ok("https://example.test:81/".to_string())), "example.test");
    assert_eq!(host(Ok("not a url".to_string())), "cloud.zed.dev");
    assert_eq!(host(Err("no base".to_string())), "cloud.zed.dev");
}

#[test]
fn statuses_are_told_apart_by_their_hundreds() {
    assert!(is_success(200) && is_success(299));
    assert!(!is_success(199) && !is_success(300));
    assert!(is_client_error(400) && is_client_error(499));
    assert!(!is_client_error(399) && !is_client_error(500));
}
