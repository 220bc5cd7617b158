//! The client of the cloud API: what it asks, and what it makes of the answers.
use crate::cloud_api_types::ZED_SYSTEM_ID_HEADER_NAME;
use crate::github::requests::told_plainly;
use crate::http_request::{
    bare_request, is_success, success, validated_request, with_header, HttpRequest, Method,
    RequestModel,
};
use crate::models::told;
use crate::outside::requests::{status_text, write_status};
use crate::outside::urls::{
    append_query_pair, has_room, host_of, parse_url, parsed_url, scheme_of, set_scheme, url_host,
    url_scheme, with_query_pair, with_scheme,
};
use crate::text::{decimal, number_text, same_text};
use vstd::prelude::*;
use vstd::string::*;
use vstd::utf8::*;

verus! {

/// What the cloud API serves.
#[derive(Clone, Copy, Debug, PartialEq, Eq, Structural)]
pub enum Endpoint {
    Root,
    AuthenticatedUser,
    GitHubConnectedAccount,
    GitHubIntegration,
    GitHubInbox,
    GitHubActivity,
    GitHubRepositoryActivity,
    Connect,
    LlmTokens,
    SystemSettings,
    AgentFeedback,
    AgentFeedbackComments,
    EditPredictionFeedback,
}

/// The path under which something is served.
pub open spec fn endpoint_path(endpoint: Endpoint) -> Seq<char> {
    match endpoint {
        Endpoint::Root => "/"@,
        Endpoint::AuthenticatedUser => "/client/users/me"@,
        Endpoint::GitHubConnectedAccount => "/client/integrations/github/token"@,
        Endpoint::GitHubIntegration => "/client/integrations/github"@,
        Endpoint::GitHubInbox => "/client/integrations/github/inbox"@,
        Endpoint::GitHubActivity => "/client/integrations/github/activity"@,
        Endpoint::GitHubRepositoryActivity => "/client/integrations/github/activity/sync"@,
        Endpoint::Connect => "/client/users/connect"@,
        Endpoint::LlmTokens => "/client/llm_tokens"@,
        Endpoint::SystemSettings => "/client/system_settings"@,
        Endpoint::AgentFeedback => "/client/feedback/agent_thread"@,
        Endpoint::AgentFeedbackComments => "/client/feedback/agent_thread_comments"@,
        Endpoint::EditPredictionFeedback => "/client/feedback/edit_prediction"@,
    }
}

impl Endpoint {
    /// The path under which it is served.
    pub fn path(&self) -> (result: &'static str)
        ensures
            result@ == endpoint_path(*self),
            self is Root ==> result@ == "/"@,
            self is AuthenticatedUser ==> result@ == "/client/users/me"@,
            self is GitHubConnectedAccount ==> result@ == "/client/integrations/github/token"@,
            self is GitHubIntegration ==> result@ == "/client/integrations/github"@,
            self is GitHubInbox ==> result@ == "/client/integrations/github/inbox"@,
            self is GitHubActivity ==> result@ == "/client/integrations/github/activity"@,
            self is GitHubRepositoryActivity ==> result@ == "/client/integrations/github/activity/sync"@,
            self is Connect ==> result@ == "/client/users/connect"@,
            self is LlmTokens ==> result@ == "/client/llm_tokens"@,
            self is SystemSettings ==> result@ == "/client/system_settings"@,
            self is AgentFeedback ==> result@ == "/client/feedback/agent_thread"@,
            self is AgentFeedbackComments ==> result@ == "/client/feedback/agent_thread_comments"@,
            self is EditPredictionFeedback ==> result@ == "/client/feedback/edit_prediction"@,
    {
        match self {
            Endpoint::Root => "/",
            Endpoint::AuthenticatedUser => "/client/users/me",
            Endpoint::GitHubConnectedAccount => "/client/integrations/github/token",
            Endpoint::GitHubIntegration => "/client/integrations/github",
            Endpoint::GitHubInbox => "/client/integrations/github/inbox",
            Endpoint::GitHubActivity => "/client/integrations/github/activity",
            Endpoint::GitHubRepositoryActivity => "/client/integrations/github/activity/sync",
            Endpoint::Connect => "/client/users/connect",
            Endpoint::LlmTokens => "/client/llm_tokens",
            Endpoint::SystemSettings => "/client/system_settings",
            Endpoint::AgentFeedback => "/client/feedback/agent_thread",
            Endpoint::AgentFeedbackComments => "/client/feedback/agent_thread_comments",
            Endpoint::EditPredictionFeedback => "/client/feedback/edit_prediction",
        }
    }
}

/// Where the cloud API serves what it serves, or why a URL cannot be had.
pub struct CloudUrls {
    pub root: Result<String, String>,
    pub authenticated_user: Result<String, String>,
    pub github_connected_account: Result<String, String>,
    pub github_integration: Result<String, String>,
    pub github_inbox: Result<String, String>,
    pub github_activity: Result<String, String>,
    pub github_repository_activity: Result<String, String>,
    pub connect: Result<String, String>,
    pub llm_tokens: Result<String, String>,
    pub system_settings: Result<String, String>,
    pub agent_feedback: Result<String, String>,
    pub agent_feedback_comments: Result<String, String>,
    pub edit_prediction_feedback: Result<String, String>,
}

impl CloudUrls {
    /// The URL at which something is served.
    pub open spec fn url(&self, endpoint: Endpoint) -> Result<Seq<char>, Seq<char>> {
        match endpoint {
            Endpoint::Root => told(self.root),
            Endpoint::AuthenticatedUser => told(self.authenticated_user),
            Endpoint::GitHubConnectedAccount => told(self.github_connected_account),
            Endpoint::GitHubIntegration => told(self.github_integration),
            Endpoint::GitHubInbox => told(self.github_inbox),
            Endpoint::GitHubActivity => told(self.github_activity),
            Endpoint::GitHubRepositoryActivity => told(self.github_repository_activity),
            Endpoint::Connect => told(self.connect),
            Endpoint::LlmTokens => told(self.llm_tokens),
            Endpoint::SystemSettings => told(self.system_settings),
            Endpoint::AgentFeedback => told(self.agent_feedback),
            Endpoint::AgentFeedbackComments => told(self.agent_feedback_comments),
            Endpoint::EditPredictionFeedback => told(self.edit_prediction_feedback),
        }
    }

    /// The host that is blamed for a failure of the cloud.
    pub fn cloud_host(&self) -> (result: String)
        ensures
            result@ == blamed_host(
                match self.url(Endpoint::Root) {
                    Ok(url) => url_host(url),
                    Err(_) => None,
                },
            ),
            self.root matches Ok(url) ==> (match url_host(url@) {
                Some(host) => result@ == host,
                None => result@ == "cloud.zed.dev"@,
            }),
            self.root is Err ==> result@ == "cloud.zed.dev"@,
    {
        let host = match &self.root {
            Ok(url) => host_of(url),
            Err(_) => None,
        };
        host_or_default(host)
    }
}

/// Who a request is made for.
#[derive(Clone, PartialEq, Eq)]
pub struct Credentials {
    pub user_id: u32,
    pub access_token: String,
}

/// What `Credentials` hold.
#[verifier::ext_equal]
pub struct UserCredentials {
    pub user_id: u32,
    pub access_token: Seq<char>,
}

impl DeepView for Credentials {
    type V = UserCredentials;

    open spec fn deep_view(&self) -> UserCredentials {
        UserCredentials { user_id: self.user_id, access_token: self.access_token@ }
    }
}

/// Why the cloud API did not do what was asked.
#[derive(Clone, Debug, PartialEq, Eq)]
pub enum ClientApiError {
    /// The credentials are invalid or expired.
    Unauthorized,
    /// No credentials have been set on the client.
    NotSignedIn,
    /// The request never received a response.
    ConnectionFailed { host: String, source: String },
    /// The server reported a failure other than invalid credentials.
    ServerError { host: String, status: u16, body: String },
    /// The body could not be read, or did not say what was expected.
    InvalidResponse(String),
    /// The request could not be built.
    RequestBuildFailed(String),
}

/// What a `ClientApiError` holds.
pub enum ClientFailure {
    Unauthorized,
    NotSignedIn,
    ConnectionFailed { host: Seq<char>, source: Seq<char> },
    ServerError { host: Seq<char>, status: u16, body: Seq<char> },
    InvalidResponse(Seq<char>),
    RequestBuildFailed(Seq<char>),
}

impl DeepView for ClientApiError {
    type V = ClientFailure;

    open spec fn deep_view(&self) -> ClientFailure {
        match self {
            ClientApiError::Unauthorized => ClientFailure::Unauthorized,
            ClientApiError::NotSignedIn => ClientFailure::NotSignedIn,
            ClientApiError::ConnectionFailed { host, source } => ClientFailure::ConnectionFailed {
                host: host@,
                source: source@,
            },
            ClientApiError::ServerError { host, status, body } => ClientFailure::ServerError {
                host: host@,
                status: *status,
                body: body@,
            },
            ClientApiError::InvalidResponse(source) => ClientFailure::InvalidResponse(source@),
            ClientApiError::RequestBuildFailed(source) => ClientFailure::RequestBuildFailed(
                source@,
            ),
        }
    }
}

/// What is said of a failure.
pub open spec fn failure_message(failure: ClientFailure) -> Seq<char> {
    match failure {
        ClientFailure::Unauthorized => "Unauthorized"@,
        ClientFailure::NotSignedIn => "not signed in"@,
        ClientFailure::ConnectionFailed { host, .. } => "connection to "@ + host + " failed"@,
        ClientFailure::ServerError { host, status, .. } => returned_message(
            host,
            status_text(status),
        ),
        ClientFailure::InvalidResponse(_) => "invalid response"@,
        ClientFailure::RequestBuildFailed(_) => "failed to build request"@,
    }
}

/// What is said of a host that returned a status which is written as given.
pub open spec fn returned_message(host: Seq<char>, status: Seq<char>) -> Seq<char> {
    host + " returned "@ + status
}

/// What is said of a host that returned a status which is written as given.
pub fn make_returned_message(host: &str, status: &str) -> (result: String)
    ensures
        result@ == returned_message(host@, status@),
        result@ == host@ + " returned "@ + status@,
{
    let mut message = host.to_owned();
    message.append(" returned ");
    message.append(status);
    message
}

/// Whether the status that an error holds, if it holds one, is one of HTTP's.
pub open spec fn has_valid_status(failure: ClientFailure) -> bool {
    failure matches ClientFailure::ServerError { host, status, body } ==> 100 <= status < 1000
}

impl ClientApiError {
    /// What is said of the error.
    pub fn message(&self) -> (result: String)
        requires
            has_valid_status(self.deep_view()),
        ensures
            result@ == failure_message(self.deep_view()),
            self is Unauthorized ==> result@ == "Unauthorized"@,
            self is NotSignedIn ==> result@ == "not signed in"@,
            self matches ClientApiError::ConnectionFailed { host, source } ==> result@
                == "connection to "@ + host@ + " failed"@,
            self matches ClientApiError::ServerError { host, status, body } ==> result@ == host@
                + " returned "@ + status_text(*status),
            self is InvalidResponse ==> result@ == "invalid response"@,
            self is RequestBuildFailed ==> result@ == "failed to build request"@,
    {
        match self {
            ClientApiError::Unauthorized => "Unauthorized".to_owned(),
            ClientApiError::NotSignedIn => "not signed in".to_owned(),
            ClientApiError::ConnectionFailed { host, .. } => {
                let mut message = "connection to ".to_owned();
                message.append(host);
                message.append(" failed");
                message
            },
            ClientApiError::ServerError { host, status, .. } => {
                let status = match write_status(*status) {
                    Some(text) => text,
                    None => String::new(),
                };
                make_returned_message(host, &status)
            },
            ClientApiError::InvalidResponse(_) => "invalid response".to_owned(),
            ClientApiError::RequestBuildFailed(_) => "failed to build request".to_owned(),
        }
    }
}

/// `result` with the models of what it holds in place of what it holds.
pub open spec fn reported<T: DeepView>(result: Result<T, ClientApiError>) -> Result<
    T::V,
    ClientFailure,
> {
    match result {
        Ok(value) => Ok(value.deep_view()),
        Err(error) => Err(error.deep_view()),
    }
}

/// `result` with the model of an error in place of the error.
pub open spec fn reported_plainly<T>(result: Result<T, ClientApiError>) -> Result<
    T,
    ClientFailure,
> {
    match result {
        Ok(value) => Ok(value),
        Err(error) => Err(error.deep_view()),
    }
}

/// How credentials are presented.
pub open spec fn authorization(credentials: UserCredentials) -> Seq<char> {
    decimal(credentials.user_id as nat) + " "@ + credentials.access_token
}

/// How credentials are presented.
pub fn make_authorization(credentials: &Credentials) -> (result: String)
    ensures
        result@ == authorization(credentials.deep_view()),
        result@ == decimal(credentials.user_id as nat) + " "@ + credentials.access_token@,
{
    let mut result = number_text(credentials.user_id as u64);
    result.append(" ");
    result.append(&credentials.access_token);
    result
}

/// `request` with the headers that say what its body is and who it is made for.
pub open spec fn signed_request(request: RequestModel, credentials: UserCredentials) -> RequestModel {
    with_header(
        with_header(request, "Content-Type"@, "application/json"@),
        "Authorization"@,
        authorization(credentials),
    )
}

/// The request with the headers that say what its body is and who it is made
/// for.
pub fn sign_request(request: HttpRequest, credentials: &Credentials) -> (result: HttpRequest)
    ensures
        result.deep_view() == signed_request(request.deep_view(), credentials.deep_view()),
        result.method == request.method,
        result.uri == request.uri,
        result.body == request.body,
        result.headers.deep_view() == request.headers.deep_view() + seq![
            ("Content-Type"@, "application/json"@),
            (
                "Authorization"@,
                decimal(credentials.user_id as nat) + " "@ + credentials.access_token@,
            ),
        ],
{
    let authorization = make_authorization(credentials);
    request.header("Content-Type", "application/json").header("Authorization", &authorization)
}

/// The request with the headers that say what its body is and who it is made
/// for, or what is wrong with it.
pub fn build_request(request: HttpRequest, credentials: &Credentials) -> (result: Result<
    HttpRequest,
    String,
>)
    ensures
        told(result) == validated_request(
            signed_request(request.deep_view(), credentials.deep_view()),
        ),
        result matches Ok(built) ==> {
            &&& built.method == request.method
            &&& built.uri == request.uri
            &&& built.body == request.body
            &&& built.headers.deep_view() == request.headers.deep_view() + seq![
                ("Content-Type"@, "application/json"@),
                (
                    "Authorization"@,
                    decimal(credentials.user_id as nat) + " "@ + credentials.access_token@,
                ),
            ]
        },
{
    sign_request(request, credentials).validated()
}

/// What `request` becomes under the credentials that are set.
pub open spec fn built_request(request: RequestModel, credentials: Option<UserCredentials>) -> Result<
    RequestModel,
    ClientFailure,
> {
    match credentials {
        None => Err(ClientFailure::NotSignedIn),
        Some(credentials) => match validated_request(signed_request(request, credentials)) {
            Ok(built) => Ok(built),
            Err(problem) => Err(ClientFailure::RequestBuildFailed(problem)),
        },
    }
}

/// A request to the cloud API before it is signed.
pub open spec fn unsigned_request(
    method: Method,
    url: Seq<char>,
    system_id: Option<Seq<char>>,
    body: Seq<char>,
) -> RequestModel {
    let request = RequestModel { body, ..bare_request(method, url) };
    match system_id {
        Some(system_id) => with_header(request, ZED_SYSTEM_ID_HEADER_NAME@, system_id),
        None => request,
    }
}

/// A request to the cloud API before it is signed.
pub fn make_unsigned_request(
    method: Method,
    url: &str,
    system_id: Option<&str>,
    body: String,
) -> (result: HttpRequest)
    ensures
        result.deep_view() == unsigned_request(method, url@, system_id.deep_view(), body@),
        result.method == method,
        result.uri@ == url@,
        result.body == body,
        system_id is None ==> result.headers@.len() == 0,
        system_id matches Some(id) ==> result.headers.deep_view() == seq![
            ("x-zed-system-id"@, id@),
        ],
{
    let request = HttpRequest::new(method, url).with_body(body);
    match system_id {
        Some(system_id) => request.header(ZED_SYSTEM_ID_HEADER_NAME, system_id),
        None => request,
    }
}

/// A request to the cloud API at `url`, if there is one, under the credentials
/// that are set.
pub open spec fn prepared_request(
    credentials: Option<UserCredentials>,
    method: Method,
    url: Result<Seq<char>, Seq<char>>,
    system_id: Option<Seq<char>>,
    body: Seq<char>,
) -> Result<RequestModel, ClientFailure> {
    match url {
        Err(problem) => Err(ClientFailure::RequestBuildFailed(problem)),
        Ok(url) => built_request(unsigned_request(method, url, system_id, body), credentials),
    }
}

/// The host that is blamed where the cloud's host is not known.
pub const DEFAULT_CLOUD_HOST: &'static str = "cloud.zed.dev";

/// The host that is blamed for a failure.
pub open spec fn blamed_host(host: Option<Seq<char>>) -> Seq<char> {
    match host {
        Some(host) => host,
        None => DEFAULT_CLOUD_HOST@,
    }
}

/// The host that is blamed for a failure.
pub fn host_or_default(host: Option<String>) -> (result: String)
    ensures
        result@ == blamed_host(host.deep_view()),
        host matches Some(host) ==> result@ == host@,
        host is None ==> result@ == "cloud.zed.dev"@,
{
    match host {
        Some(host) => host,
        None => DEFAULT_CLOUD_HOST.to_owned(),
    }
}

/// A connection that is to be opened: where, and with which headers.
#[derive(Clone, Debug, PartialEq, Eq)]
pub struct ConnectRequest {
    pub url: String,
    pub headers: Vec<(String, String)>,
}

/// What a `ConnectRequest` holds.
#[verifier::ext_equal]
pub struct ConnectionModel {
    pub url: Seq<char>,
    pub headers: Seq<(Seq<char>, Seq<char>)>,
}

impl DeepView for ConnectRequest {
    type V = ConnectionModel;

    open spec fn deep_view(&self) -> ConnectionModel {
        ConnectionModel { url: self.url@, headers: self.headers.deep_view() }
    }
}

/// The scheme of a web socket whose page has the scheme `scheme`.
pub open spec fn socket_scheme(scheme: Result<Seq<char>, Seq<char>>) -> Result<
    Seq<char>,
    Seq<char>,
> {
    match scheme {
        Err(problem) => Err(problem),
        Ok(scheme) => if scheme == "https"@ {
            Ok("wss"@)
        } else if scheme == "http"@ {
            Ok("ws"@)
        } else {
            Err("invalid URL scheme: "@ + scheme)
        },
    }
}

/// The scheme of a web socket whose page has the scheme `scheme`.
pub fn choose_socket_scheme(scheme: Result<String, String>) -> (result: Result<
    &'static str,
    String,
>)
    ensures
        match result {
            Ok(chosen) => socket_scheme(told(scheme)) == Ok::<_, Seq<char>>(chosen@),
            Err(message) => socket_scheme(told(scheme)) == Err::<Seq<char>, _>(message@),
        },
        scheme matches Err(problem) ==> (result matches Err(message) && message@ == problem@),
        scheme matches Ok(name) ==> {
            &&& name@ == "https"@ ==> (result matches Ok(chosen) && chosen@ == "wss"@)
            &&& name@ == "http"@ ==> (result matches Ok(chosen) && chosen@ == "ws"@)
            &&& name@ != "https"@ && name@ != "http"@ ==> (result matches Err(message) && message@
                == "invalid URL scheme: "@ + name@)
        },
{
    proof {
        reveal_strlit("https");
        reveal_strlit("http");
        assert("https"@.len() != "http"@.len());
    }
    match scheme {
        Err(problem) => Err(problem),
        Ok(scheme) => if same_text(&scheme, "https") {
            Ok("wss")
        } else if same_text(&scheme, "http") {
            Ok("ws")
        } else {
            let mut message = "invalid URL scheme: ".to_owned();
            message.append(&scheme);
            Err(message)
        },
    }
}

/// The URL of a web socket, where `scheme` is the scheme it should have and
/// `changed` its page's URL with that scheme.
pub open spec fn socket_url(
    scheme: Result<Seq<char>, Seq<char>>,
    changed: Option<Seq<char>>,
) -> Result<Seq<char>, Seq<char>> {
    match (scheme, changed) {
        (Err(problem), _) => Err(problem),
        (Ok(_), None) => Err("failed to set URL scheme"@),
        (Ok(_), Some(url)) => Ok(url),
    }
}

/// The URL of the web socket that belongs to the page at `url`.
pub open spec fn connect_url(url: Seq<char>) -> Result<Seq<char>, Seq<char>> {
    let scheme = socket_scheme(url_scheme(url));
    socket_url(
        scheme,
        match scheme {
            Ok(scheme) => with_scheme(url, scheme),
            Err(_) => None,
        },
    )
}

/// The URL of the web socket that belongs to the page at `url`.
pub fn make_connect_url(url: &str) -> (result: Result<String, String>)
    ensures
        told(result) == connect_url(url@),
        url_scheme(url@) matches Err(problem) ==> (result matches Err(message) && message@
            == problem),
        url_scheme(url@) matches Ok(scheme) ==> {
            &&& scheme == "https"@ ==> (match with_scheme(url@, "wss"@) {
                Some(changed) => result matches Ok(socket) && socket@ == changed,
                None => result matches Err(message) && message@ == "failed to set URL scheme"@,
            })
            &&& scheme == "http"@ ==> (match with_scheme(url@, "ws"@) {
                Some(changed) => result matches Ok(socket) && socket@ == changed,
                None => result matches Err(message) && message@ == "failed to set URL scheme"@,
            })
            &&& scheme != "https"@ && scheme != "http"@ ==> (result matches Err(message) && message@
                == "invalid URL scheme: "@ + scheme)
        },
{
    let present = scheme_of(url);
    let ghost found = told(present);
    match choose_socket_scheme(present) {
        Err(message) => Err(message),
        Ok(scheme) => {
            proof {
                reveal_strlit("https");
                reveal_strlit("http");
                reveal_strlit("wss");
                reveal_strlit("ws");
            }
            match set_scheme(url, scheme) {
                Some(changed) => Ok(changed),
                None => Err("failed to set URL scheme".to_owned()),
            }
        },
    }
}

/// The connection to the web socket at `url`, if there is one, under the
/// credentials that are set.
pub open spec fn connection(
    url: Result<Seq<char>, Seq<char>>,
    credentials: Option<UserCredentials>,
    version_header: Seq<char>,
    version: Seq<char>,
) -> Result<ConnectionModel, Seq<char>> {
    match (url, credentials) {
        (Err(problem), _) => Err(problem),
        (Ok(_), None) => Err("no credentials provided"@),
        (Ok(url), Some(credentials)) => Ok(
            ConnectionModel {
                url,
                headers: seq![
                    ("Authorization"@, authorization(credentials)),
                    (version_header, version),
                ],
            },
        ),
    }
}

/// An answer: its status, and its body or why that could not be read.
#[derive(Debug, PartialEq, Eq)]
pub struct HttpReply {
    pub status: u16,
    pub body: Result<String, String>,
}

/// What an `HttpReply` holds.
#[verifier::ext_equal]
pub struct ReplyModel {
    pub status: u16,
    pub body: Result<Seq<char>, Seq<char>>,
}

impl DeepView for HttpReply {
    type V = ReplyModel;

    open spec fn deep_view(&self) -> ReplyModel {
        ReplyModel { status: self.status, body: told(self.body) }
    }
}

/// What is kept of the body of an answer that reports a failure.
pub open spec fn failure_body(body: Result<Seq<char>, Seq<char>>) -> Seq<char> {
    match body {
        Ok(text) => text,
        Err(_) => "failed to read response body: invalid response"@,
    }
}

/// What an answer that reports a failure is turned into.
pub open spec fn server_failure(reply: ReplyModel, host: Seq<char>) -> ClientFailure {
    if reply.status == 401 {
        ClientFailure::Unauthorized
    } else {
        ClientFailure::ServerError { host, status: reply.status, body: failure_body(reply.body) }
    }
}

/// What an answer that reports a failure is turned into.
fn make_server_failure(reply: HttpReply, host: &str) -> (result: ClientApiError)
    ensures
        result.deep_view() == server_failure(reply.deep_view(), host@),
        result is Unauthorized <==> reply.status == 401,
        reply.status != 401 ==> (result matches ClientApiError::ServerError {
            host: blamed,
            status,
            body,
        } && blamed@ == host@ && status == reply.status && body@ == match reply.body {
            Ok(text) => text@,
            Err(_) => "failed to read response body: invalid response"@,
        }),
{
    if reply.status == 401 {
        return ClientApiError::Unauthorized;
    }
    let body = match reply.body {
        Ok(text) => text,
        Err(_) => "failed to read response body: invalid response".to_owned(),
    };
    ClientApiError::ServerError { host: host.to_owned(), status: reply.status, body }
}

/// The answer that was received, or what was sent in vain is turned into.
pub open spec fn received<T>(sent: Result<T, Seq<char>>, host: Seq<char>) -> Result<
    T,
    ClientFailure,
> {
    match sent {
        Ok(reply) => Ok(reply),
        Err(source) => Err(ClientFailure::ConnectionFailed { host, source }),
    }
}

/// The answer that was received, unless it reports a failure.
pub open spec fn accepted(sent: Result<ReplyModel, Seq<char>>, host: Seq<char>) -> Result<
    ReplyModel,
    ClientFailure,
> {
    match received(sent, host) {
        Err(failure) => Err(failure),
        Ok(reply) => if success(reply.status) {
            Ok(reply)
        } else {
            Err(server_failure(reply, host))
        },
    }
}

/// The answer to a request that was sent, or what became of it, unless the answer
/// reports a failure.
pub fn send_authenticated_request(sent: Result<HttpReply, String>, host: &str) -> (result: Result<
    HttpReply,
    ClientApiError,
>)
    ensures
        reported(result) == accepted(told(sent), host@),
        sent matches Err(source) ==> (result matches Err(ClientApiError::ConnectionFailed {
            host: blamed,
            source: cause,
        }) && blamed@ == host@ && cause == source),
        sent matches Ok(reply) ==> {
            &&& 200 <= reply.status <= 299 ==> result == Ok::<_, ClientApiError>(reply)
            &&& !(200 <= reply.status <= 299) ==> (if reply.status == 401 {
                result matches Err(ClientApiError::Unauthorized)
            } else {
                result matches Err(ClientApiError::ServerError { host: blamed, status, body })
                    && blamed@ == host@ && status == reply.status && body@ == match reply.body {
                    Ok(text) => text@,
                    Err(_) => "failed to read response body: invalid response"@,
                }
            })
        },
{
    match sent {
        Err(source) => Err(ClientApiError::ConnectionFailed { host: host.to_owned(), source }),
        Ok(reply) => if is_success(reply.status) {
            Ok(reply)
        } else {
            Err(make_server_failure(reply, host))
        },
    }
}

/// What the body of an answer says.
pub open spec fn body_text(reply: ReplyModel) -> Result<Seq<char>, ClientFailure> {
    match reply.body {
        Ok(text) => Ok(text),
        Err(source) => Err(ClientFailure::InvalidResponse(source)),
    }
}

/// What the body of an answer says.
pub fn read_response_body(reply: HttpReply) -> (result: Result<String, ClientApiError>)
    ensures
        reported(result) == body_text(reply.deep_view()),
        match reply.body {
            Ok(text) => result == Ok::<_, ClientApiError>(text),
            Err(source) => result matches Err(ClientApiError::InvalidResponse(cause)) && cause
                == source,
        },
{
    match reply.body {
        Ok(text) => Ok(text),
        Err(source) => Err(ClientApiError::InvalidResponse(source)),
    }
}

/// What an answer says, where `parsed` is what its body says as JSON or why it
/// says nothing.
pub open spec fn json_value<T>(reply: ReplyModel, parsed: Result<T, Seq<char>>) -> Result<
    T,
    ClientFailure,
> {
    match (reply.body, parsed) {
        (Err(source), _) => Err(ClientFailure::InvalidResponse(source)),
        (Ok(_), Err(source)) => Err(ClientFailure::InvalidResponse(source)),
        (Ok(_), Ok(value)) => Ok(value),
    }
}

/// What an answer says, where `parsed` is what its body says as JSON or why it
/// says nothing.
pub fn read_response_json<T>(reply: HttpReply, parsed: Result<T, String>) -> (result: Result<
    T,
    ClientApiError,
>)
    ensures
        reported_plainly(result) == json_value(reply.deep_view(), told_plainly(parsed)),
        match reply.body {
            Err(source) => result matches Err(ClientApiError::InvalidResponse(cause)) && cause
                == source,
            Ok(_) => match parsed {
                Ok(value) => result == Ok::<_, ClientApiError>(value),
                Err(source) => result matches Err(ClientApiError::InvalidResponse(cause)) && cause
                    == source,
            },
        },
{
    match read_response_body(reply) {
        Err(error) => Err(error),
        Ok(_) => match parsed {
            Ok(value) => Ok(value),
            Err(source) => Err(ClientApiError::InvalidResponse(source)),
        },
    }
}

/// What the answer to a request that was sent says, or what became of the
/// request: `parsed` is what the answer's body says as JSON or why it says
/// nothing.
pub fn send_authenticated_json_request<T>(
    sent: Result<HttpReply, String>,
    host: &str,
    parsed: Result<T, String>,
) -> (result: Result<T, ClientApiError>)
    ensures
        reported_plainly(result) == match accepted(told(sent), host@) {
            Err(failure) => Err(failure),
            Ok(reply) => json_value(reply, told_plainly(parsed)),
        },
        sent matches Err(source) ==> (result matches Err(ClientApiError::ConnectionFailed {
            host: blamed,
            source: cause,
        }) && blamed@ == host@ && cause == source),
        sent matches Ok(reply) ==> {
            &&& 200 <= reply.status <= 299 ==> (match reply.body {
                Err(source) => result matches Err(ClientApiError::InvalidResponse(cause)) && cause
                    == source,
                Ok(_) => match parsed {
                    Ok(value) => result == Ok::<_, ClientApiError>(value),
                    Err(source) => result matches Err(ClientApiError::InvalidResponse(cause)) && cause
                        == source,
                },
            })
            &&& !(200 <= reply.status <= 299) ==> (if reply.status == 401 {
                result matches Err(ClientApiError::Unauthorized)
            } else {
                result matches Err(ClientApiError::ServerError { host: blamed, status, body })
                    && blamed@ == host@ && status == reply.status && body@ == match reply.body {
                    Ok(text) => text@,
                    Err(_) => "failed to read response body: invalid response"@,
                }
            })
        },
{
    match send_authenticated_request(sent, host) {
        Err(error) => Err(error),
        Ok(reply) => read_response_json(reply, parsed),
    }
}

/// What the answer to a question for something that may not be there says, where
/// `parsed` is what its body says as JSON or why it says nothing.
pub open spec fn optional_value<T>(
    sent: Result<ReplyModel, Seq<char>>,
    host: Seq<char>,
    parsed: Result<Option<T>, Seq<char>>,
) -> Result<Option<T>, ClientFailure> {
    match received(sent, host) {
        Err(failure) => Err(failure),
        Ok(reply) => if reply.status == 204 || reply.status == 404 {
            Ok(None)
        } else if success(reply.status) {
            json_value(reply, parsed)
        } else {
            Err(server_failure(reply, host))
        },
    }
}

/// What the answer to a question for something that may not be there says, where
/// `parsed` is what its body says as JSON or why it says nothing.
pub fn read_optional_response<T>(
    sent: Result<HttpReply, String>,
    host: &str,
    parsed: Result<Option<T>, String>,
) -> (result: Result<Option<T>, ClientApiError>)
    ensures
        reported_plainly(result) == optional_value(told(sent), host@, told_plainly(parsed)),
        sent matches Err(source) ==> (result matches Err(ClientApiError::ConnectionFailed {
            host: blamed,
            source: cause,
        }) && blamed@ == host@ && cause == source),
        sent matches Ok(reply) ==> {
            &&& reply.status == 204 || reply.status == 404 ==> result == Ok::<_, ClientApiError>(
                None::<T>,
            )
            &&& 200 <= reply.status <= 299 && reply.status != 204 ==> (match reply.body {
                Err(source) => result matches Err(ClientApiError::InvalidResponse(cause)) && cause
                    == source,
                Ok(_) => match parsed {
                    Ok(value) => result == Ok::<_, ClientApiError>(value),
                    Err(source) => result matches Err(ClientApiError::InvalidResponse(cause)) && cause
                        == source,
                },
            })
            &&& !(200 <= reply.status <= 299) && reply.status != 404 ==> (if reply.status == 401 {
                result matches Err(ClientApiError::Unauthorized)
            } else {
                result matches Err(ClientApiError::ServerError { host: blamed, status, body })
                    && blamed@ == host@ && status == reply.status && body@ == match reply.body {
                    Ok(text) => text@,
                    Err(_) => "failed to read response body: invalid response"@,
                }
            })
        },
{
    match sent {
        Err(source) => Err(ClientApiError::ConnectionFailed { host: host.to_owned(), source }),
        Ok(reply) => if reply.status == 204 || reply.status == 404 {
            Ok(None)
        } else if reply.status == 401 {
            Err(ClientApiError::Unauthorized)
        } else if is_success(reply.status) {
            read_response_json(reply, parsed)
        } else {
            Err(make_server_failure(reply, host))
        },
    }
}

/// Whether credentials are valid, from the answer to a request made with them.
pub open spec fn validity(reply: ReplyModel) -> Result<bool, Seq<char>> {
    if success(reply.status) {
        Ok(true)
    } else {
        match reply.body {
            Err(source) => Err(source),
            Ok(body) => if reply.status == 401 {
                Ok(false)
            } else {
                Err(
                    "Failed to get authenticated user.\nStatus: "@ + decimal(reply.status as nat)
                        + "\nBody: "@ + body,
                )
            },
        }
    }
}

/// Whether credentials are valid, from the answer to a request made with them.
pub fn read_validity(reply: HttpReply) -> (result: Result<bool, String>)
    ensures
        told_plainly(result) == validity(reply.deep_view()),
        result == Ok::<_, String>(true) <==> 200 <= reply.status <= 299,
        !(200 <= reply.status <= 299) ==> match reply.body {
            Err(source) => result == Err::<bool, _>(source),
            Ok(body) => if reply.status == 401 {
                result == Ok::<_, String>(false)
            } else {
                result matches Err(message) && message@
                    == "Failed to get authenticated user.\nStatus: "@ + decimal(
                    reply.status as nat,
                ) + "\nBody: "@ + body@
            },
        },
{
    if is_success(reply.status) {
        return Ok(true);
    }
    match reply.body {
        Err(source) => Err(source),
        Ok(body) => if reply.status == 401 {
            Ok(false)
        } else {
            let mut message = "Failed to get authenticated user.\nStatus: ".to_owned();
            message.append(&number_text(reply.status as u64));
            message.append("\nBody: ");
            message.append(&body);
            Err(message)
        },
    }
}

/// The request that tells whether credentials are valid.
pub fn validate_credentials(urls: &CloudUrls, user_id: u32, access_token: &str) -> (result: Result<
    HttpRequest,
    String,
>)
    ensures
        told(result) == match urls.url(Endpoint::AuthenticatedUser) {
            Err(problem) => Err(problem),
            Ok(url) => validated_request(
                signed_request(
                    bare_request(Method::Get, url),
                    UserCredentials { user_id, access_token: access_token@ },
                ),
            ),
        },
        urls.authenticated_user matches Err(problem) ==> (result matches Err(message) && message@
            == problem@),
        urls.authenticated_user matches Ok(url) ==> (result matches Ok(request) ==> {
            &&& request.method == Method::Get
            &&& request.uri@ == url@
            &&& request.headers.deep_view() == seq![
                ("Content-Type"@, "application/json"@),
                ("Authorization"@, decimal(user_id as nat) + " "@ + access_token@),
            ]
        }),
{
    match &urls.authenticated_user {
        Err(problem) => Err(problem.as_str().to_owned()),
        Ok(url) => {
            let credentials = Credentials { user_id, access_token: access_token.to_owned() };
            build_request(HttpRequest::new(Method::Get, url), &credentials)
        },
    }
}

/// The URL of at most `limit` inbox items, which are served at `url`.
pub open spec fn inbox_url(url: Seq<char>, limit: nat) -> Result<Seq<char>, Seq<char>> {
    match parsed_url(url) {
        Err(problem) => Err(problem),
        Ok(_) => Ok(with_query_pair(url, "limit"@, decimal(limit))),
    }
}

/// Whether the URL of inbox items is no longer than a URL can be.
pub open spec fn inbox_url_fits(url: Seq<char>, limit: nat) -> bool {
    has_room(url, encode_utf8("limit"@).len() + encode_utf8(decimal(limit)).len())
}

/// The URL of at most `limit` inbox items, which are served at `url`.
pub fn make_inbox_url(url: &str, limit: usize) -> (result: Result<String, String>)
    requires
        inbox_url_fits(url@, limit as nat),
    ensures
        told(result) == inbox_url(url@, limit as nat),
        parsed_url(url@) matches Err(problem) ==> (result matches Err(message) && message@
            == problem),
        parsed_url(url@) is Ok ==> (result matches Ok(extended) && extended@ == with_query_pair(
            url@,
            "limit"@,
            decimal(limit as nat),
        )),
{
    match parse_url(url) {
        Err(problem) => Err(problem),
        Ok(written) => match append_query_pair(url, "limit", &number_text(limit as u64)) {
            Some(extended) => Ok(extended),
            None => Err(written),
        },
    }
}

/// The URL of at most `limit` inbox items, which are served at `url`, or `None`
/// where it is longer than a URL can be.
pub fn checked_inbox_url(url: &str, limit: usize) -> (result: Option<Result<String, String>>)
    ensures
        match result {
            Some(extended) => inbox_url_fits(url@, limit as nat) && told(extended) == inbox_url(
                url@,
                limit as nat,
            ),
            None => !inbox_url_fits(url@, limit as nat),
        },
{
    if let Ok(written) = parse_url(url) {
        let digits = number_text(limit as u64);
        let url_length: u128 = written.as_str().as_bytes().len() as u128;
        let name_length: u128 = "limit".as_bytes().len() as u128;
        let value_length: u128 = digits.as_str().as_bytes().len() as u128;
        let long: u128 = url_length + 3 * (name_length + value_length) + 3;
        if long > 0xffff_ffff {
            return None;
        }
    }
    Some(make_inbox_url(url, limit))
}

/// Why feedback was not submitted.
#[derive(Clone, Debug, PartialEq, Eq)]
pub enum FeedbackError {
    /// The URL or the body cannot be had.
    Unwritten(String),
    /// The client failed.
    Client(ClientApiError),
}

/// What a `FeedbackError` holds.
pub enum FeedbackFailure {
    Unwritten(Seq<char>),
    Client(ClientFailure),
}

impl DeepView for FeedbackError {
    type V = FeedbackFailure;

    open spec fn deep_view(&self) -> FeedbackFailure {
        match self {
            FeedbackError::Unwritten(problem) => FeedbackFailure::Unwritten(problem@),
            FeedbackError::Client(error) => FeedbackFailure::Client(error.deep_view()),
        }
    }
}

/// `result` with the models of what it holds in place of what it holds.
pub open spec fn submitted(result: Result<HttpRequest, FeedbackError>) -> Result<
    RequestModel,
    FeedbackFailure,
> {
    match result {
        Ok(request) => Ok(request.deep_view()),
        Err(error) => Err(error.deep_view()),
    }
}

/// A request that submits `body` at `url`, if there are both, under the credentials
/// that are set.
pub open spec fn feedback_request(
    credentials: Option<UserCredentials>,
    url: Result<Seq<char>, Seq<char>>,
    body: Result<Seq<char>, Seq<char>>,
) -> Result<RequestModel, FeedbackFailure> {
    match (url, body) {
        (Err(problem), _) => Err(FeedbackFailure::Unwritten(problem)),
        (Ok(_), Err(problem)) => Err(FeedbackFailure::Unwritten(problem)),
        (Ok(url), Ok(body)) => match built_request(
            unsigned_request(Method::Post, url, None, body),
            credentials,
        ) {
            Err(failure) => Err(FeedbackFailure::Client(failure)),
            Ok(request) => Ok(request),
        },
    }
}

/// A client of the cloud API, with the credentials it acts under.
pub struct CloudApiClient {
    credentials: Option<Credentials>,
}

impl CloudApiClient {
    /// The credentials that are set.
    pub closed spec fn credentials(&self) -> Option<UserCredentials> {
        self.credentials.deep_view()
    }

    /// A client without credentials.
    pub fn new() -> (result: Self)
        ensures
            result.credentials() is None,
    {
        CloudApiClient { credentials: None }
    }

    /// Whether credentials are set.
    pub fn has_credentials(&self) -> (result: bool)
        ensures
            result == self.credentials() is Some,
    {
        self.credentials.is_some()
    }

    /// Sets the credentials, whatever was set before.
    pub fn set_credentials(&mut self, user_id: u32, access_token: String)
        ensures
            final(self).credentials() == Some(
                UserCredentials { user_id, access_token: access_token@ },
            ),
    {
        self.credentials = Some(Credentials { user_id, access_token });
    }

    /// Forgets the credentials.
    pub fn clear_credentials(&mut self)
        ensures
            final(self).credentials() is None,
    {
        self.credentials = None;
    }

    /// The request under the credentials that are set.
    pub fn build_request(&self, request: HttpRequest) -> (result: Result<
        HttpRequest,
        ClientApiError,
    >)
        ensures
            reported(result) == built_request(request.deep_view(), self.credentials()),
            self.credentials() is None ==> result matches Err(ClientApiError::NotSignedIn),
            self.credentials() is Some && result is Err ==> result matches Err(
                ClientApiError::RequestBuildFailed(_),
            ),
            result matches Ok(built) ==> {
                &&& self.credentials() is Some
                &&& built.method == request.method
                &&& built.uri == request.uri
                &&& built.body == request.body
                &&& built.headers.deep_view() == request.headers.deep_view() + seq![
                    ("Content-Type"@, "application/json"@),
                    (
                        "Authorization"@,
                        decimal(self.credentials()->0.user_id as nat) + " "@
                            + self.credentials()->0.access_token,
                    ),
                ]
            },
    {
        match &self.credentials {
            None => Err(ClientApiError::NotSignedIn),
            Some(credentials) => match build_request(request, credentials) {
                Ok(built) => Ok(built),
                Err(problem) => Err(ClientApiError::RequestBuildFailed(problem)),
            },
        }
    }

    /// A request at `url`, if there is one, under the credentials that are set.
    fn prepare(
        &self,
        method: Method,
        url: &Result<String, String>,
        system_id: Option<&str>,
        body: String,
    ) -> (result: Result<HttpRequest, ClientApiError>)
        ensures
            reported(result) == prepared_request(
                self.credentials(),
                method,
                told(*url),
                system_id.deep_view(),
                body@,
            ),
            url is Ok && self.credentials() is None ==> result matches Err(
                ClientApiError::NotSignedIn,
            ),
            url matches Err(problem) ==> (result matches Err(
                ClientApiError::RequestBuildFailed(message),
            ) && message@ == problem@),
            result matches Ok(request) ==> {
                &&& self.credentials() is Some
                &&& request.method == method
                &&& request.uri@ == url->Ok_0@
                &&& request.body@ == body@
                &&& request.headers.deep_view() == (match system_id {
                    Some(id) => seq![("x-zed-system-id"@, id@)],
                    None => Seq::empty(),
                }) + seq![
                    ("Content-Type"@, "application/json"@),
                    (
                        "Authorization"@,
                        decimal(self.credentials()->0.user_id as nat) + " "@
                            + self.credentials()->0.access_token,
                    ),
                ]
            },
    {
        match url {
            Err(problem) => Err(ClientApiError::RequestBuildFailed(problem.as_str().to_owned())),
            Ok(url) => self.build_request(make_unsigned_request(method, url, system_id, body)),
        }
    }

    /// The request for the signed-in user.
    pub fn get_authenticated_user(&self, urls: &CloudUrls, system_id: Option<&str>) -> (result:
        Result<HttpRequest, ClientApiError>)
        ensures
            reported(result) == prepared_request(
                self.credentials(),
                Method::Get,
                urls.url(Endpoint::AuthenticatedUser),
                system_id.deep_view(),
                Seq::empty(),
            ),
            urls.authenticated_user is Ok && self.credentials() is None ==> result matches Err(
                ClientApiError::NotSignedIn,
            ),
            urls.authenticated_user matches Err(problem) ==> (result matches Err(
                ClientApiError::RequestBuildFailed(message),
            ) && message@ == problem@),
            result matches Ok(request) ==> {
                &&& self.credentials() is Some
                &&& request.method == Method::Get
                &&& request.uri@ == urls.authenticated_user->Ok_0@
                &&& request.body@ == Seq::<char>::empty()
                &&& request.headers.deep_view() == (match system_id {
                    Some(id) => seq![("x-zed-system-id"@, id@)],
                    None => Seq::empty(),
                }) + seq![
                    ("Content-Type"@, "application/json"@),
                    (
                        "Authorization"@,
                        decimal(self.credentials()->0.user_id as nat) + " "@
                            + self.credentials()->0.access_token,
                    ),
                ]
            },
    {
        self.prepare(Method::Get, &urls.authenticated_user, system_id, String::new())
    }

    /// The request for the connected GitHub account.
    pub fn fetch_github_connected_account(&self, urls: &CloudUrls) -> (result: Result<
        HttpRequest,
        ClientApiError,
    >)
        ensures
            reported(result) == prepared_request(
                self.credentials(),
                Method::Get,
                urls.url(Endpoint::GitHubConnectedAccount),
                None,
                Seq::empty(),
            ),
            urls.github_connected_account is Ok && self.credentials() is None ==> result matches Err(
                ClientApiError::NotSignedIn,
            ),
            urls.github_connected_account matches Err(problem) ==> (result matches Err(
                ClientApiError::RequestBuildFailed(message),
            ) && message@ == problem@),
            result matches Ok(request) ==> {
                &&& self.credentials() is Some
                &&& request.method == Method::Get
                &&& request.uri@ == urls.github_connected_account->Ok_0@
                &&& request.body@ == Seq::<char>::empty()
                &&& request.headers.deep_view() == Seq::<(Seq<char>, Seq<char>)>::empty() + seq![
                    ("Content-Type"@, "application/json"@),
                    (
                        "Authorization"@,
                        decimal(self.credentials()->0.user_id as nat) + " "@
                            + self.credentials()->0.access_token,
                    ),
                ]
            },
    {
        self.prepare(Method::Get, &urls.github_connected_account, None, String::new())
    }

    /// The request for the status of the GitHub integration.
    pub fn fetch_github_integration_status(&self, urls: &CloudUrls) -> (result: Result<
        HttpRequest,
        ClientApiError,
    >)
        ensures
            reported(result) == prepared_request(
                self.credentials(),
                Method::Get,
                urls.url(Endpoint::GitHubIntegration),
                None,
                Seq::empty(),
            ),
            urls.github_integration is Ok && self.credentials() is None ==> result matches Err(
                ClientApiError::NotSignedIn,
            ),
            urls.github_integration matches Err(problem) ==> (result matches Err(
                ClientApiError::RequestBuildFailed(message),
            ) && message@ == problem@),
            result matches Ok(request) ==> {
                &&& self.credentials() is Some
                &&& request.method == Method::Get
                &&& request.uri@ == urls.github_integration->Ok_0@
                &&& request.body@ == Seq::<char>::empty()
                &&& request.headers.deep_view() == Seq::<(Seq<char>, Seq<char>)>::empty() + seq![
                    ("Content-Type"@, "application/json"@),
                    (
                        "Authorization"@,
                        decimal(self.credentials()->0.user_id as nat) + " "@
                            + self.credentials()->0.access_token,
                    ),
                ]
            },
    {
        self.prepare(Method::Get, &urls.github_integration, None, String::new())
    }

    /// The request for at most `limit` inbox items.
    pub fn fetch_github_inbox_items(&self, urls: &CloudUrls, limit: usize) -> (result: Result<
        HttpRequest,
        ClientApiError,
    >)
        requires
            urls.url(Endpoint::GitHubInbox) matches Ok(url) ==> inbox_url_fits(url, limit as nat),
        ensures
            reported(result) == prepared_request(
                self.credentials(),
                Method::Get,
                match urls.url(Endpoint::GitHubInbox) {
                    Ok(url) => inbox_url(url, limit as nat),
                    Err(problem) => Err(problem),
                },
                None,
                Seq::empty(),
            ),
            result matches Ok(request) ==> {
                &&& urls.github_inbox is Ok
                &&& self.credentials() is Some
                &&& request.method == Method::Get
                &&& request.body@.len() == 0
                &&& request.uri@ == with_query_pair(
                    urls.github_inbox->Ok_0@,
                    "limit"@,
                    decimal(limit as nat),
                )
            },
            self.credentials() is None ==> result is Err,
    {
        let url = match &urls.github_inbox {
            Ok(url) => make_inbox_url(url, limit),
            Err(problem) => Err(problem.as_str().to_owned()),
        };
        self.prepare(Method::Get, &url, None, String::new())
    }

    /// The request for at most `limit` inbox items, or `None` where its URL is longer
    /// than a URL can be.
    pub fn checked_fetch_github_inbox_items(&self, urls: &CloudUrls, limit: usize) -> (result:
        Option<Result<HttpRequest, ClientApiError>>)
        ensures
            result is None <==> (urls.url(Endpoint::GitHubInbox) matches Ok(url) && !inbox_url_fits(
                url,
                limit as nat,
            )),
            result matches Some(request) ==> reported(request) == prepared_request(
                self.credentials(),
                Method::Get,
                match urls.url(Endpoint::GitHubInbox) {
                    Ok(url) => inbox_url(url, limit as nat),
                    Err(problem) => Err(problem),
                },
                None,
                Seq::empty(),
            ),
    {
        if let Ok(url) = &urls.github_inbox {
            if checked_inbox_url(url, limit).is_none() {
                return None;
            }
        }
        Some(self.fetch_github_inbox_items(urls, limit))
    }

    /// The request that syncs the batch `body`.
    pub fn sync_github_activity(&self, urls: &CloudUrls, body: String) -> (result: Result<
        HttpRequest,
        ClientApiError,
    >)
        ensures
            reported(result) == prepared_request(
                self.credentials(),
                Method::Post,
                urls.url(Endpoint::GitHubActivity),
                None,
                body@,
            ),
            urls.github_activity is Ok && self.credentials() is None ==> result matches Err(
                ClientApiError::NotSignedIn,
            ),
            urls.github_activity matches Err(problem) ==> (result matches Err(
                ClientApiError::RequestBuildFailed(message),
            ) && message@ == problem@),
            result matches Ok(request) ==> {
                &&& self.credentials() is Some
                &&& request.method == Method::Post
                &&& request.uri@ == urls.github_activity->Ok_0@
                &&& request.body@ == body@
                &&& request.headers.deep_view() == Seq::<(Seq<char>, Seq<char>)>::empty() + seq![
                    ("Content-Type"@, "application/json"@),
                    (
                        "Authorization"@,
                        decimal(self.credentials()->0.user_id as nat) + " "@
                            + self.credentials()->0.access_token,
                    ),
                ]
            },
    {
        self.prepare(Method::Post, &urls.github_activity, None, body)
    }

    /// The request that has the server sync the repository that `body` names.
    pub fn sync_github_repository_activity(&self, urls: &CloudUrls, body: String) -> (result:
        Result<HttpRequest, ClientApiError>)
        ensures
            reported(result) == prepared_request(
                self.credentials(),
                Method::Post,
                urls.url(Endpoint::GitHubRepositoryActivity),
                None,
                body@,
            ),
            urls.github_repository_activity is Ok && self.credentials() is None ==> result matches Err(
                ClientApiError::NotSignedIn,
            ),
            urls.github_repository_activity matches Err(problem) ==> (result matches Err(
                ClientApiError::RequestBuildFailed(message),
            ) && message@ == problem@),
            result matches Ok(request) ==> {
                &&& self.credentials() is Some
                &&& request.method == Method::Post
                &&& request.uri@ == urls.github_repository_activity->Ok_0@
                &&& request.body@ == body@
                &&& request.headers.deep_view() == Seq::<(Seq<char>, Seq<char>)>::empty() + seq![
                    ("Content-Type"@, "application/json"@),
                    (
                        "Authorization"@,
                        decimal(self.credentials()->0.user_id as nat) + " "@
                            + self.credentials()->0.access_token,
                    ),
                ]
            },
    {
        self.prepare(Method::Post, &urls.github_repository_activity, None, body)
    }

    /// The request that disconnects the GitHub account.
    pub fn disconnect_github_integration(&self, urls: &CloudUrls) -> (result: Result<
        HttpRequest,
        ClientApiError,
    >)
        ensures
            reported(result) == prepared_request(
                self.credentials(),
                Method::Delete,
                urls.url(Endpoint::GitHubIntegration),
                None,
                Seq::empty(),
            ),
            urls.github_integration is Ok && self.credentials() is None ==> result matches Err(
                ClientApiError::NotSignedIn,
            ),
            urls.github_integration matches Err(problem) ==> (result matches Err(
                ClientApiError::RequestBuildFailed(message),
            ) && message@ == problem@),
            result matches Ok(request) ==> {
                &&& self.credentials() is Some
                &&& request.method == Method::Delete
                &&& request.uri@ == urls.github_integration->Ok_0@
                &&& request.body@ == Seq::<char>::empty()
                &&& request.headers.deep_view() == Seq::<(Seq<char>, Seq<char>)>::empty() + seq![
                    ("Content-Type"@, "application/json"@),
                    (
                        "Authorization"@,
                        decimal(self.credentials()->0.user_id as nat) + " "@
                            + self.credentials()->0.access_token,
                    ),
                ]
            },
    {
        self.prepare(Method::Delete, &urls.github_integration, None, String::new())
    }

    /// The connection to the cloud's web socket under the credentials that are set.
    pub fn connect(&self, urls: &CloudUrls, version_header: &str, version: &str) -> (result:
        Result<ConnectRequest, String>)
        ensures
            told(result) == connection(
                match urls.url(Endpoint::Connect) {
                    Ok(url) => connect_url(url),
                    Err(problem) => Err(problem),
                },
                self.credentials(),
                version_header@,
                version@,
            ),
            urls.connect matches Err(problem) ==> (result matches Err(message) && message@
                == problem@),
            urls.connect matches Ok(url) ==> (connect_url(url@) matches Err(problem) ==> (
            result matches Err(message) && message@ == problem)),
            urls.connect matches Ok(url) ==> (connect_url(url@) is Ok && self.credentials() is None
                ==> (result matches Err(message) && message@ == "no credentials provided"@)),
            urls.connect matches Ok(url) ==> (connect_url(url@) is Ok && self.credentials() is Some
                ==> (result matches Ok(opened) && opened.url@ == connect_url(url@)->Ok_0
                && opened.headers.deep_view() == seq![
                (
                    "Authorization"@,
                    decimal(self.credentials()->0.user_id as nat) + " "@
                        + self.credentials()->0.access_token,
                ),
                (version_header@, version@),
            ])),
    {
        let url = match &urls.connect {
            Ok(url) => make_connect_url(url),
            Err(problem) => Err(problem.as_str().to_owned()),
        };
        let url = match url {
            Ok(url) => url,
            Err(problem) => return Err(problem),
        };
        match &self.credentials {
            None => Err("no credentials provided".to_owned()),
            Some(credentials) => {
                let mut headers: Vec<(String, String)> = Vec::new();
                headers.push(("Authorization".to_owned(), make_authorization(credentials)));
                headers.push((version_header.to_owned(), version.to_owned()));
                assert(headers.deep_view() == seq![
                    ("Authorization"@, authorization(credentials.deep_view())),
                    (version_header@, version@),
                ]);
                Ok(ConnectRequest { url, headers })
            },
        }
    }

    /// The request for a language model token for what `body` names.
    pub fn create_llm_token(
        &self,
        urls: &CloudUrls,
        system_id: Option<&str>,
        body: String,
    ) -> (result: Result<HttpRequest, ClientApiError>)
        ensures
            reported(result) == prepared_request(
                self.credentials(),
                Method::Post,
                urls.url(Endpoint::LlmTokens),
                system_id.deep_view(),
                body@,
            ),
            urls.llm_tokens is Ok && self.credentials() is None ==> result matches Err(
                ClientApiError::NotSignedIn,
            ),
            urls.llm_tokens matches Err(problem) ==> (result matches Err(
                ClientApiError::RequestBuildFailed(message),
            ) && message@ == problem@),
            result matches Ok(request) ==> {
                &&& self.credentials() is Some
                &&& request.method == Method::Post
                &&& request.uri@ == urls.llm_tokens->Ok_0@
                &&& request.body@ == body@
                &&& request.headers.deep_view() == (match system_id {
                    Some(id) => seq![("x-zed-system-id"@, id@)],
                    None => Seq::empty(),
                }) + seq![
                    ("Content-Type"@, "application/json"@),
                    (
                        "Authorization"@,
                        decimal(self.credentials()->0.user_id as nat) + " "@
                            + self.credentials()->0.access_token,
                    ),
                ]
            },
    {
        self.prepare(Method::Post, &urls.llm_tokens, system_id, body)
    }

    /// The request that changes the settings of a system to `body`.
    pub fn update_system_settings(
        &self,
        urls: &CloudUrls,
        system_id: &str,
        body: String,
    ) -> (result: Result<HttpRequest, ClientApiError>)
        ensures
            reported(result) == prepared_request(
                self.credentials(),
                Method::Patch,
                urls.url(Endpoint::SystemSettings),
                Some(system_id@),
                body@,
            ),
            urls.system_settings is Ok && self.credentials() is None ==> result matches Err(
                ClientApiError::NotSignedIn,
            ),
            urls.system_settings matches Err(problem) ==> (result matches Err(
                ClientApiError::RequestBuildFailed(message),
            ) && message@ == problem@),
            result matches Ok(request) ==> {
                &&& self.credentials() is Some
                &&& request.method == Method::Patch
                &&& request.uri@ == urls.system_settings->Ok_0@
                &&& request.body@ == body@
                &&& request.headers.deep_view() == seq![("x-zed-system-id"@, system_id@)] + seq![
                    ("Content-Type"@, "application/json"@),
                    (
                        "Authorization"@,
                        decimal(self.credentials()->0.user_id as nat) + " "@
                            + self.credentials()->0.access_token,
                    ),
                ]
            },
    {
        self.prepare(Method::Patch, &urls.system_settings, Some(system_id), body)
    }

    /// A request that submits feedback at `url`, if there is one.
    fn prepare_feedback(&self, url: &Result<String, String>, body: Result<String, String>) -> (result:
        Result<HttpRequest, FeedbackError>)
        ensures
            submitted(result) == feedback_request(self.credentials(), told(*url), told(body)),
            url matches Err(problem) ==> (result matches Err(
                FeedbackError::Unwritten(message),
            ) && message@ == problem@),
            url is Ok ==> (body matches Err(problem) ==> (result matches Err(
                FeedbackError::Unwritten(message),
            ) && message@ == problem@)),
            url is Ok && body is Ok && self.credentials() is None
                ==> result matches Err(
                FeedbackError::Client(ClientApiError::NotSignedIn),
            ),
            result matches Ok(request) ==> {
                &&& self.credentials() is Some
                &&& request.method == Method::Post
                &&& request.uri@ == url->Ok_0@
                &&& request.body@ == body->Ok_0@
                &&& request.headers.deep_view() == seq![
                    ("Content-Type"@, "application/json"@),
                    (
                        "Authorization"@,
                        decimal(self.credentials()->0.user_id as nat) + " "@
                            + self.credentials()->0.access_token,
                    ),
                ]
            },
    {
        let url = match url {
            Ok(url) => url,
            Err(problem) => return Err(FeedbackError::Unwritten(problem.as_str().to_owned())),
        };
        let body = match body {
            Ok(body) => body,
            Err(problem) => return Err(FeedbackError::Unwritten(problem)),
        };
        match self.build_request(make_unsigned_request(Method::Post, url, None, body)) {
            Ok(request) => Ok(request),
            Err(error) => Err(FeedbackError::Client(error)),
        }
    }

    /// The request that submits the feedback on an agent's thread in `body`.
    pub fn submit_agent_feedback(&self, urls: &CloudUrls, body: Result<String, String>) -> (result: Result<
        HttpRequest,
        FeedbackError,
    >)
        ensures
            submitted(result) == feedback_request(
                self.credentials(),
                urls.url(Endpoint::AgentFeedback),
                told(body),
            ),
            urls.agent_feedback matches Err(problem) ==> (result matches Err(
                FeedbackError::Unwritten(message),
            ) && message@ == problem@),
            urls.agent_feedback is Ok ==> (body matches Err(problem) ==> (result matches Err(
                FeedbackError::Unwritten(message),
            ) && message@ == problem@)),
            urls.agent_feedback is Ok && body is Ok && self.credentials() is None
                ==> result matches Err(
                FeedbackError::Client(ClientApiError::NotSignedIn),
            ),
            result matches Ok(request) ==> {
                &&& self.credentials() is Some
                &&& request.method == Method::Post
                &&& request.uri@ == urls.agent_feedback->Ok_0@
                &&& request.body@ == body->Ok_0@
                &&& request.headers.deep_view() == seq![
                    ("Content-Type"@, "application/json"@),
                    (
                        "Authorization"@,
                        decimal(self.credentials()->0.user_id as nat) + " "@
                            + self.credentials()->0.access_token,
                    ),
                ]
            },
    {
        self.prepare_feedback(&urls.agent_feedback, body)
    }

    /// The request that submits the comments on an agent's thread in `body`.
    pub fn submit_agent_feedback_comments(&self, urls: &CloudUrls, body: Result<String, String>) -> (result: Result<
        HttpRequest,
        FeedbackError,
    >)
        ensures
            submitted(result) == feedback_request(
                self.credentials(),
                urls.url(Endpoint::AgentFeedbackComments),
                told(body),
            ),
            urls.agent_feedback_comments matches Err(problem) ==> (result matches Err(
                FeedbackError::Unwritten(message),
            ) && message@ == problem@),
            urls.agent_feedback_comments is Ok ==> (body matches Err(problem) ==> (result matches Err(
                FeedbackError::Unwritten(message),
            ) && message@ == problem@)),
            urls.agent_feedback_comments is Ok && body is Ok && self.credentials() is None
                ==> result matches Err(
                FeedbackError::Client(ClientApiError::NotSignedIn),
            ),
            result matches Ok(request) ==> {
                &&& self.credentials() is Some
                &&& request.method == Method::Post
                &&& request.uri@ == urls.agent_feedback_comments->Ok_0@
                &&& request.body@ == body->Ok_0@
                &&& request.headers.deep_view() == seq![
                    ("Content-Type"@, "application/json"@),
                    (
                        "Authorization"@,
                        decimal(self.credentials()->0.user_id as nat) + " "@
                            + self.credentials()->0.access_token,
                    ),
                ]
            },
    {
        self.prepare_feedback(&urls.agent_feedback_comments, body)
    }

    /// The request that submits the feedback on an edit prediction in `body`.
    pub fn submit_edit_prediction_feedback(&self, urls: &CloudUrls, body: Result<String, String>) -> (result: Result<
        HttpRequest,
        FeedbackError,
    >)
        ensures
            submitted(result) == feedback_request(
                self.credentials(),
                urls.url(Endpoint::EditPredictionFeedback),
                told(body),
            ),
            urls.edit_prediction_feedback matches Err(problem) ==> (result matches Err(
                FeedbackError::Unwritten(message),
            ) && message@ == problem@),
            urls.edit_prediction_feedback is Ok ==> (body matches Err(problem) ==> (result matches Err(
                FeedbackError::Unwritten(message),
            ) && message@ == problem@)),
            urls.edit_prediction_feedback is Ok && body is Ok && self.credentials() is None
                ==> result matches Err(
                FeedbackError::Client(ClientApiError::NotSignedIn),
            ),
            result matches Ok(request) ==> {
                &&& self.credentials() is Some
                &&& request.method == Method::Post
                &&& request.uri@ == urls.edit_prediction_feedback->Ok_0@
                &&& request.body@ == body->Ok_0@
                &&& request.headers.deep_view() == seq![
                    ("Content-Type"@, "application/json"@),
                    (
                        "Authorization"@,
                        decimal(self.credentials()->0.user_id as nat) + " "@
                            + self.credentials()->0.access_token,
                    ),
                ]
            },
    {
        self.prepare_feedback(&urls.edit_prediction_feedback, body)
    }
}

/// Without credentials no request is built: there is nothing to send.
pub proof fn lemma_no_request_without_credentials(
    method: Method,
    url: Result<Seq<char>, Seq<char>>,
    system_id: Option<Seq<char>>,
    body: Seq<char>,
)
    ensures
        prepared_request(None, method, url, system_id, body) is Err,
        url is Ok ==> prepared_request(None, method, url, system_id, body) == Err::<
            RequestModel,
            _,
        >(ClientFailure::NotSignedIn),
{
}

/// Every request that is built carries the credentials that are set in its last
/// header.
pub proof fn lemma_requests_carry_credentials(
    credentials: UserCredentials,
    method: Method,
    url: Seq<char>,
    system_id: Option<Seq<char>>,
    body: Seq<char>,
)
    ensures
        prepared_request(Some(credentials), method, Ok(url), system_id, body) matches Ok(request)
            ==> {
            &&& request.method == method
            &&& request.uri == url
            &&& request.body == body
            &&& request.headers.last() == ("Authorization"@, authorization(credentials))
        },
{
}

/// A request is built exactly if there is a URL, credentials are set, and HTTP allows
/// what the request then holds: the method, the URL and the body that were given, the
/// id of the system if there is one, what the body is, and the credentials.
pub proof fn lemma_prepared_request(
    credentials: Option<UserCredentials>,
    method: Method,
    url: Result<Seq<char>, Seq<char>>,
    system_id: Option<Seq<char>>,
    body: Seq<char>,
)
    ensures
        url matches Err(problem) ==> prepared_request(credentials, method, url, system_id, body)
            == Err::<RequestModel, _>(ClientFailure::RequestBuildFailed(problem)),
        url is Ok && credentials is None ==> prepared_request(
            credentials,
            method,
            url,
            system_id,
            body,
        ) == Err::<RequestModel, _>(ClientFailure::NotSignedIn),
        url is Ok && credentials is Some ==> {
            let request = RequestModel {
                method,
                uri: url->Ok_0,
                headers: (match system_id {
                    Some(id) => seq![("x-zed-system-id"@, id)],
                    None => Seq::<(Seq<char>, Seq<char>)>::empty(),
                }) + seq![
                    ("Content-Type"@, "application/json"@),
                    (
                        "Authorization"@,
                        decimal(credentials->0.user_id as nat) + " "@ + credentials->0.access_token,
                    ),
                ],
                body,
                redirect_policy: None,
            };
            prepared_request(credentials, method, url, system_id, body) == match validated_request(
                request,
            ) {
                Ok(_) => Ok(request),
                Err(problem) => Err(ClientFailure::RequestBuildFailed(problem)),
            }
        },
{
    if url is Ok && credentials is Some {
        let request = unsigned_request(method, url->Ok_0, system_id, body);
        let signed = signed_request(request, credentials->0);
        assert(signed.headers =~= (match system_id {
            Some(id) => seq![("x-zed-system-id"@, id)],
            None => Seq::<(Seq<char>, Seq<char>)>::empty(),
        }) + seq![
            ("Content-Type"@, "application/json"@),
            (
                "Authorization"@,
                decimal(credentials->0.user_id as nat) + " "@ + credentials->0.access_token,
            ),
        ]);
    }
}

/// Feedback is submitted by a request that posts it, once there are a URL, a body and
/// credentials; what is missing is told of in this order.
pub proof fn lemma_feedback_request(
    credentials: Option<UserCredentials>,
    url: Result<Seq<char>, Seq<char>>,
    body: Result<Seq<char>, Seq<char>>,
)
    ensures
        url matches Err(problem) ==> feedback_request(credentials, url, body) == Err::<
            RequestModel,
            _,
        >(FeedbackFailure::Unwritten(problem)),
        url is Ok ==> (body matches Err(problem) ==> feedback_request(credentials, url, body)
            == Err::<RequestModel, _>(FeedbackFailure::Unwritten(problem))),
        url is Ok && body is Ok ==> feedback_request(credentials, url, body)
            == match prepared_request(credentials, Method::Post, url, None, body->Ok_0) {
            Ok(request) => Ok(request),
            Err(failure) => Err(FeedbackFailure::Client(failure)),
        },
{
}

/// The URL of inbox items fits exactly if the URL they are served at, with three bytes
/// for each of what is added and three more, is no longer than a URL can be.
pub proof fn lemma_inbox_url_fits(url: Seq<char>, limit: nat)
    ensures
        inbox_url_fits(url, limit) <==> (parsed_url(url) matches Ok(written) ==> encode_utf8(
            written,
        ).len() + 3 * (encode_utf8("limit"@).len() + encode_utf8(decimal(limit)).len()) + 3
            <= 0xffff_ffff),
        inbox_url(url, limit) is Ok <==> parsed_url(url) is Ok,
{
}

} // verus!
