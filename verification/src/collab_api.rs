//! The server's side of the GitHub integration: what it answers, and how it
//! gathers a repository's activity page by page.
use crate::cloud_api_client::Endpoint;
use crate::cloud_api_types::{
    account_status, ConnectedAccount, GitHubConnectedAccount, GitHubIntegrationStatus,
};
use crate::github::requests::{
    make_repository_url, make_runs_page, make_updated_page, repository_url, runs_page,
    told_plainly, updated_page, GITHUB_API_URL,
};
use crate::http_request::{is_success, success, HttpRequest, Method, RequestModel};
use crate::outside::requests::{bytes_text, status_text, write_bytes, write_status};
use crate::text::{
    decimal, halves, is_blank, pieces, same_text, split, split_once, trim, trim_leading,
    trim_trailing, trimmed, without_leading, without_trailing,
};
use vstd::prelude::*;
use vstd::string::*;

verus! {

/// What is done about a request.
#[derive(Clone, Copy, Debug, PartialEq, Eq, Structural)]
pub enum Handler {
    GetStatus,
    Disconnect,
    GetToken,
    UpsertToken,
    SyncActivity,
    SyncRepositoryActivity,
}

/// Which requests are handled how.
#[derive(Clone, Copy, Debug, PartialEq, Eq, Structural)]
pub struct Route {
    pub endpoint: Endpoint,
    pub method: Method,
    pub handler: Handler,
}

/// The routes of the GitHub integration.
pub fn router() -> (result: Vec<Route>)
    ensures
        result@ == seq![
            Route {
                endpoint: Endpoint::GitHubIntegration,
                method: Method::Get,
                handler: Handler::GetStatus,
            },
            Route {
                endpoint: Endpoint::GitHubIntegration,
                method: Method::Delete,
                handler: Handler::Disconnect,
            },
            Route {
                endpoint: Endpoint::GitHubConnectedAccount,
                method: Method::Get,
                handler: Handler::GetToken,
            },
            Route {
                endpoint: Endpoint::GitHubConnectedAccount,
                method: Method::Put,
                handler: Handler::UpsertToken,
            },
            Route {
                endpoint: Endpoint::GitHubActivity,
                method: Method::Post,
                handler: Handler::SyncActivity,
            },
            Route {
                endpoint: Endpoint::GitHubRepositoryActivity,
                method: Method::Post,
                handler: Handler::SyncRepositoryActivity,
            },
        ],
        forall|i: int, j: int|
            0 <= i < j < result@.len() ==> (#[trigger] result@[i]).endpoint != (
            #[trigger] result@[j]).endpoint || result@[i].method != result@[j].method,
{
    vec![
        Route {
            endpoint: Endpoint::GitHubIntegration,
            method: Method::Get,
            handler: Handler::GetStatus,
        },
        Route {
            endpoint: Endpoint::GitHubIntegration,
            method: Method::Delete,
            handler: Handler::Disconnect,
        },
        Route {
            endpoint: Endpoint::GitHubConnectedAccount,
            method: Method::Get,
            handler: Handler::GetToken,
        },
        Route {
            endpoint: Endpoint::GitHubConnectedAccount,
            method: Method::Put,
            handler: Handler::UpsertToken,
        },
        Route {
            endpoint: Endpoint::GitHubActivity,
            method: Method::Post,
            handler: Handler::SyncActivity,
        },
        Route {
            endpoint: Endpoint::GitHubRepositoryActivity,
            method: Method::Post,
            handler: Handler::SyncRepositoryActivity,
        },
    ]
}

/// Why a request is not answered as it wishes.
#[derive(Clone, Debug, PartialEq, Eq)]
pub enum ApiError {
    /// An answer with a status and a message.
    Http { status: u16, message: String },
    /// A failure of the server's own.
    Internal { message: String },
}

/// What an `ApiError` holds.
pub enum ApiFailure {
    Http { status: u16, message: Seq<char> },
    Internal { message: Seq<char> },
}

impl DeepView for ApiError {
    type V = ApiFailure;

    open spec fn deep_view(&self) -> ApiFailure {
        match self {
            ApiError::Http { status, message } => ApiFailure::Http {
                status: *status,
                message: message@,
            },
            ApiError::Internal { message } => ApiFailure::Internal { message: message@ },
        }
    }
}

/// An answer that succeeds: with something in it, or without.
#[derive(Clone, Debug, PartialEq, Eq)]
pub enum Reply<T> {
    Json(T),
    NoContent,
}

/// The status of an answer that succeeds.
pub open spec fn reply_code<T>(reply: Reply<T>) -> u16 {
    match reply {
        Reply::Json(_) => 200,
        Reply::NoContent => 204,
    }
}

impl<T> Reply<T> {
    /// The status of the answer.
    pub fn status(&self) -> (result: u16)
        ensures
            result == reply_code(*self),
            self is Json ==> result == 200,
            self is NoContent ==> result == 204,
    {
        match self {
            Reply::Json(_) => 200,
            Reply::NoContent => 204,
        }
    }
}

/// The answer to the question for the integration's status: what may be shown of
/// the connected account, or nothing.
pub fn get_status(account: Option<GitHubConnectedAccount>) -> (result: Reply<
    GitHubIntegrationStatus,
>)
    ensures
        match account {
            None => result is NoContent,
            Some(account) => result matches Reply::Json(status) && {
                &&& status.deep_view() == account_status(account.deep_view())
                &&& status.login@ == account.login@
                &&& status.scopes.deep_view() == account.scopes.deep_view()
                &&& forall|scope: Seq<char>| #[trigger]
                    status.missing_scopes.deep_view().contains(scope) <==> (scope == "repo"@
                        || scope == "read:user"@) && !account.scopes.deep_view().contains(scope)
            },
        },
{
    match account {
        None => Reply::NoContent,
        Some(account) => Reply::Json(account.to_status()),
    }
}

/// The answer to the question for the token: the connected account, or nothing.
pub fn get_token(account: Option<GitHubConnectedAccount>) -> (result: Reply<
    GitHubConnectedAccount,
>)
    ensures
        result == match account {
            None => Reply::NoContent,
            Some(account) => Reply::Json(account),
        },
{
    match account {
        None => Reply::NoContent,
        Some(account) => Reply::Json(account),
    }
}

/// A request to connect an account.
#[derive(Clone, PartialEq, Eq)]
pub struct SetGitHubIntegrationRequest {
    pub login: String,
    pub scopes: Vec<String>,
    pub access_token: String,
}

/// What a `SetGitHubIntegrationRequest` asks for holds what an account holds.
impl DeepView for SetGitHubIntegrationRequest {
    type V = ConnectedAccount;

    open spec fn deep_view(&self) -> ConnectedAccount {
        ConnectedAccount {
            login: self.login@,
            scopes: self.scopes.deep_view(),
            access_token: self.access_token@,
        }
    }
}

/// The account that is asked for, with its login and token trimmed, if neither
/// is blank.
pub open spec fn requested_account(request: ConnectedAccount) -> Option<ConnectedAccount> {
    let login = trimmed(request.login);
    let access_token = trimmed(request.access_token);
    if login.len() == 0 || access_token.len() == 0 {
        None
    } else {
        Some(ConnectedAccount { login, scopes: request.scopes, access_token })
    }
}

impl SetGitHubIntegrationRequest {
    /// The account that is asked for, unless its login or its token is blank.
    pub fn into_account(self) -> (result: Option<GitHubConnectedAccount>)
        ensures
            result.deep_view() == requested_account(self.deep_view()),
            result is None <==> trimmed(self.login@).len() == 0 || trimmed(
                self.access_token@,
            ).len() == 0,
            result matches Some(account) ==> {
                &&& account.login@ == trimmed(self.login@)
                &&& account.scopes == self.scopes
                &&& account.access_token@ == trimmed(self.access_token@)
            },
    {
        let login = trim(&self.login);
        let access_token = trim(&self.access_token);
        if login.as_str().is_empty() || access_token.as_str().is_empty() {
            return None;
        }
        Some(GitHubConnectedAccount { login, scopes: self.scopes, access_token })
    }
}

/// The account to be connected, or the refusal of a request without a login or a
/// token.
pub fn upsert_token(request: SetGitHubIntegrationRequest) -> (result: Result<
    GitHubConnectedAccount,
    ApiError,
>)
    ensures
        match requested_account(request.deep_view()) {
            Some(account) => result matches Ok(given) && given.deep_view() == account,
            None => result matches Err(error) && error.deep_view() == (ApiFailure::Http {
                status: 400,
                message: "GitHub login and access token are required"@,
            }),
        },
        match result {
            Ok(account) => {
                &&& trimmed(request.login@).len() > 0
                &&& trimmed(request.access_token@).len() > 0
                &&& account.login@ == trimmed(request.login@)
                &&& account.scopes == request.scopes
                &&& account.access_token@ == trimmed(request.access_token@)
            },
            Err(error) => {
                &&& trimmed(request.login@).len() == 0 || trimmed(request.access_token@).len() == 0
                &&& error matches ApiError::Http { status, message } && status == 400 && message@
                    == "GitHub login and access token are required"@
            },
        },
{
    match request.into_account() {
        Some(account) => Ok(account),
        None => Err(
            ApiError::Http {
                status: 400,
                message: "GitHub login and access token are required".to_owned(),
            },
        ),
    }
}

/// The account to sync with, or the refusal where none is connected or nothing
/// can be fetched.
pub fn sync_repository_activity(
    account: Option<GitHubConnectedAccount>,
    has_http_client: bool,
) -> (result: Result<GitHubConnectedAccount, ApiError>)
    ensures
        match account {
            None => result matches Err(error) && error.deep_view() == (ApiFailure::Http {
                status: 409,
                message: "GitHub is not connected"@,
            }),
            Some(account) => if has_http_client {
                result == Ok::<_, ApiError>(account)
            } else {
                result matches Err(error) && error.deep_view() == (ApiFailure::Internal {
                    message: "HTTP client is unavailable"@,
                })
            },
        },
{
    let account = match account {
        Some(account) => account,
        None => {
            return Err(
                ApiError::Http { status: 409, message: "GitHub is not connected".to_owned() },
            )
        },
    };
    if !has_http_client {
        return Err(ApiError::Internal { message: "HTTP client is unavailable".to_owned() });
    }
    Ok(account)
}

/// How many entries one page holds.
pub const ENTRIES_PER_PAGE: u64 = 100;

/// Where a repository's activity is fetched from.
#[derive(Clone, Debug, PartialEq, Eq)]
pub struct ActivityUrls {
    pub issues: String,
    pub pull_requests: String,
    pub workflow_runs: String,
}

/// Where a repository's activity is fetched from. A blank repository is refused.
pub fn fetch_github_repository_activity(repository_name_with_owner: &str) -> (result: Result<
    ActivityUrls,
    ApiError,
>)
    ensures
        result is Ok <==> trimmed(repository_name_with_owner@).len() > 0,
        result matches Ok(urls) ==> {
            &&& urls.issues@ == "https://api.github.com/repos/"@ + repository_name_with_owner@
                + "/issues?state=all&per_page=100&sort=updated&direction=desc"@
            &&& urls.pull_requests@ == "https://api.github.com/repos/"@
                + repository_name_with_owner@
                + "/pulls?state=all&per_page=100&sort=updated&direction=desc"@
            &&& urls.workflow_runs@ == "https://api.github.com/repos/"@
                + repository_name_with_owner@
                + "/actions/runs?per_page=100&exclude_pull_requests=false"@
        },
        match result {
            Ok(urls) => {
                &&& urls.issues@ == repository_url(
                    repository_name_with_owner@,
                    updated_page("/issues?state=all"@, ENTRIES_PER_PAGE as nat),
                )
                &&& urls.pull_requests@ == repository_url(
                    repository_name_with_owner@,
                    updated_page("/pulls?state=all"@, ENTRIES_PER_PAGE as nat),
                )
                &&& urls.workflow_runs@ == repository_url(
                    repository_name_with_owner@,
                    runs_page(ENTRIES_PER_PAGE as nat),
                )
            },
            Err(error) => error.deep_view() == (ApiFailure::Http {
                status: 400,
                message: "repository_name_with_owner is required"@,
            }),
        },
{
    if is_blank(repository_name_with_owner) {
        return Err(
            ApiError::Http {
                status: 400,
                message: "repository_name_with_owner is required".to_owned(),
            },
        );
    }
    let issues = make_updated_page("/issues?state=all", ENTRIES_PER_PAGE);
    let pull_requests = make_updated_page("/pulls?state=all", ENTRIES_PER_PAGE);
    let workflow_runs = make_runs_page(ENTRIES_PER_PAGE);
    proof {
        lemma_page_texts();
    }
    Ok(
        ActivityUrls {
            issues: make_repository_url(repository_name_with_owner, &issues),
            pull_requests: make_repository_url(repository_name_with_owner, &pull_requests),
            workflow_runs: make_repository_url(repository_name_with_owner, &workflow_runs),
        },
    )
}

/// How the pages of a repository's activity are asked for.
proof fn lemma_page_texts()
    ensures
        GITHUB_API_URL@ + "/repos/"@ == "https://api.github.com/repos/"@,
        updated_page("/issues?state=all"@, ENTRIES_PER_PAGE as nat)
            == "/issues?state=all&per_page=100&sort=updated&direction=desc"@,
        updated_page("/pulls?state=all"@, ENTRIES_PER_PAGE as nat)
            == "/pulls?state=all&per_page=100&sort=updated&direction=desc"@,
        runs_page(ENTRIES_PER_PAGE as nat)
            == "/actions/runs?per_page=100&exclude_pull_requests=false"@,
{
    reveal_with_fuel(decimal, 3);
    assert(decimal(100) == seq!['1', '0', '0']);
    reveal_strlit("https://api.github.com");
    reveal_strlit("/repos/");
    reveal_strlit("https://api.github.com/repos/");
    reveal_strlit("/issues?state=all");
    reveal_strlit("/pulls?state=all");
    reveal_strlit("&per_page=");
    reveal_strlit("&sort=updated&direction=desc");
    reveal_strlit("/issues?state=all&per_page=100&sort=updated&direction=desc");
    reveal_strlit("/pulls?state=all&per_page=100&sort=updated&direction=desc");
    reveal_strlit("/actions/runs?per_page=");
    reveal_strlit("&exclude_pull_requests=false");
    reveal_strlit("/actions/runs?per_page=100&exclude_pull_requests=false");
}

/// What was gathered page by page, and where the next page is.
#[derive(Clone, Debug, PartialEq, Eq)]
pub struct Pagination<T> {
    pub results: Vec<T>,
    pub next_url: Option<String>,
}

impl<T> Pagination<T> {
    /// Nothing is gathered yet, and the first page is at `url`.
    pub fn new(url: &str) -> (result: Self)
        ensures
            result.results@ == Seq::<T>::empty(),
            result.next_url.deep_view() == Some(url@),
    {
        Pagination { results: Vec::new(), next_url: Some(url.to_owned()) }
    }

    /// The URL of the page to fetch next. Nothing more is fetched until the page
    /// is handed over.
    pub fn take_next_url(&mut self) -> (result: Option<String>)
        ensures
            result == old(self).next_url,
            final(self).next_url is None,
            final(self).results == old(self).results,
    {
        self.next_url.take()
    }

    /// Gathers a page, behind which the next page is at `next_url`.
    pub fn accept(&mut self, page: Vec<T>, next_url: Option<String>)
        ensures
            final(self).results@ == old(self).results@ + page@,
            final(self).next_url == next_url,
    {
        let mut page = page;
        self.results.append(&mut page);
        self.next_url = next_url;
    }
}

/// What is gathered from `pages`, one after the other.
pub open spec fn gathered<T>(pages: Seq<Seq<T>>) -> Seq<T>
    decreases pages.len(),
{
    if pages.len() == 0 {
        Seq::empty()
    } else {
        gathered(pages.drop_last()) + pages.last()
    }
}

/// What is gathered grows by each page that is accepted.
pub proof fn lemma_gathered_next<T>(pages: Seq<Seq<T>>, page: Seq<T>)
    ensures
        gathered(pages.push(page)) == gathered(pages) + page,
{
    assert(pages.push(page).drop_last() == pages);
}

/// Whatever stands on some page is gathered, and whatever is gathered stood on
/// some page.
pub proof fn lemma_gathered<T>(pages: Seq<Seq<T>>, x: T)
    ensures
        gathered(pages).contains(x) <==> exists|i: int|
            0 <= i < pages.len() && (#[trigger] pages[i]).contains(x),
    decreases pages.len(),
{
    if pages.len() > 0 {
        let rest = pages.drop_last();
        lemma_gathered(rest, x);
        let all = gathered(pages);
        let some = gathered(rest);
        if all.contains(x) {
            let k = choose|k: int| 0 <= k < all.len() && all[k] == x;
            if k < some.len() {
                assert(some[k] == x);
                let i = choose|i: int| 0 <= i < rest.len() && (#[trigger] rest[i]).contains(x);
                assert(pages[i].contains(x));
            } else {
                assert(pages.last()[k - some.len()] == x);
                assert(pages[pages.len() - 1].contains(x));
            }
        }
        if exists|i: int| 0 <= i < pages.len() && (#[trigger] pages[i]).contains(x) {
            let i = choose|i: int| 0 <= i < pages.len() && (#[trigger] pages[i]).contains(x);
            if i < rest.len() {
                assert(rest[i].contains(x));
                let k = choose|k: int| 0 <= k < some.len() && some[k] == x;
                assert(all[k] == x);
            } else {
                let k = choose|k: int| 0 <= k < pages[i].len() && pages[i][k] == x;
                assert(all[some.len() + k] == x);
            }
        }
    }
}

/// The request for a page, made with the account's token.
pub open spec fn page_request(url: Seq<char>, access_token: Seq<char>) -> RequestModel {
    RequestModel {
        method: Method::Get,
        uri: url,
        headers: seq![
            ("Authorization"@, "Bearer "@ + access_token),
            ("User-Agent"@, "Rezed"@),
            ("Accept"@, "application/vnd.github+json"@),
            ("X-GitHub-Api-Version"@, "2022-11-28"@),
        ],
        body: Seq::empty(),
        redirect_policy: None,
    }
}

/// The request for a page, made with the account's token.
pub fn github_page_request(url: &str, access_token: &str) -> (result: HttpRequest)
    ensures
        result.deep_view() == page_request(url@, access_token@),
        result.method == Method::Get,
        result.uri@ == url@,
        result.body@.len() == 0,
        result.redirect_policy is None,
        result.headers.deep_view() == seq![
            ("Authorization"@, "Bearer "@ + access_token@),
            ("User-Agent"@, "Rezed"@),
            ("Accept"@, "application/vnd.github+json"@),
            ("X-GitHub-Api-Version"@, "2022-11-28"@),
        ],
{
    let result = HttpRequest::new(Method::Get, url).bearer(Some(access_token)).header(
        "User-Agent",
        "Rezed",
    ).header("Accept", "application/vnd.github+json").header("X-GitHub-Api-Version", "2022-11-28");
    assert(result.deep_view() == page_request(url@, access_token@));
    result
}

/// What is said of an answer that reports a failure.
pub open spec fn gateway_failure(status: Seq<char>, body: Seq<char>) -> ApiFailure {
    ApiFailure::Http {
        status: 502,
        message: "GitHub returned status "@ + status + ", response: "@ + body,
    }
}

/// What is said of an answer that reports a failure, whose status and body are
/// written as given.
pub fn page_failure(status: &str, body: &str) -> (result: ApiError)
    ensures
        result.deep_view() == gateway_failure(status@, body@),
        result matches ApiError::Http { status: code, message } && code == 502 && message@
            == "GitHub returned status "@ + status@ + ", response: "@ + body@,
{
    let mut message = "GitHub returned status ".to_owned();
    message.append(status);
    message.append(", response: ");
    message.append(body);
    ApiError::Http { status: 502, message }
}

/// What is made of a page, where `parsed` is what its body says or why it says
/// nothing.
pub open spec fn page_outcome<T>(
    status: u16,
    body: Seq<u8>,
    parsed: Result<T, Seq<char>>,
) -> Result<T, ApiFailure> {
    if success(status) {
        match parsed {
            Ok(value) => Ok(value),
            Err(problem) => Err(
                ApiFailure::Internal {
                    message: "error deserializing GitHub API response: "@ + problem,
                },
            ),
        }
    } else {
        Err(gateway_failure(status_text(status), bytes_text(body)))
    }
}

/// Where the answer with the link header `link` says that the next page is.
pub open spec fn following_page(link: Option<Seq<char>>) -> Option<Seq<char>> {
    match link {
        Some(link) => first_next_url(pieces(link, ',')),
        None => None,
    }
}

/// What is made of a page, and where the next page is: `link` is the answer's
/// link header, and `parsed` what its body says or why it says nothing.
pub fn get_github_json_page<T>(
    status: u16,
    link: Option<&str>,
    body: &Vec<u8>,
    parsed: Result<T, String>,
) -> (result: Result<(T, Option<String>), ApiError>)
    requires
        100 <= status < 1000,
    ensures
        match result {
            Ok((value, next_url)) => {
                &&& page_outcome(status, body@, told_plainly(parsed)) == Ok::<T, ApiFailure>(value)
                &&& next_url.deep_view() == following_page(link.deep_view())
            },
            Err(error) => page_outcome(status, body@, told_plainly(parsed)) == Err::<
                T,
                ApiFailure,
            >(error.deep_view()),
        },
        result is Ok <==> 200 <= status < 300 && parsed is Ok,
        match result {
            Ok((value, next_url)) => parsed == Ok::<T, String>(value) && next_url.deep_view()
                == match link {
                Some(link) => first_next_url(pieces(link@, ',')),
                None => None,
            },
            Err(error) => if 200 <= status < 300 {
                error matches ApiError::Internal { message } && message@
                    == "error deserializing GitHub API response: "@ + parsed->Err_0@
            } else {
                error matches ApiError::Http { status: code, message } && code == 502 && message@
                    == "GitHub returned status "@ + status_text(status) + ", response: "@
                    + bytes_text(body@)
            },
        },
{
    let next = match link {
        Some(link) => github_next_link(link),
        None => None,
    };
    if !is_success(status) {
        let status_text = match write_status(status) {
            Some(text) => text,
            None => String::new(),
        };
        let body_text = write_bytes(body.as_slice());
        return Err(page_failure(&status_text, &body_text));
    }
    match parsed {
        Ok(page) => Ok((page, next)),
        Err(problem) => {
            let mut message = "error deserializing GitHub API response: ".to_owned();
            message.append(&problem);
            Err(ApiError::Internal { message })
        },
    }
}

/// Where one link of a link header leads, if it leads to the next page.
pub open spec fn next_url_of(link: Seq<char>) -> Option<Seq<char>> {
    match halves(trimmed(link), ';') {
        None => None,
        Some((url, rel)) => if trimmed(rel) == "rel=\"next\""@ {
            Some(without_trailing(without_leading(trimmed(url), '<'), '>'))
        } else {
            None
        },
    }
}

/// Where the first of `links` that leads to the next page leads.
pub open spec fn first_next_url(links: Seq<Seq<char>>) -> Option<Seq<char>>
    decreases links.len(),
{
    if links.len() == 0 {
        None
    } else {
        match next_url_of(links[0]) {
            Some(url) => Some(url),
            None => first_next_url(links.drop_first()),
        }
    }
}

/// Where the link header says that the next page is.
pub fn github_next_link(link_header: &str) -> (result: Option<String>)
    ensures
        result.deep_view() == first_next_url(pieces(link_header@, ',')),
        result matches Some(url) ==> exists|i: int|
            0 <= i < pieces(link_header@, ',').len() && (halves(
                trimmed(#[trigger] pieces(link_header@, ',')[i]),
                ';',
            ) matches Some((target, rel)) && trimmed(rel) == "rel=\"next\""@ && url@
                == without_trailing(without_leading(trimmed(target), '<'), '>')),
        result is None ==> forall|i: int|
            0 <= i < pieces(link_header@, ',').len() ==> !(halves(
                trimmed(#[trigger] pieces(link_header@, ',')[i]),
                ';',
            ) matches Some((target, rel)) && trimmed(rel) == "rel=\"next\""@),
{
    proof {
        lemma_first_next_url(pieces(link_header@, ','));
    }
    let links = split(link_header, ',');
    let ghost models = links.deep_view();
    assert(models.skip(0) == models);
    for i in 0..links.len()
        invariant
            models == links.deep_view(),
            models == pieces(link_header@, ','),
            first_next_url(models) == first_next_url(models.skip(i as int)),
    {
        assert(models.skip(i as int)[0] == links[i as int]@);
        assert(models.skip(i as int).drop_first() == models.skip(i + 1));
        if let Some((url, rel)) = split_once(&trim(&links[i]), ';') {
            if same_text(&trim(&rel), "rel=\"next\"") {
                return Some(trim_trailing(&trim_leading(&trim(&url), '<'), '>'));
            }
        }
    }
    None
}

/// The next page is where the first link of all that has the relation says: whatever
/// place it has among the links, none before it has the relation, and only where none
/// at all has it there is no next page.
pub proof fn lemma_first_next_url(links: Seq<Seq<char>>)
    ensures
        match first_next_url(links) {
            Some(url) => exists|i: int|
                0 <= i < links.len() && (halves(trimmed(#[trigger] links[i]), ';') matches Some(
                    (target, rel),
                ) && trimmed(rel) == "rel=\"next\""@ && url == without_trailing(
                    without_leading(trimmed(target), '<'),
                    '>',
                )) && (forall|j: int|
                    0 <= j < i ==> !(halves(trimmed(#[trigger] links[j]), ';') matches Some(
                        (target, rel),
                    ) && trimmed(rel) == "rel=\"next\""@)),
            None => forall|j: int|
                0 <= j < links.len() ==> !(halves(trimmed(#[trigger] links[j]), ';') matches Some(
                    (target, rel),
                ) && trimmed(rel) == "rel=\"next\""@),
        },
    decreases links.len(),
{
    if links.len() > 0 && next_url_of(links[0]) is None {
        let rest = links.drop_first();
        lemma_first_next_url(rest);
        match first_next_url(rest) {
            Some(url) => {
                let i = choose|i: int|
                    0 <= i < rest.len() && (halves(trimmed(#[trigger] rest[i]), ';') matches Some(
                        (target, rel),
                    ) && trimmed(rel) == "rel=\"next\""@ && url == without_trailing(
                        without_leading(trimmed(target), '<'),
                        '>',
                    )) && (forall|j: int|
                        0 <= j < i ==> !(halves(trimmed(#[trigger] rest[j]), ';') matches Some(
                            (target, rel),
                        ) && trimmed(rel) == "rel=\"next\""@));
                assert(links[i + 1] == rest[i]);
                assert forall|j: int| 0 <= j < i + 1 implies !(halves(
                    trimmed(#[trigger] links[j]),
                    ';',
                ) matches Some((target, rel)) && trimmed(rel) == "rel=\"next\""@) by {
                    if j > 0 {
                        assert(links[j] == rest[j - 1]);
                    }
                }
            },
            None => {
                assert forall|j: int| 0 <= j < links.len() implies !(halves(
                    trimmed(#[trigger] links[j]),
                    ';',
                ) matches Some((target, rel)) && trimmed(rel) == "rel=\"next\""@) by {
                    if j > 0 {
                        assert(links[j] == rest[j - 1]);
                    }
                }
            },
        }
    }
}

/// Pages that follow one another are gathered one after the other.
pub proof fn lemma_gathered_joins<T>(first: Seq<Seq<T>>, second: Seq<Seq<T>>)
    ensures
        gathered(first + second) == gathered(first) + gathered(second),
        forall|page: Seq<T>| gathered(seq![page]) == page,
    decreases second.len(),
{
    assert forall|page: Seq<T>| gathered(seq![page]) == page by {
        assert(seq![page].drop_last() == Seq::<Seq<T>>::empty());
        assert(gathered(seq![page].drop_last()) + page == page);
    }
    if second.len() == 0 {
        assert(first + second == first);
    } else {
        lemma_gathered_joins(first, second.drop_last());
        assert((first + second).drop_last() == first + second.drop_last());
        assert(gathered(first) + gathered(second.drop_last()) + second.last() == gathered(first) + (
        gathered(second.drop_last()) + second.last()));
    }
}

} // verus!
