//! What is asked of the GitHub API, and what is made of its answers.
use super::types::{
    DeviceAccessToken, DeviceAccessTokenPoll, DeviceAccessTokenResponse, GitHubDeviceAccessToken,
    GitHubDeviceAccessTokenPoll, GitHubDeviceAccessTokenResponse,
};
use crate::http_request::{
    is_success, success, validated_request, with_bearer, HttpRequest, Method, RedirectPolicy,
    RequestModel,
};
use crate::models::told;
use crate::outside::forms::{encode_form, form_text};
use crate::outside::std_text::{from_utf8_lossy, lossy_text, quote, quoted_text};
use crate::text::{
    characters, decimal, halves, number_text, pieces, same_text, spell, split, split_once, trim,
    trimmed,
};
use vstd::prelude::*;
use vstd::string::*;

verus! {

pub const GITHUB_API_URL: &'static str = "https://api.github.com";

pub const GITHUB_DEVICE_CODE_URL: &'static str = "https://github.com/login/device/code";

pub const GITHUB_DEVICE_ACCESS_TOKEN_URL: &'static str =
    "https://github.com/login/oauth/access_token";

/// How many entries one page of activity holds.
pub const GITHUB_ACTIVITY_PER_PAGE: u64 = 20;

/// What device authorization calls itself.
pub const GITHUB_DEVICE_GRANT_TYPE: &'static str = "urn:ietf:params:oauth:grant-type:device_code";

/// The URL of something that belongs to `repository`.
pub open spec fn repository_url(repository: Seq<char>, rest: Seq<char>) -> Seq<char> {
    GITHUB_API_URL@ + "/repos/"@ + repository + rest
}

/// The URL of something that belongs to `repository`.
pub fn make_repository_url(repository: &str, rest: &str) -> (result: String)
    ensures
        result@ == repository_url(repository@, rest@),
        result@ == "https://api.github.com/repos/"@ + repository@ + rest@,
{
    proof {
        lemma_repository_url(repository@, rest@);
    }
    let mut result = GITHUB_API_URL.to_owned();
    result.append("/repos/");
    result.append(repository);
    result.append(rest);
    result
}

/// A request that posts a form and wants JSON.
pub open spec fn form_request(url: Seq<char>, pairs: Seq<(Seq<char>, Seq<char>)>) -> RequestModel {
    RequestModel {
        method: Method::Post,
        uri: url,
        headers: seq![
            ("User-Agent"@, "Rezed"@),
            ("Accept"@, "application/json"@),
            ("Content-Type"@, "application/x-www-form-urlencoded"@),
        ],
        body: form_text(pairs),
        redirect_policy: Some(RedirectPolicy::FollowAll),
    }
}

/// A request that posts a form, already encoded as `body`, and wants JSON.
pub fn post_form(url: &str, body: String) -> (result: HttpRequest)
    ensures
        result.deep_view() == (RequestModel {
            method: Method::Post,
            uri: url@,
            headers: seq![
                ("User-Agent"@, "Rezed"@),
                ("Accept"@, "application/json"@),
                ("Content-Type"@, "application/x-www-form-urlencoded"@),
            ],
            body: body@,
            redirect_policy: Some(RedirectPolicy::FollowAll),
        }),
{
    HttpRequest::new(Method::Post, url).follow_redirects(RedirectPolicy::FollowAll).header(
        "User-Agent",
        "Rezed",
    ).header("Accept", "application/json").header(
        "Content-Type",
        "application/x-www-form-urlencoded",
    ).with_body(body)
}

/// What is asked to start the authorization of a device.
pub fn request_device_code(client_id: &str, scope: &str) -> (result: Result<HttpRequest, String>)
    ensures
        told(result) == Ok::<_, Seq<char>>(
            form_request(
                GITHUB_DEVICE_CODE_URL@,
                seq![("client_id"@, client_id@), ("scope"@, scope@)],
            ),
        ),
        result matches Ok(request) && {
            &&& request.method == Method::Post
            &&& request.uri@ == "https://github.com/login/device/code"@
            &&& request.body@ == form_text(seq![("client_id"@, client_id@), ("scope"@, scope@)])
            &&& request.headers.deep_view() == seq![
                ("User-Agent"@, "Rezed"@),
                ("Accept"@, "application/json"@),
                ("Content-Type"@, "application/x-www-form-urlencoded"@),
            ]
        },
{
    let mut pairs: Vec<(String, String)> = Vec::new();
    pairs.push(("client_id".to_owned(), client_id.to_owned()));
    pairs.push(("scope".to_owned(), scope.to_owned()));
    assert(pairs.deep_view() == seq![("client_id"@, client_id@), ("scope"@, scope@)]);
    match encode_form(&pairs) {
        Ok(body) => Ok(post_form(GITHUB_DEVICE_CODE_URL, body)),
        Err(_) => Err(String::new()),
    }
}

/// What is asked to learn how far the authorization of a device has come.
pub fn poll_device_access_token(client_id: &str, device_code: &str) -> (result: Result<
    HttpRequest,
    String,
>)
    ensures
        told(result) == Ok::<_, Seq<char>>(
            form_request(
                GITHUB_DEVICE_ACCESS_TOKEN_URL@,
                seq![
                    ("client_id"@, client_id@),
                    ("device_code"@, device_code@),
                    ("grant_type"@, GITHUB_DEVICE_GRANT_TYPE@),
                ],
            ),
        ),
        result matches Ok(request) && {
            &&& request.method == Method::Post
            &&& request.uri@ == "https://github.com/login/oauth/access_token"@
            &&& request.body@ == form_text(
                seq![
                    ("client_id"@, client_id@),
                    ("device_code"@, device_code@),
                    ("grant_type"@, "urn:ietf:params:oauth:grant-type:device_code"@),
                ],
            )
            &&& request.headers.deep_view() == seq![
                ("User-Agent"@, "Rezed"@),
                ("Accept"@, "application/json"@),
                ("Content-Type"@, "application/x-www-form-urlencoded"@),
            ]
        },
{
    let mut pairs: Vec<(String, String)> = Vec::new();
    pairs.push(("client_id".to_owned(), client_id.to_owned()));
    pairs.push(("device_code".to_owned(), device_code.to_owned()));
    pairs.push(("grant_type".to_owned(), GITHUB_DEVICE_GRANT_TYPE.to_owned()));
    assert(pairs.deep_view() == seq![
        ("client_id"@, client_id@),
        ("device_code"@, device_code@),
        ("grant_type"@, GITHUB_DEVICE_GRANT_TYPE@),
    ]);
    match encode_form(&pairs) {
        Ok(body) => Ok(post_form(GITHUB_DEVICE_ACCESS_TOKEN_URL, body)),
        Err(_) => Err(String::new()),
    }
}

/// What an answer to a poll for a device's token says.
pub open spec fn poll_outcome(response: DeviceAccessTokenResponse) -> Result<
    DeviceAccessTokenPoll,
    Seq<char>,
> {
    match response.error {
        Some(error) => if error == "authorization_pending"@ {
            Ok(DeviceAccessTokenPoll::Pending)
        } else if error == "slow_down"@ {
            Ok(DeviceAccessTokenPoll::SlowDown)
        } else {
            Err(
                "GitHub device authorization failed: "@ + match response.error_description {
                    Some(description) => description,
                    None => error,
                },
            )
        },
        None => match (response.access_token, response.token_type) {
            (None, _) => Err("GitHub device authorization did not return an access token"@),
            (Some(_), None) => Err("GitHub device authorization did not return a token type"@),
            (Some(access_token), Some(token_type)) => Ok(
                DeviceAccessTokenPoll::Complete(
                    DeviceAccessToken {
                        access_token,
                        token_type,
                        scope: match response.scope {
                            Some(scope) => scope,
                            None => Seq::empty(),
                        },
                    },
                ),
            ),
        },
    }
}

/// What an answer to a poll for a device's token says.
pub fn device_access_token_poll(response: GitHubDeviceAccessTokenResponse) -> (result: Result<
    GitHubDeviceAccessTokenPoll,
    String,
>)
    ensures
        told(result) == poll_outcome(response.deep_view()),
        (result matches Ok(poll) && poll is Pending) <==> (response.error matches Some(error)
            && error@ == "authorization_pending"@),
        (result matches Ok(poll) && poll is SlowDown) <==> (response.error matches Some(error)
            && error@ == "slow_down"@),
        (result matches Ok(poll) && poll is Complete) <==> response.error is None
            && response.access_token is Some && response.token_type is Some,
        result matches Ok(GitHubDeviceAccessTokenPoll::Complete(token)) ==> {
            &&& token.access_token@ == response.access_token->0@
            &&& token.token_type@ == response.token_type->0@
            &&& token.scope@ == match response.scope {
                Some(scope) => scope@,
                None => Seq::<char>::empty(),
            }
        },
        result matches Err(message) ==> message@ == match response.error {
            Some(error) => "GitHub device authorization failed: "@
                + match response.error_description {
                Some(description) => description@,
                None => error@,
            },
            None => if response.access_token is None {
                "GitHub device authorization did not return an access token"@
            } else {
                "GitHub device authorization did not return a token type"@
            },
        },
{
    proof {
        reveal_strlit("authorization_pending");
        reveal_strlit("slow_down");
        assert("authorization_pending"@.len() != "slow_down"@.len());
    }
    match response.error {
        Some(error) => {
            if same_text(&error, "authorization_pending") {
                Ok(GitHubDeviceAccessTokenPoll::Pending)
            } else if same_text(&error, "slow_down") {
                Ok(GitHubDeviceAccessTokenPoll::SlowDown)
            } else {
                let description = match response.error_description {
                    Some(description) => description,
                    None => error,
                };
                let mut message = "GitHub device authorization failed: ".to_owned();
                message.append(&description);
                Err(message)
            }
        },
        None => {
            let access_token = match response.access_token {
                Some(access_token) => access_token,
                None => {
                    return Err(
                        "GitHub device authorization did not return an access token".to_owned(),
                    )
                },
            };
            let token_type = match response.token_type {
                Some(token_type) => token_type,
                None => {
                    return Err(
                        "GitHub device authorization did not return a token type".to_owned(),
                    )
                },
            };
            let scope = match response.scope {
                Some(scope) => scope,
                None => String::new(),
            };
            Ok(
                GitHubDeviceAccessTokenPoll::Complete(
                    GitHubDeviceAccessToken { access_token, token_type, scope },
                ),
            )
        },
    }
}

/// A request for something that the GitHub API serves as JSON.
pub open spec fn api_request(url: Seq<char>, token: Option<Seq<char>>) -> RequestModel {
    with_bearer(
        RequestModel {
            method: Method::Get,
            uri: url,
            headers: seq![
                ("User-Agent"@, "Rezed"@),
                ("Accept"@, "application/vnd.github+json"@),
                ("X-GitHub-Api-Version"@, "2022-11-28"@),
            ],
            body: Seq::empty(),
            redirect_policy: Some(RedirectPolicy::FollowAll),
        },
        token,
    )
}

/// A request for something that the GitHub API serves as JSON, before it is
/// validated.
pub fn make_api_request(url: &str, token: Option<&str>) -> (result: HttpRequest)
    ensures
        result.deep_view() == api_request(url@, token.deep_view()),
        ({
            let request = result;
            &&& request.uri@ == url@
            &&& request.method == Method::Get
            &&& request.body@.len() == 0
            &&& request.headers.deep_view() == match token {
                Some(token) => seq![
                    ("User-Agent"@, "Rezed"@),
                    ("Accept"@, "application/vnd.github+json"@),
                    ("X-GitHub-Api-Version"@, "2022-11-28"@),
                    ("Authorization"@, "Bearer "@ + token@),
                ],
                None => seq![
                    ("User-Agent"@, "Rezed"@),
                    ("Accept"@, "application/vnd.github+json"@),
                    ("X-GitHub-Api-Version"@, "2022-11-28"@),
                ],
            }
            &&& request.redirect_policy == Some(RedirectPolicy::FollowAll)
        }),
{
    let request = HttpRequest::new(Method::Get, url).follow_redirects(
        RedirectPolicy::FollowAll,
    ).header("User-Agent", "Rezed").header("Accept", "application/vnd.github+json").header(
        "X-GitHub-Api-Version",
        "2022-11-28",
    );
    assert(request.deep_view() == (RequestModel {
        method: Method::Get,
        uri: url@,
        headers: seq![
            ("User-Agent"@, "Rezed"@),
            ("Accept"@, "application/vnd.github+json"@),
            ("X-GitHub-Api-Version"@, "2022-11-28"@),
        ],
        body: Seq::empty(),
        redirect_policy: Some(RedirectPolicy::FollowAll),
    }));
    let result = request.bearer(token);
    assert(result.headers.deep_view() == match token {
        Some(token) => seq![
            ("User-Agent"@, "Rezed"@),
            ("Accept"@, "application/vnd.github+json"@),
            ("X-GitHub-Api-Version"@, "2022-11-28"@),
            ("Authorization"@, "Bearer "@ + token@),
        ],
        None => seq![
            ("User-Agent"@, "Rezed"@),
            ("Accept"@, "application/vnd.github+json"@),
            ("X-GitHub-Api-Version"@, "2022-11-28"@),
        ],
    });
    result
}

/// A request for something that the GitHub API serves as JSON, or what is wrong with
/// it.
pub fn github_request(url: &str, token: Option<&str>) -> (result: Result<HttpRequest, String>)
    ensures
        told(result) == validated_request(api_request(url@, token.deep_view())),
        result matches Ok(request) ==> {
            &&& request.uri@ == url@
            &&& request.method == Method::Get
            &&& request.body@.len() == 0
            &&& request.headers.deep_view() == match token {
                Some(token) => seq![
                    ("User-Agent"@, "Rezed"@),
                    ("Accept"@, "application/vnd.github+json"@),
                    ("X-GitHub-Api-Version"@, "2022-11-28"@),
                    ("Authorization"@, "Bearer "@ + token@),
                ],
                None => seq![
                    ("User-Agent"@, "Rezed"@),
                    ("Accept"@, "application/vnd.github+json"@),
                    ("X-GitHub-Api-Version"@, "2022-11-28"@),
                ],
            }
            &&& request.redirect_policy == Some(RedirectPolicy::FollowAll)
        },
{
    make_api_request(url, token).validated()
}

/// The request for the user that `token` belongs to, or what is wrong with it.
pub fn viewer(token: &str) -> (result: Result<HttpRequest, String>)
    ensures
        told(result) == validated_request(
            api_request(GITHUB_API_URL@ + "/user"@, Some(token@)),
        ),
        result matches Ok(request) ==> {
            &&& request.uri@ == "https://api.github.com/user"@
            &&& request.method == Method::Get
        },
        result matches Ok(request) ==> request.headers.deep_view().last() == (
            "Authorization"@,
            "Bearer "@ + token@,
        ),
{
    proof {
        reveal_strlit("https://api.github.com");
        reveal_strlit("/user");
        reveal_strlit("https://api.github.com/user");
        assert("https://api.github.com"@ + "/user"@ == "https://api.github.com/user"@);
    }
    let mut url = GITHUB_API_URL.to_owned();
    url.append("/user");
    github_request(&url, Some(token))
}

/// What asks for a page of a list that is sorted by the time of update.
pub open spec fn updated_page(list: Seq<char>, per_page: nat) -> Seq<char> {
    list + "&per_page="@ + decimal(per_page) + "&sort=updated&direction=desc"@
}

/// What asks for a page of a list that is sorted by the time of update.
pub fn make_updated_page(list: &str, per_page: u64) -> (result: String)
    ensures
        result@ == updated_page(list@, per_page as nat),
{
    let mut result = list.to_owned();
    result.append("&per_page=");
    result.append(&number_text(per_page));
    result.append("&sort=updated&direction=desc");
    result
}

/// What asks for a page of workflow runs.
pub open spec fn runs_page(per_page: nat) -> Seq<char> {
    "/actions/runs?per_page="@ + decimal(per_page) + "&exclude_pull_requests=false"@
}

/// What asks for a page of workflow runs.
pub fn make_runs_page(per_page: u64) -> (result: String)
    ensures
        result@ == runs_page(per_page as nat),
{
    let mut result = "/actions/runs?per_page=".to_owned();
    result.append(&number_text(per_page));
    result.append("&exclude_pull_requests=false");
    result
}

/// The request for the first page of a repository's open pull requests, or what is
/// wrong with it.
pub fn pull_requests_page(repo_name_with_owner: &str, token: Option<&str>) -> (result: Result<
    HttpRequest,
    String,
>)
    ensures
        told(result) == validated_request(
            api_request(
                repository_url(
                    repo_name_with_owner@,
                    updated_page("/pulls?state=open"@, GITHUB_ACTIVITY_PER_PAGE as nat),
                ),
                token.deep_view(),
            ),
        ),
        result matches Ok(request) ==> {
            &&& request.uri@ == "https://api.github.com/repos/"@ + repo_name_with_owner@
                + "/pulls?state=open&per_page=20&sort=updated&direction=desc"@
            &&& request.method == Method::Get
        },
{
    proof {
        lemma_activity_pages();
    }
    let rest = make_updated_page("/pulls?state=open", GITHUB_ACTIVITY_PER_PAGE);
    pull_requests_page_url(&make_repository_url(repo_name_with_owner, &rest), token)
}

/// The request for the page of pull requests at `url`, or what is wrong with it.
pub fn pull_requests_page_url(url: &str, token: Option<&str>) -> (result: Result<
    HttpRequest,
    String,
>)
    ensures
        told(result) == validated_request(api_request(url@, token.deep_view())),
        result matches Ok(request) ==> {
            &&& request.uri@ == url@
            &&& request.method == Method::Get
        },
{
    github_request(url, token)
}

/// The request for a repository's open pull requests, the first page of them, or what
/// is wrong with it.
pub fn pull_requests(repo_name_with_owner: &str, token: Option<&str>) -> (result: Result<
    HttpRequest,
    String,
>)
    ensures
        told(result) == validated_request(
            api_request(
                repository_url(
                    repo_name_with_owner@,
                    updated_page("/pulls?state=open"@, GITHUB_ACTIVITY_PER_PAGE as nat),
                ),
                token.deep_view(),
            ),
        ),
        result matches Ok(request) ==> {
            &&& request.uri@ == "https://api.github.com/repos/"@ + repo_name_with_owner@
                + "/pulls?state=open&per_page=20&sort=updated&direction=desc"@
            &&& request.method == Method::Get
        },
{
    pull_requests_page(repo_name_with_owner, token)
}

/// The request for one pull request, or what is wrong with it.
pub fn pull_request(repo_name_with_owner: &str, pull_number: u64, token: Option<&str>) -> (result:
    Result<HttpRequest, String>)
    ensures
        told(result) == validated_request(
            api_request(
                repository_url(repo_name_with_owner@, "/pulls/"@ + decimal(pull_number as nat)),
                token.deep_view(),
            ),
        ),
        result matches Ok(request) ==> {
            &&& request.uri@ == "https://api.github.com/repos/"@ + repo_name_with_owner@ + ("/pulls/"@
                + decimal(pull_number as nat))
            &&& request.method == Method::Get
        },
{
    let mut rest = "/pulls/".to_owned();
    rest.append(&number_text(pull_number));
    github_request(&make_repository_url(repo_name_with_owner, &rest), token)
}

/// The request for the files that a pull request changes, or what is wrong with it.
pub fn pull_request_files(
    repo_name_with_owner: &str,
    pull_number: u64,
    token: Option<&str>,
) -> (result: Result<HttpRequest, String>)
    ensures
        told(result) == validated_request(
            api_request(
                repository_url(
                    repo_name_with_owner@,
                    "/pulls/"@ + decimal(pull_number as nat) + "/files"@,
                ),
                token.deep_view(),
            ),
        ),
        result matches Ok(request) ==> {
            &&& request.uri@ == "https://api.github.com/repos/"@ + repo_name_with_owner@ + ("/pulls/"@
                + decimal(pull_number as nat) + "/files"@)
            &&& request.method == Method::Get
        },
{
    let mut rest = "/pulls/".to_owned();
    rest.append(&number_text(pull_number));
    rest.append("/files");
    github_request(&make_repository_url(repo_name_with_owner, &rest), token)
}

/// The requests for a repository's activity, for its issues, its pull requests and its
/// workflow runs, or what is wrong with each.
pub fn repository_activity(repo_name_with_owner: &str, token: Option<&str>) -> (result: (
    Result<HttpRequest, String>,
    Result<HttpRequest, String>,
    Result<HttpRequest, String>,
))
    ensures
        told(result.0) == validated_request(
            api_request(
                repository_url(
                    repo_name_with_owner@,
                    updated_page("/issues?state=all"@, GITHUB_ACTIVITY_PER_PAGE as nat),
                ),
                token.deep_view(),
            ),
        ),
        told(result.1) == validated_request(
            api_request(
                repository_url(
                    repo_name_with_owner@,
                    updated_page("/pulls?state=all"@, GITHUB_ACTIVITY_PER_PAGE as nat),
                ),
                token.deep_view(),
            ),
        ),
        told(result.2) == validated_request(
            api_request(
                repository_url(repo_name_with_owner@, runs_page(GITHUB_ACTIVITY_PER_PAGE as nat)),
                token.deep_view(),
            ),
        ),
        result.0 matches Ok(request) ==> request.uri@ == "https://api.github.com/repos/"@
            + repo_name_with_owner@
            + "/issues?state=all&per_page=20&sort=updated&direction=desc"@,
        result.1 matches Ok(request) ==> request.uri@ == "https://api.github.com/repos/"@
            + repo_name_with_owner@ + "/pulls?state=all&per_page=20&sort=updated&direction=desc"@,
        result.2 matches Ok(request) ==> request.uri@ == "https://api.github.com/repos/"@
            + repo_name_with_owner@ + "/actions/runs?per_page=20&exclude_pull_requests=false"@,
{
    proof {
        lemma_activity_pages();
    }
    let issues = make_updated_page("/issues?state=all", GITHUB_ACTIVITY_PER_PAGE);
    let pulls = make_updated_page("/pulls?state=all", GITHUB_ACTIVITY_PER_PAGE);
    let runs = make_runs_page(GITHUB_ACTIVITY_PER_PAGE);
    (
        github_request(&make_repository_url(repo_name_with_owner, &issues), token),
        github_request(&make_repository_url(repo_name_with_owner, &pulls), token),
        github_request(&make_repository_url(repo_name_with_owner, &runs), token),
    )
}

/// What stands in angle brackets, if `s` is in them.
pub open spec fn bracketed(s: Seq<char>) -> Option<Seq<char>> {
    if s.len() >= 2 && s.first() == '<' && s.last() == '>' {
        Some(s.subrange(1, s.len() - 1))
    } else {
        None
    }
}

/// What stands in angle brackets, if `s` is in them.
fn strip_brackets(s: &str) -> (result: Option<String>)
    ensures
        result.deep_view() == bracketed(s@),
        result matches Some(inner) ==> s@ == seq!['<'] + inner@ + seq!['>'],
        result is None ==> s@.len() < 2 || s@[0] != '<' || s@.last() != '>',
{
    let chars = characters(s);
    if chars.len() >= 2 && chars[0] == '<' && chars[chars.len() - 1] == '>' {
        Some(spell(&chars, 1, chars.len() - 1))
    } else {
        None
    }
}

/// Whether one of `parameters` says that a link leads to the next page.
pub open spec fn says_next(parameters: Seq<Seq<char>>) -> bool {
    exists|i: int| 0 <= i < parameters.len() && trimmed(#[trigger] parameters[i]) == "rel=\"next\""@
}

/// Where one link of a link header leads, if it leads to the next page.
pub open spec fn next_target(link: Seq<char>) -> Option<Seq<char>> {
    match halves(link, ';') {
        None => None,
        Some((url, parameters)) => if says_next(pieces(parameters, ';')) {
            bracketed(trimmed(url))
        } else {
            None
        },
    }
}

/// Where the first of `links` that leads to the next page leads.
pub open spec fn first_next_target(links: Seq<Seq<char>>) -> Option<Seq<char>>
    decreases links.len(),
{
    if links.len() == 0 {
        None
    } else {
        match next_target(links[0]) {
            Some(target) => Some(target),
            None => first_next_target(links.drop_first()),
        }
    }
}

/// Where one link of a link header leads, if it leads to the next page.
fn find_next_target(link: &str) -> (result: Option<String>)
    ensures
        result.deep_view() == next_target(link@),
{
    match split_once(link, ';') {
        None => None,
        Some((url, parameters)) => {
            let ghost text = parameters@;
            let parameters = split(&parameters, ';');
            for i in 0..parameters.len()
                invariant
                    parameters.deep_view() == pieces(text, ';'),
                    halves(link@, ';') == Some((url@, text)),
                    forall|j: int|
                        0 <= j < i ==> trimmed(#[trigger] parameters.deep_view()[j])
                            != "rel=\"next\""@,
            {
                if same_text(&trim(&parameters[i]), "rel=\"next\"") {
                    assert(trimmed(parameters.deep_view()[i as int]) == "rel=\"next\""@);
                    return strip_brackets(&trim(&url));
                }
                assert(trimmed(parameters.deep_view()[i as int]) != "rel=\"next\""@);
            }
            None
        },
    }
}

/// Where the link header says that the next page is.
pub fn github_next_link(link_header: &str) -> (result: Option<String>)
    ensures
        result.deep_view() == first_next_target(pieces(link_header@, ',')),
        match result {
            Some(url) => exists|i: int|
                0 <= i < pieces(link_header@, ',').len() && (halves(#[trigger] pieces(link_header@, ',')[i], ';') matches Some((target, parameters)) && (exists|k: int|
                    0 <= k < pieces(parameters, ';').len() && trimmed(
                        #[trigger] pieces(parameters, ';')[k],
                    ) == "rel=\"next\""@) && trimmed(target) == seq!['<'] + url@ + seq!['>']),
            None => forall|i: int|
                0 <= i < pieces(link_header@, ',').len() ==> !(halves(#[trigger] pieces(link_header@, ',')[i], ';') matches Some((target, parameters)) && (exists|k: int|
                    0 <= k < pieces(parameters, ';').len() && trimmed(
                        #[trigger] pieces(parameters, ';')[k],
                    ) == "rel=\"next\""@) && bracketed(trimmed(target)) is Some),
        },
{
    proof {
        lemma_first_next_target(pieces(link_header@, ','));
    }
    let links = split(link_header, ',');
    let ghost models = links.deep_view();
    assert(models.skip(0) == models);
    for i in 0..links.len()
        invariant
            models == links.deep_view(),
            models == pieces(link_header@, ','),
            first_next_target(models) == first_next_target(models.skip(i as int)),
    {
        assert(models.skip(i as int)[0] == links[i as int]@);
        assert(models.skip(i as int).drop_first() == models.skip(i + 1));
        let target = find_next_target(&links[i]);
        if target.is_some() {
            return target;
        }
    }
    None
}

/// What is said of an answer that reports a failure, whose quoted text is
/// `response`.
pub open spec fn status_message(status: u16, response: Seq<char>) -> Seq<char> {
    "GitHub returned status "@ + decimal(status as nat) + ", response: "@ + response
}

/// What is said of an answer that reports a failure, whose quoted text is
/// `response`.
pub fn make_status_message(status: u16, response: &str) -> (result: String)
    ensures
        result@ == status_message(status, response@),
        result@ == "GitHub returned status "@ + decimal(status as nat) + ", response: "@
            + response@,
{
    let mut message = "GitHub returned status ".to_owned();
    message.append(&number_text(status as u64));
    message.append(", response: ");
    message.append(response);
    message
}

/// What is said of an answer that reports a failure.
pub fn github_status_error(status: u16, body: &Vec<u8>) -> (result: String)
    ensures
        result@ == status_message(status, quoted_text(lossy_text(body@))),
        result@ == "GitHub returned status "@ + decimal(status as nat) + ", response: "@
            + quoted_text(lossy_text(body@)),
{
    let text = from_utf8_lossy(body.as_slice());
    make_status_message(status, &quote(&text))
}

/// What is made of an answer with the given status and body, where `parsed` is
/// what the body says or why it says nothing.
pub open spec fn json_outcome<T>(
    status: u16,
    body: Seq<u8>,
    parsed: Result<T, Seq<char>>,
) -> Result<T, Seq<char>> {
    if success(status) {
        match parsed {
            Ok(value) => Ok(value),
            Err(problem) => Err("error deserializing GitHub API response: "@ + problem),
        }
    } else {
        Err(status_message(status, quoted_text(lossy_text(body))))
    }
}

/// `result` with what is said of a failure in place of the string that says it.
pub open spec fn told_plainly<T>(result: Result<T, String>) -> Result<T, Seq<char>> {
    match result {
        Ok(value) => Ok(value),
        Err(message) => Err(message@),
    }
}

/// What is made of an answer, where `parsed` is what its body says or why it
/// says nothing.
pub fn read_github_json_response<T>(
    status: u16,
    body: &Vec<u8>,
    parsed: Result<T, String>,
) -> (result: Result<T, String>)
    ensures
        told_plainly(result) == json_outcome(status, body@, told_plainly(parsed)),
        result matches Ok(value) ==> parsed == Ok::<_, String>(value),
        result is Ok <==> 200 <= status <= 299 && parsed is Ok,
        result matches Err(message) ==> message@ == if 200 <= status <= 299 {
            "error deserializing GitHub API response: "@ + parsed->Err_0@
        } else {
            "GitHub returned status "@ + decimal(status as nat) + ", response: "@ + quoted_text(
                lossy_text(body@),
            )
        },
{
    if !is_success(status) {
        return Err(github_status_error(status, body));
    }
    match parsed {
        Ok(value) => Ok(value),
        Err(problem) => {
            let mut message = "error deserializing GitHub API response: ".to_owned();
            message.append(&problem);
            Err(message)
        },
    }
}

/// Where the answer with the link header `link` says that the next page is.
pub open spec fn next_page(link: Option<Seq<char>>) -> Option<Seq<char>> {
    match link {
        Some(link) => first_next_target(pieces(link, ',')),
        None => None,
    }
}

/// What is made of a page, and where the next page is: `link` is the answer's
/// link header, and `parsed` what its body says or why it says nothing.
pub fn get_github_json_page<T>(
    status: u16,
    link: Option<&str>,
    body: &Vec<u8>,
    parsed: Result<T, String>,
) -> (result: Result<(T, Option<String>), String>)
    ensures
        match result {
            Ok((value, next_url)) => {
                &&& json_outcome(status, body@, told_plainly(parsed)) == Ok::<T, Seq<char>>(value)
                &&& next_url.deep_view() == next_page(link.deep_view())
            },
            Err(message) => json_outcome(status, body@, told_plainly(parsed)) == Err::<
                T,
                Seq<char>,
            >(message@),
        },
        result matches Ok((value, next_url)) ==> {
            &&& parsed == Ok::<_, String>(value)
            &&& next_url.deep_view() == match link {
                Some(link) => first_next_target(pieces(link@, ',')),
                None => None,
            }
        },
        result is Ok <==> 200 <= status <= 299 && parsed is Ok,
        result matches Err(message) ==> message@ == if 200 <= status <= 299 {
            "error deserializing GitHub API response: "@ + parsed->Err_0@
        } else {
            "GitHub returned status "@ + decimal(status as nat) + ", response: "@ + quoted_text(
                lossy_text(body@),
            )
        },
{
    let next_url = match link {
        Some(link) => github_next_link(link),
        None => None,
    };
    match read_github_json_response(status, body, parsed) {
        Ok(value) => Ok((value, next_url)),
        Err(message) => Err(message),
    }
}

/// Where the API serves what belongs to a repository.
pub proof fn lemma_repository_url(repository: Seq<char>, rest: Seq<char>)
    ensures
        repository_url(repository, rest) == "https://api.github.com/repos/"@ + repository + rest,
{
    reveal_strlit("https://api.github.com");
    reveal_strlit("/repos/");
    reveal_strlit("https://api.github.com/repos/");
    assert("https://api.github.com"@ + "/repos/"@ == "https://api.github.com/repos/"@);
}

/// How the pages of a repository's activity are asked for.
proof fn lemma_activity_pages()
    ensures
        updated_page("/pulls?state=open"@, GITHUB_ACTIVITY_PER_PAGE as nat)
            == "/pulls?state=open&per_page=20&sort=updated&direction=desc"@,
        updated_page("/issues?state=all"@, GITHUB_ACTIVITY_PER_PAGE as nat)
            == "/issues?state=all&per_page=20&sort=updated&direction=desc"@,
        updated_page("/pulls?state=all"@, GITHUB_ACTIVITY_PER_PAGE as nat)
            == "/pulls?state=all&per_page=20&sort=updated&direction=desc"@,
        runs_page(GITHUB_ACTIVITY_PER_PAGE as nat)
            == "/actions/runs?per_page=20&exclude_pull_requests=false"@,
{
    reveal_with_fuel(decimal, 2);
    assert(decimal(20) == seq!['2', '0']);
    reveal_strlit("/pulls?state=open");
    reveal_strlit("/issues?state=all");
    reveal_strlit("/pulls?state=all");
    reveal_strlit("&per_page=");
    reveal_strlit("&sort=updated&direction=desc");
    reveal_strlit("/pulls?state=open&per_page=20&sort=updated&direction=desc");
    reveal_strlit("/issues?state=all&per_page=20&sort=updated&direction=desc");
    reveal_strlit("/pulls?state=all&per_page=20&sort=updated&direction=desc");
    reveal_strlit("/actions/runs?per_page=");
    reveal_strlit("&exclude_pull_requests=false");
    reveal_strlit("/actions/runs?per_page=20&exclude_pull_requests=false");
}

/// The next page is where the first link of all says that has the relation among its
/// parameters and a target in angle brackets. Only where no link is such there is no
/// next page.
pub proof fn lemma_first_next_target(links: Seq<Seq<char>>)
    ensures
        match first_next_target(links) {
            Some(url) => exists|i: int|
                0 <= i < links.len() && (halves(#[trigger] links[i], ';') matches Some((target, parameters)) && (exists|k: int|
                    0 <= k < pieces(parameters, ';').len() && trimmed(
                        #[trigger] pieces(parameters, ';')[k],
                    ) == "rel=\"next\""@) && trimmed(target) == seq!['<'] + url + seq!['>']) && (forall|j: int|
                    0 <= j < i ==> !(halves(#[trigger] links[j], ';') matches Some((target, parameters)) && (exists|k: int|
                    0 <= k < pieces(parameters, ';').len() && trimmed(
                        #[trigger] pieces(parameters, ';')[k],
                    ) == "rel=\"next\""@) && bracketed(trimmed(target)) is Some)),
            None => forall|j: int|
                0 <= j < links.len() ==> !(halves(#[trigger] links[j], ';') matches Some((target, parameters)) && (exists|k: int|
                    0 <= k < pieces(parameters, ';').len() && trimmed(
                        #[trigger] pieces(parameters, ';')[k],
                    ) == "rel=\"next\""@) && bracketed(trimmed(target)) is Some),
        },
    decreases links.len(),
{
    if links.len() > 0 {
        lemma_next_target(links[0]);
    }
    if links.len() > 0 && next_target(links[0]) is None {
        let rest = links.drop_first();
        lemma_first_next_target(rest);
        match first_next_target(rest) {
            Some(url) => {
                let i = choose|i: int|
                    0 <= i < rest.len() && (halves(#[trigger] rest[i], ';') matches Some((target, parameters)) && (exists|k: int|
                    0 <= k < pieces(parameters, ';').len() && trimmed(
                        #[trigger] pieces(parameters, ';')[k],
                    ) == "rel=\"next\""@) && trimmed(target) == seq!['<'] + url + seq!['>']) && (forall|j: int|
                        0 <= j < i ==> !(halves(#[trigger] rest[j], ';') matches Some((target, parameters)) && (exists|k: int|
                    0 <= k < pieces(parameters, ';').len() && trimmed(
                        #[trigger] pieces(parameters, ';')[k],
                    ) == "rel=\"next\""@) && bracketed(trimmed(target)) is Some));
                assert(links[i + 1] == rest[i]);
                assert forall|j: int| 0 <= j < i + 1 implies !(halves(#[trigger] links[j], ';') matches Some((target, parameters)) && (exists|k: int|
                    0 <= k < pieces(parameters, ';').len() && trimmed(
                        #[trigger] pieces(parameters, ';')[k],
                    ) == "rel=\"next\""@) && bracketed(trimmed(target)) is Some) by {
                    if j > 0 {
                        assert(links[j] == rest[j - 1]);
                    }
                }
            },
            None => {
                assert forall|j: int| 0 <= j < links.len() implies !(halves(#[trigger] links[j], ';') matches Some((target, parameters)) && (exists|k: int|
                    0 <= k < pieces(parameters, ';').len() && trimmed(
                        #[trigger] pieces(parameters, ';')[k],
                    ) == "rel=\"next\""@) && bracketed(trimmed(target)) is Some) by {
                    if j > 0 {
                        assert(links[j] == rest[j - 1]);
                    }
                }
            },
        }
    }
}

/// A link leads to the next page exactly if one of its parameters says so and its target
/// stands in angle brackets.
pub proof fn lemma_next_target(link: Seq<char>)
    ensures
        next_target(link) matches Some(url) ==> (halves(link, ';') matches Some((target, parameters)) && (exists|k: int|
                    0 <= k < pieces(parameters, ';').len() && trimmed(
                        #[trigger] pieces(parameters, ';')[k],
                    ) == "rel=\"next\""@) && trimmed(target) == seq!['<'] + url + seq!['>']),
        next_target(link) is None ==> !(halves(link, ';') matches Some((target, parameters)) && (exists|k: int|
                    0 <= k < pieces(parameters, ';').len() && trimmed(
                        #[trigger] pieces(parameters, ';')[k],
                    ) == "rel=\"next\""@) && bracketed(trimmed(target)) is Some),
{
    if let Some((target, parameters)) = halves(link, ';') {
        let inner = trimmed(target);
        if bracketed(inner) is Some {
            assert(inner == seq!['<'] + inner.subrange(1, inner.len() - 1) + seq!['>']);
        }
    }
}

} // verus!
