//! Requests and statuses of HTTP, as plain values.
use crate::outside::requests::{
    find_header_name_problem, find_header_value_problem, find_uri_problem, header_name_problem,
    header_value_problem, uri_problem,
};
use crate::models::told;
use vstd::prelude::*;
use vstd::string::*;

verus! {

/// The method of a request.
#[derive(Clone, Copy, Debug, PartialEq, Eq, Structural)]
pub enum Method {
    Get,
    Post,
    Put,
    Patch,
    Delete,
}

/// How redirects are followed.
#[derive(Clone, Copy, Debug, PartialEq, Eq, Structural)]
pub enum RedirectPolicy {
    NoFollow,
    FollowLimit(u32),
    FollowAll,
}

/// A request that is about to be sent.
#[derive(Clone, Debug, PartialEq, Eq)]
pub struct HttpRequest {
    pub method: Method,
    pub uri: String,
    pub headers: Vec<(String, String)>,
    pub body: String,
    pub redirect_policy: Option<RedirectPolicy>,
}

/// What an `HttpRequest` holds.
#[verifier::ext_equal]
pub struct RequestModel {
    pub method: Method,
    pub uri: Seq<char>,
    pub headers: Seq<(Seq<char>, Seq<char>)>,
    pub body: Seq<char>,
    pub redirect_policy: Option<RedirectPolicy>,
}

impl DeepView for HttpRequest {
    type V = RequestModel;

    open spec fn deep_view(&self) -> RequestModel {
        RequestModel {
            method: self.method,
            uri: self.uri@,
            headers: self.headers.deep_view(),
            body: self.body@,
            redirect_policy: self.redirect_policy,
        }
    }
}

/// A request with nothing but a method and a URI.
pub open spec fn bare_request(method: Method, uri: Seq<char>) -> RequestModel {
    RequestModel {
        method,
        uri,
        headers: Seq::empty(),
        body: Seq::empty(),
        redirect_policy: None,
    }
}

/// `request` with one more header behind the others.
pub open spec fn with_header(
    request: RequestModel,
    name: Seq<char>,
    value: Seq<char>,
) -> RequestModel {
    RequestModel { headers: request.headers.push((name, value)), ..request }
}

/// `request` with the header that carries `token`, if there is one.
pub open spec fn with_bearer(request: RequestModel, token: Option<Seq<char>>) -> RequestModel {
    match token {
        Some(token) => with_header(request, "Authorization"@, "Bearer "@ + token),
        None => request,
    }
}

/// What is said of the first header that is none.
pub open spec fn headers_problem(headers: Seq<(Seq<char>, Seq<char>)>) -> Option<Seq<char>>
    decreases headers.len(),
{
    if headers.len() == 0 {
        None
    } else {
        match headers_problem(headers.drop_last()) {
            Some(problem) => Some(problem),
            None => match header_name_problem(headers.last().0) {
                Some(problem) => Some(problem),
                None => header_value_problem(headers.last().1),
            },
        }
    }
}

/// `request`, or what is said of the first part of it that HTTP does not allow.
pub open spec fn validated_request(request: RequestModel) -> Result<RequestModel, Seq<char>> {
    judged_request(request, uri_problem(request.uri), headers_problem(request.headers))
}

/// `request`, or what is said of its URI or else of its headers.
pub open spec fn judged_request(
    request: RequestModel,
    uri_problem: Option<Seq<char>>,
    headers_problem: Option<Seq<char>>,
) -> Result<RequestModel, Seq<char>> {
    match (uri_problem, headers_problem) {
        (Some(problem), _) => Err(problem),
        (None, Some(problem)) => Err(problem),
        (None, None) => Ok(request),
    }
}

impl HttpRequest {
    /// A request with nothing but a method and a URI.
    pub fn new(method: Method, uri: &str) -> (result: HttpRequest)
        ensures
            result.deep_view() == bare_request(method, uri@),
            result.method == method,
            result.uri@ == uri@,
            result.headers@.len() == 0,
            result.body@.len() == 0,
            result.redirect_policy is None,
    {
        HttpRequest {
            method,
            uri: uri.to_owned(),
            headers: Vec::new(),
            body: String::new(),
            redirect_policy: None,
        }
    }

    /// The request with one more header behind the others.
    pub fn header(self, name: &str, value: &str) -> (result: HttpRequest)
        ensures
            result.deep_view() == with_header(self.deep_view(), name@, value@),
            result.headers.deep_view() == self.headers.deep_view().push((name@, value@)),
            result.method == self.method,
            result.uri == self.uri,
            result.body == self.body,
            result.redirect_policy == self.redirect_policy,
    {
        let mut result = self;
        let ghost before = result.headers.deep_view();
        result.headers.push((name.to_owned(), value.to_owned()));
        assert(result.headers.deep_view() == before.push((name@, value@)));
        result
    }

    /// The request with the header that carries `token`, if there is one.
    pub fn bearer(self, token: Option<&str>) -> (result: HttpRequest)
        ensures
            result.deep_view() == with_bearer(self.deep_view(), token.deep_view()),
            token is None ==> result == self,
            token matches Some(token) ==> result.headers.deep_view()
                == self.headers.deep_view().push(("Authorization"@, "Bearer "@ + token@)),
            result.method == self.method,
            result.uri == self.uri,
            result.body == self.body,
            result.redirect_policy == self.redirect_policy,
    {
        match token {
            Some(token) => {
                let value = "Bearer ".to_owned().concat(token);
                self.header("Authorization", &value)
            },
            None => self,
        }
    }

    /// The request with another body.
    pub fn with_body(self, body: String) -> (result: HttpRequest)
        ensures
            result.deep_view() == (RequestModel { body: body@, ..self.deep_view() }),
            result == (HttpRequest { body, ..self }),
    {
        HttpRequest { body, ..self }
    }

    /// The request with another redirect policy.
    pub fn follow_redirects(self, policy: RedirectPolicy) -> (result: HttpRequest)
        ensures
            result.deep_view() == (RequestModel {
                redirect_policy: Some(policy),
                ..self.deep_view()
            }),
            result == (HttpRequest { redirect_policy: Some(policy), ..self }),
    {
        HttpRequest { redirect_policy: Some(policy), ..self }
    }

    /// The request, or what is wrong with it, where `uri_problem` and
    /// `headers_problem` say what is wrong with its parts.
    pub fn judged(self, uri_problem: Option<String>, headers_problem: Option<String>) -> (result:
        Result<HttpRequest, String>)
        ensures
            told(result) == judged_request(
                self.deep_view(),
                uri_problem.deep_view(),
                headers_problem.deep_view(),
            ),
            uri_problem matches Some(problem) ==> result == Err::<HttpRequest, _>(problem),
            uri_problem is None ==> (headers_problem matches Some(problem) ==> result == Err::<
                HttpRequest,
                _,
            >(problem)),
            uri_problem is None && headers_problem is None ==> result == Ok::<_, String>(self),
    {
        match uri_problem {
            Some(problem) => Err(problem),
            None => match headers_problem {
                Some(problem) => Err(problem),
                None => Ok(self),
            },
        }
    }

    /// The request, or what is wrong with the first part of it that HTTP does
    /// not allow.
    pub fn validated(self) -> (result: Result<HttpRequest, String>)
        ensures
            told(result) == validated_request(self.deep_view()),
            result matches Ok(request) ==> request == self,
            result is Ok <==> uri_problem(self.uri@) is None && forall|i: int|
                0 <= i < self.headers@.len() ==> header_name_problem(
                    (#[trigger] self.headers.deep_view()[i]).0,
                ) is None && header_value_problem(self.headers.deep_view()[i].1) is None,
    {
        proof {
            lemma_headers_problem(self.headers.deep_view());
        }
        let uri_problem = find_uri_problem(&self.uri);
        let headers_problem = find_headers_problem(&self.headers);
        self.judged(uri_problem, headers_problem)
    }
}

/// What is wrong with the first header that is none.
fn find_headers_problem(headers: &Vec<(String, String)>) -> (result: Option<String>)
    ensures
        result.deep_view() == headers_problem(headers.deep_view()),
{
    let ghost models = headers.deep_view();
    let mut found: Option<String> = None;
    assert(models.take(0) == Seq::<(Seq<char>, Seq<char>)>::empty());
    for i in 0..headers.len()
        invariant
            models == headers.deep_view(),
            found.deep_view() == headers_problem(models.take(i as int)),
    {
        assert(models.take(i + 1).drop_last() == models.take(i as int));
        assert(models.take(i + 1).last() == headers[i as int].deep_view());
        if found.is_none() {
            found = find_header_name_problem(&headers[i].0);
            if found.is_none() {
                found = find_header_value_problem(&headers[i].1);
            }
        }
    }
    assert(models.take(models.len() as int) == models);
    found
}

/// Whether a status says that the request succeeded.
pub open spec fn success(status: u16) -> bool {
    200 <= status < 300
}

/// Whether a status says that the request succeeded.
pub fn is_success(status: u16) -> (result: bool)
    ensures
        result == success(status),
        result <==> 200 <= status <= 299,
{
    200 <= status && status < 300
}

/// Whether a status blames the client.
pub open spec fn client_error(status: u16) -> bool {
    400 <= status < 500
}

/// Whether a status blames the client.
pub fn is_client_error(status: u16) -> (result: bool)
    ensures
        result == client_error(status),
        result <==> 400 <= status <= 499,
{
    400 <= status && status < 500
}

/// Headers are sound exactly if each name and each value is. Of headers that are not,
/// what is said is said of the first that is not, and of its name before its value.
pub proof fn lemma_headers_problem(headers: Seq<(Seq<char>, Seq<char>)>)
    ensures
        headers_problem(headers) is None <==> forall|i: int|
            0 <= i < headers.len() ==> header_name_problem((#[trigger] headers[i]).0) is None
                && header_value_problem(headers[i].1) is None,
        headers_problem(headers) matches Some(problem) ==> exists|i: int|
            0 <= i < headers.len() && (match header_name_problem((#[trigger] headers[i]).0) {
                Some(told) => told == problem,
                None => header_value_problem(headers[i].1) == Some(problem),
            }) && (forall|j: int|
                0 <= j < i ==> header_name_problem((#[trigger] headers[j]).0) is None
                    && header_value_problem(headers[j].1) is None),
    decreases headers.len(),
{
    if headers.len() > 0 {
        let rest = headers.drop_last();
        lemma_headers_problem(rest);
        let last = headers[headers.len() - 1];
        if headers_problem(rest) is None {
            assert forall|j: int| 0 <= j < headers.len() - 1 implies header_name_problem(
                (#[trigger] headers[j]).0,
            ) is None && header_value_problem(headers[j].1) is None by {
                assert(rest[j] == headers[j]);
            }
            if headers_problem(headers) is Some {
                assert(headers[headers.len() - 1] == last);
            }
        } else {
            let problem = headers_problem(rest)->0;
            let i = choose|i: int|
                0 <= i < rest.len() && (match header_name_problem((#[trigger] rest[i]).0) {
                    Some(told) => told == problem,
                    None => header_value_problem(rest[i].1) == Some(problem),
                }) && (forall|j: int|
                    0 <= j < i ==> header_name_problem((#[trigger] rest[j]).0) is None
                        && header_value_problem(rest[j].1) is None);
            assert(headers[i] == rest[i]);
            assert forall|j: int| 0 <= j < i implies header_name_problem(
                (#[trigger] headers[j]).0,
            ) is None && header_value_problem(headers[j].1) is None by {
                assert(rest[j] == headers[j]);
            }
        }
    }
}

} // verus!
