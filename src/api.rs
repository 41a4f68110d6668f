//! Requests to the network worker, its responses, and the worker's own
//! decisions: which call to make for a request, with which bearer token, and
//! what error text to report. The driver performs the calls.
use vstd::prelude::*;
use vstd::string::*;
use crate::models::{ClusterInfo, LoginRequest, TierInfo, TokenResponse, UiConfig};
use crate::text::{decimal, decimal_text, strip_trailing_slashes, trim_trailing_slashes};

verus! {

/// Requests that can be sent to the worker.
#[derive(Debug)]
pub enum ApiRequest {
    GetConfig,
    Login { username: String, password: String, remember_me: bool },
    SetToken { auth: String, refresh: String },
    GetClusterInfo,
    GetTiers,
    Shutdown,
}

/// Responses from the worker; errors are human-readable text.
#[derive(Debug)]
pub enum ApiResponse {
    Config(Result<UiConfig, String>),
    Login(Result<TokenResponse, String>),
    ClusterInfo(Result<ClusterInfo, String>),
    Tiers(Result<Vec<TierInfo>, String>),
}

/// The GET endpoints.
#[derive(Debug, Clone, Copy, PartialEq, Eq, Structural)]
pub enum Endpoint {
    Config,
    Cluster,
    Tiers,
}

pub open spec fn endpoint_path(e: Endpoint) -> Seq<char> {
    match e {
        Endpoint::Config => "/api/v1/config"@,
        Endpoint::Cluster => "/api/v1/cluster"@,
        Endpoint::Tiers => "/api/v1/tiers"@,
    }
}

pub open spec fn session_path() -> Seq<char> {
    "/api/v1/session"@
}

/// The `Authorization` header value for a held token.
pub open spec fn bearer_header(token: Option<String>) -> Option<Seq<char>> {
    match token {
        Some(t) => Some("Bearer "@ + t@),
        None => None,
    }
}

/// What the worker does for one request.
#[derive(Debug)]
pub enum WorkerStep {
    /// Stop processing requests.
    Stop,
    /// The token was adopted; write it to the token store. No response.
    SaveToken { auth: String, refresh: String },
    /// GET `url`, with `authorization` as the `Authorization` header if any,
    /// and answer with the endpoint's response.
    Get { endpoint: Endpoint, url: String, authorization: Option<String> },
    /// POST the credentials to `url` and answer with a login response.
    PostLogin { url: String, body: LoginRequest, remember_me: bool },
}

/// The worker's state: the server's base URL and the bearer token it holds.
pub struct Worker {
    pub base_url: String,
    pub auth_token: Option<String>,
}

/// The token held after a request: `SetToken` adopts its token, and nothing
/// else changes it before the call's outcome is known.
pub open spec fn token_after(token: Option<String>, req: ApiRequest) -> Option<String> {
    match req {
        ApiRequest::SetToken { auth, .. } => Some(auth),
        _ => token,
    }
}

fn path_str(e: Endpoint) -> (r: &'static str)
    ensures
        r@ == endpoint_path(e),
{
    match e {
        Endpoint::Config => "/api/v1/config",
        Endpoint::Cluster => "/api/v1/cluster",
        Endpoint::Tiers => "/api/v1/tiers",
    }
}

fn join_url(base: &String, path: &str) -> (r: String)
    ensures
        r@ == base@ + path@,
{
    let mut url = base.clone();
    url.append(path);
    url
}

/// A server URL without trailing slashes: the form that keys the token store
/// and prefixes every endpoint.
pub fn normalize_base_url(url: &str) -> (r: String)
    ensures
        r@ == strip_trailing_slashes(url@),
{
    String::from_str(trim_trailing_slashes(url))
}

impl Worker {
    /// A worker for the server at `base_url`, holding no token. Trailing
    /// slashes of the URL are dropped.
    pub fn new(base_url: &str) -> (w: Worker)
        ensures
            w.base_url@ == strip_trailing_slashes(base_url@),
            w.auth_token is None,
    {
        Worker { base_url: normalize_base_url(base_url), auth_token: None }
    }

    fn authorization(&self) -> (r: Option<String>)
        ensures
            match r {
                Some(h) => bearer_header(self.auth_token) == Some(h@),
                None => bearer_header(self.auth_token) is None,
            },
    {
        match &self.auth_token {
            Some(t) => {
                let mut h = String::from_str("Bearer ");
                h.append(t.as_str());
                Some(h)
            },
            None => None,
        }
    }

    /// Decides what to do for one request, in the order the requests came.
    pub fn plan(&mut self, req: ApiRequest) -> (step: WorkerStep)
        ensures
            final(self).base_url == old(self).base_url,
            final(self).auth_token == token_after(old(self).auth_token, req),
            match req {
                ApiRequest::Shutdown => step is Stop,
                ApiRequest::SetToken { auth, refresh } => step == WorkerStep::SaveToken {
                    auth,
                    refresh,
                },
                ApiRequest::Login { username, password, remember_me } => match step {
                    WorkerStep::PostLogin { url, body, remember_me: keep } => {
                        &&& url@ == old(self).base_url@ + session_path()
                        &&& body.username == username
                        &&& body.password == password
                        &&& keep == remember_me
                    },
                    _ => false,
                },
                _ => match step {
                    WorkerStep::Get { endpoint, url, authorization } => {
                        &&& endpoint == (match req {
                            ApiRequest::GetConfig => Endpoint::Config,
                            ApiRequest::GetClusterInfo => Endpoint::Cluster,
                            _ => Endpoint::Tiers,
                        })
                        &&& url@ == old(self).base_url@ + endpoint_path(endpoint)
                        &&& match authorization {
                            Some(h) => bearer_header(old(self).auth_token) == Some(h@),
                            None => bearer_header(old(self).auth_token) is None,
                        }
                    },
                    _ => false,
                },
            },
    {
        match req {
            ApiRequest::Shutdown => WorkerStep::Stop,
            ApiRequest::SetToken { auth, refresh } => {
                self.auth_token = Some(auth.clone());
                WorkerStep::SaveToken { auth, refresh }
            },
            ApiRequest::Login { username, password, remember_me } => {
                let url = join_url(&self.base_url, "/api/v1/session");
                WorkerStep::PostLogin {
                    url,
                    body: LoginRequest { username, password },
                    remember_me,
                }
            },
            ApiRequest::GetConfig => {
                let url = join_url(&self.base_url, path_str(Endpoint::Config));
                WorkerStep::Get { endpoint: Endpoint::Config, url, authorization: self.authorization() }
            },
            ApiRequest::GetClusterInfo => {
                let url = join_url(&self.base_url, path_str(Endpoint::Cluster));
                WorkerStep::Get { endpoint: Endpoint::Cluster, url, authorization: self.authorization() }
            },
            ApiRequest::GetTiers => {
                let url = join_url(&self.base_url, path_str(Endpoint::Tiers));
                WorkerStep::Get { endpoint: Endpoint::Tiers, url, authorization: self.authorization() }
            },
        }
    }

    /// A login answered with tokens: the worker holds the new token at once,
    /// so every later request carries it. Returns whether to write the tokens
    /// to the token store, which is so only when the user asked to be
    /// remembered.
    pub fn login_succeeded(&mut self, tokens: &TokenResponse, remember_me: bool) -> (save: bool)
        ensures
            final(self).base_url == old(self).base_url,
            final(self).auth_token == Some(tokens.auth),
            save == remember_me,
    {
        self.auth_token = Some(tokens.auth.clone());
        remember_me
    }
}

/// Adopting a token with `SetToken` makes the next GET carry exactly that
/// token as its bearer credential, whatever token was held before.
pub proof fn lemma_set_token_then_get_carries_it(
    token: Option<String>,
    auth: String,
    refresh: String,
)
    ensures
        bearer_header(token_after(token, ApiRequest::SetToken { auth, refresh })) == Some(
            "Bearer "@ + auth@,
        ),
        token_after(
            token_after(token, ApiRequest::SetToken { auth, refresh }),
            ApiRequest::GetClusterInfo,
        ) == Some(auth),
{
}

/// How a call failed, as the driver saw it.
#[derive(Debug, Clone)]
pub enum CallFailure {
    /// The server answered with a non-2xx status.
    Status(u16),
    /// Anything else: the transport's own description.
    Transport(String),
}

/// The text of a failure as the HTTP client describes it.
pub open spec fn failure_text(f: CallFailure) -> Seq<char> {
    match f {
        CallFailure::Status(code) => "http status: "@ + decimal_text(code as nat),
        CallFailure::Transport(m) => m@,
    }
}

pub open spec fn endpoint_noun(e: Endpoint) -> Seq<char> {
    match e {
        Endpoint::Config => "config"@,
        Endpoint::Cluster => "cluster info"@,
        Endpoint::Tiers => "tiers"@,
    }
}

fn noun_str(e: Endpoint) -> (r: &'static str)
    ensures
        r@ == endpoint_noun(e),
{
    match e {
        Endpoint::Config => "config",
        Endpoint::Cluster => "cluster info",
        Endpoint::Tiers => "tiers",
    }
}

/// Describes a failure in the client's words.
pub fn describe_failure(f: &CallFailure) -> (r: String)
    ensures
        r@ == failure_text(*f),
{
    match f {
        CallFailure::Status(code) => {
            let mut m = String::from_str("http status: ");
            let digits = decimal(*code as u64);
            m.append(digits.as_str());
            m
        },
        CallFailure::Transport(t) => t.clone(),
    }
}

/// "Failed to get <what>: <failure>".
pub fn request_error(e: Endpoint, f: &CallFailure) -> (r: String)
    ensures
        r@ == "Failed to get "@ + endpoint_noun(e) + ": "@ + failure_text(*f),
{
    let mut m = String::from_str("Failed to get ");
    m.append(noun_str(e));
    m.append(": ");
    let d = describe_failure(f);
    m.append(d.as_str());
    m
}

/// "Failed to parse <what>: <detail>".
pub fn parse_error(e: Endpoint, detail: &str) -> (r: String)
    ensures
        r@ == "Failed to parse "@ + endpoint_noun(e) + ": "@ + detail@,
{
    let mut m = String::from_str("Failed to parse ");
    m.append(noun_str(e));
    m.append(": ");
    m.append(detail);
    m
}

/// "Failed to parse tokens: <detail>".
pub fn token_parse_error(detail: &str) -> (r: String)
    ensures
        r@ == "Failed to parse tokens: "@ + detail@,
{
    let mut m = String::from_str("Failed to parse tokens: ");
    m.append(detail);
    m
}

/// A failed login: "Login failed: HTTP <status>" for a status, else
/// "Login failed: <failure>".
pub fn login_error(f: &CallFailure) -> (r: String)
    ensures
        r@ == match *f {
            CallFailure::Status(code) => "Login failed: HTTP "@ + decimal_text(code as nat),
            CallFailure::Transport(t) => "Login failed: "@ + t@,
        },
{
    match f {
        CallFailure::Status(code) => {
            let mut m = String::from_str("Login failed: HTTP ");
            let digits = decimal(*code as u64);
            m.append(digits.as_str());
            m
        },
        CallFailure::Transport(t) => {
            let mut m = String::from_str("Login failed: ");
            m.append(t.as_str());
            m
        },
    }
}

} // verus!
