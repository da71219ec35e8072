//! Builder of the CGI environment for one request.
//!
//! The routing layer hands over the request's parsed fields; the builder
//! turns them into the complete set of environment variables the CGI
//! program is started with. The subprocess's environment is otherwise
//! cleared, so these variables are all it sees. Building is a pure, total
//! function of the repository root, the route's namespace prefix and the
//! request fields.

use vstd::prelude::*;
use vstd::string::StringExecFns;

verus! {

/// The request fields the bridge works from, as the routing layer parsed
/// them: the method token, the path suffix behind the route prefix, the raw
/// query string (possibly empty), the two forwarded headers when present,
/// and the client address when known.
#[derive(Debug, Clone, PartialEq, Eq)]
pub struct RequestDescriptor {
    pub method: String,
    pub path_suffix: String,
    pub query: String,
    pub content_type: Option<String>,
    pub content_encoding: Option<String>,
    pub remote_addr: Option<String>,
}

/// Mathematical content of a request descriptor.
pub ghost struct RequestModel {
    pub method: Seq<char>,
    pub path_suffix: Seq<char>,
    pub query: Seq<char>,
    pub content_type: Option<Seq<char>>,
    pub content_encoding: Option<Seq<char>>,
    pub remote_addr: Option<Seq<char>>,
}

pub open spec fn opt_view(s: Option<String>) -> Option<Seq<char>> {
    match s {
        Some(v) => Some(v@),
        None => None,
    }
}

impl View for RequestDescriptor {
    type V = RequestModel;

    open spec fn view(&self) -> RequestModel {
        RequestModel {
            method: self.method@,
            path_suffix: self.path_suffix@,
            query: self.query@,
            content_type: opt_view(self.content_type),
            content_encoding: opt_view(self.content_encoding),
            remote_addr: opt_view(self.remote_addr),
        }
    }
}

/// The environment the CGI program is started with. `content_type` is set
/// iff the request carried a `Content-Type` header; every other variable is
/// always set.
#[derive(Debug, Clone, PartialEq, Eq)]
pub struct CgiEnv {
    pub git_project_root: String,
    pub path_info: String,
    pub request_method: String,
    pub query_string: String,
    pub remote_user: String,
    pub remote_addr: String,
    pub content_type: Option<String>,
    pub git_http_export_all: String,
}

/// Mathematical content of a CGI environment.
pub ghost struct CgiEnvModel {
    pub git_project_root: Seq<char>,
    pub path_info: Seq<char>,
    pub request_method: Seq<char>,
    pub query_string: Seq<char>,
    pub remote_user: Seq<char>,
    pub remote_addr: Seq<char>,
    pub content_type: Option<Seq<char>>,
    pub git_http_export_all: Seq<char>,
}

impl View for CgiEnv {
    type V = CgiEnvModel;

    open spec fn view(&self) -> CgiEnvModel {
        CgiEnvModel {
            git_project_root: self.git_project_root@,
            path_info: self.path_info@,
            request_method: self.request_method@,
            query_string: self.query_string@,
            remote_user: self.remote_user@,
            remote_addr: self.remote_addr@,
            content_type: opt_view(self.content_type),
            git_http_export_all: self.git_http_export_all@,
        }
    }
}

/// The environment a request calls for: `PATH_INFO` is the namespace prefix
/// followed by the path suffix, the method and query are taken verbatim,
/// `REMOTE_USER` is empty, the client address defaults to `127.0.0.1` when
/// unknown, `CONTENT_TYPE` is present iff the request supplied one, and
/// export is always switched on.
pub open spec fn spec_cgi_env(
    project_root: Seq<char>,
    repo_prefix: Seq<char>,
    req: RequestModel,
) -> CgiEnvModel {
    CgiEnvModel {
        git_project_root: project_root,
        path_info: repo_prefix + req.path_suffix,
        request_method: req.method,
        query_string: req.query,
        remote_user: ""@,
        remote_addr: match req.remote_addr {
            Some(a) => a,
            None => "127.0.0.1"@,
        },
        content_type: req.content_type,
        git_http_export_all: "true"@,
    }
}

/// Builds the CGI environment for one request. Total: every request yields
/// exactly the environment `spec_cgi_env` describes.
pub fn build_cgi_env(project_root: &str, repo_prefix: &str, req: RequestDescriptor) -> (env:
    CgiEnv)
    ensures
        env@ == spec_cgi_env(project_root@, repo_prefix@, req@),
{
    let path_info = String::from_str(repo_prefix).concat(req.path_suffix.as_str());
    let remote_addr = match req.remote_addr {
        Some(a) => a,
        None => String::from_str("127.0.0.1"),
    };
    CgiEnv {
        git_project_root: String::from_str(project_root),
        path_info,
        request_method: req.method,
        query_string: req.query,
        remote_user: String::from_str(""),
        remote_addr,
        content_type: req.content_type,
        git_http_export_all: String::from_str("true"),
    }
}

/// One environment variable: its name and its value.
#[derive(Debug, Clone, PartialEq, Eq)]
pub struct EnvPair {
    pub name: String,
    pub value: String,
}

impl View for EnvPair {
    type V = (Seq<char>, Seq<char>);

    open spec fn view(&self) -> (Seq<char>, Seq<char>) {
        (self.name@, self.value@)
    }
}

pub open spec fn pairs_view(ps: Seq<EnvPair>) -> Seq<(Seq<char>, Seq<char>)> {
    ps.map_values(|p: EnvPair| p@)
}

/// The variable list an environment stands for, in the order the variables
/// are handed to the subprocess; `CONTENT_TYPE` appears iff it is set.
pub open spec fn spec_env_pairs(env: CgiEnvModel) -> Seq<(Seq<char>, Seq<char>)> {
    let base = seq![
        ("GIT_PROJECT_ROOT"@, env.git_project_root),
        ("PATH_INFO"@, env.path_info),
        ("REQUEST_METHOD"@, env.request_method),
        ("QUERY_STRING"@, env.query_string),
        ("REMOTE_USER"@, env.remote_user),
        ("REMOTE_ADDR"@, env.remote_addr),
    ];
    let with_ct = match env.content_type {
        Some(c) => base.push(("CONTENT_TYPE"@, c)),
        None => base,
    };
    with_ct.push(("GIT_HTTP_EXPORT_ALL"@, env.git_http_export_all))
}

impl CgiEnv {
    /// Hands the environment out as (name, value) pairs, in a fixed order,
    /// ready to be applied to a cleared subprocess environment.
    pub fn into_pairs(self) -> (pairs: Vec<EnvPair>)
        ensures
            pairs_view(pairs@) == spec_env_pairs(self@),
    {
        let ghost model = self@;
        let mut pairs: Vec<EnvPair> = Vec::new();
        pairs.push(EnvPair { name: String::from_str("GIT_PROJECT_ROOT"), value: self.git_project_root });
        pairs.push(EnvPair { name: String::from_str("PATH_INFO"), value: self.path_info });
        pairs.push(EnvPair { name: String::from_str("REQUEST_METHOD"), value: self.request_method });
        pairs.push(EnvPair { name: String::from_str("QUERY_STRING"), value: self.query_string });
        pairs.push(EnvPair { name: String::from_str("REMOTE_USER"), value: self.remote_user });
        pairs.push(EnvPair { name: String::from_str("REMOTE_ADDR"), value: self.remote_addr });
        match self.content_type {
            Some(c) => {
                pairs.push(EnvPair { name: String::from_str("CONTENT_TYPE"), value: c });
            },
            None => {},
        }
        pairs.push(EnvPair { name: String::from_str("GIT_HTTP_EXPORT_ALL"), value: self.git_http_export_all });
        proof {
            assert(pairs_view(pairs@) =~= spec_env_pairs(model));
        }
        pairs
    }
}

/// Building the environment is deterministic: identical request fields,
/// root and prefix yield identical environments — one request descriptor
/// always maps to one environment.
pub proof fn lemma_env_build_deterministic(
    project_root: Seq<char>,
    repo_prefix: Seq<char>,
    a: RequestModel,
    b: RequestModel,
)
    requires
        a == b,
    ensures
        spec_cgi_env(project_root, repo_prefix, a) == spec_cgi_env(project_root, repo_prefix, b),
{
}

} // verus!
