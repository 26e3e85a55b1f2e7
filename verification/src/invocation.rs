//! The argument model: the request method, the browser fingerprint
//! choice, and the immutable record of one invocation's intent.

use vstd::prelude::*;

use crate::text::{eq_lowered, lower};

verus! {

/// The eight request methods the tool accepts.
#[derive(Clone, Copy, PartialEq, Eq, Structural, Debug)]
pub enum Method {
    Get,
    Post,
    Put,
    Delete,
    Patch,
    Head,
    Options,
    Trace,
}

/// The browser fingerprint to imitate; `Native` means no impersonation.
#[derive(Clone, Copy, PartialEq, Eq, Structural, Debug)]
pub enum Browser {
    Chrome,
    Firefox,
    Native,
}

/// The method a verb names, compared case-insensitively; unknown verbs
/// name none.
pub open spec fn method_of(s: Seq<char>) -> Option<Method> {
    if lower(s) == "get"@ {
        Some(Method::Get)
    } else if lower(s) == "post"@ {
        Some(Method::Post)
    } else if lower(s) == "put"@ {
        Some(Method::Put)
    } else if lower(s) == "delete"@ {
        Some(Method::Delete)
    } else if lower(s) == "patch"@ {
        Some(Method::Patch)
    } else if lower(s) == "head"@ {
        Some(Method::Head)
    } else if lower(s) == "options"@ {
        Some(Method::Options)
    } else if lower(s) == "trace"@ {
        Some(Method::Trace)
    } else {
        None
    }
}

/// Parses a request verb, case-insensitively.
pub fn parse_method(s: &str) -> (r: Option<Method>)
    ensures
        r == method_of(s@),
{
    if eq_lowered(s, "get") {
        Some(Method::Get)
    } else if eq_lowered(s, "post") {
        Some(Method::Post)
    } else if eq_lowered(s, "put") {
        Some(Method::Put)
    } else if eq_lowered(s, "delete") {
        Some(Method::Delete)
    } else if eq_lowered(s, "patch") {
        Some(Method::Patch)
    } else if eq_lowered(s, "head") {
        Some(Method::Head)
    } else if eq_lowered(s, "options") {
        Some(Method::Options)
    } else if eq_lowered(s, "trace") {
        Some(Method::Trace)
    } else {
        None
    }
}

/// The browser a tag names, compared case-insensitively; the `retch`
/// tag selects no impersonation.
pub open spec fn browser_of(s: Seq<char>) -> Option<Browser> {
    if lower(s) == "chrome"@ {
        Some(Browser::Chrome)
    } else if lower(s) == "firefox"@ {
        Some(Browser::Firefox)
    } else if lower(s) == "retch"@ {
        Some(Browser::Native)
    } else {
        None
    }
}

/// Parses a browser tag, case-insensitively.
pub fn parse_browser(s: &str) -> (r: Option<Browser>)
    ensures
        r == browser_of(s@),
{
    if eq_lowered(s, "chrome") {
        Some(Browser::Chrome)
    } else if eq_lowered(s, "firefox") {
        Some(Browser::Firefox)
    } else if eq_lowered(s, "retch") {
        Some(Browser::Native)
    } else {
        None
    }
}

/// How many redirect hops are followed by default when following is
/// switched on.
pub const DEFAULT_MAX_REDIRECTS: usize = 50;

/// One invocation's intent, fixed after argument parsing.
pub struct Invocation {
    pub method: Method,
    pub url: String,
    pub headers: Vec<String>,
    pub impersonate: Browser,
    pub ignore_tls_errors: bool,
    pub fallback: bool,
    pub proxy: Option<String>,
    pub max_time: Option<u64>,
    pub data: Option<Vec<u8>>,
    pub http3_prior_knowledge: bool,
    pub enable_http3: bool,
    pub follow_redirects: bool,
    pub maximum_redirects: usize,
}

/// The mathematical value of an invocation.
pub struct InvocationView {
    pub method: Method,
    pub url: Seq<char>,
    pub headers: Seq<Seq<char>>,
    pub impersonate: Browser,
    pub ignore_tls_errors: bool,
    pub fallback: bool,
    pub proxy: Option<Seq<char>>,
    pub max_time: Option<u64>,
    pub data: Option<Seq<u8>>,
    pub http3_prior_knowledge: bool,
    pub enable_http3: bool,
    pub follow_redirects: bool,
    pub maximum_redirects: usize,
}

impl View for Invocation {
    type V = InvocationView;

    open spec fn view(&self) -> InvocationView {
        InvocationView {
            method: self.method,
            url: self.url@,
            headers: self.headers.deep_view(),
            impersonate: self.impersonate,
            ignore_tls_errors: self.ignore_tls_errors,
            fallback: self.fallback,
            proxy: self.proxy.deep_view(),
            max_time: self.max_time,
            data: self.data.deep_view(),
            http3_prior_knowledge: self.http3_prior_knowledge,
            enable_http3: self.enable_http3,
            follow_redirects: self.follow_redirects,
            maximum_redirects: self.maximum_redirects,
        }
    }
}

impl Invocation {
    /// An invocation for `url` with every option at its default: a plain
    /// GET, no headers, no impersonation, strict TLS, no fallback, no
    /// proxy, no timeout, no body, no HTTP/3, and redirects not followed.
    pub fn new(url: String) -> (inv: Invocation)
        ensures
            inv@.method == Method::Get,
            inv@.url == url@,
            inv@.headers == Seq::<Seq<char>>::empty(),
            inv@.impersonate == Browser::Native,
            !inv@.ignore_tls_errors,
            !inv@.fallback,
            inv@.proxy is None,
            inv@.max_time is None,
            inv@.data is None,
            !inv@.http3_prior_knowledge,
            !inv@.enable_http3,
            !inv@.follow_redirects,
            inv@.maximum_redirects == DEFAULT_MAX_REDIRECTS,
    {
        let inv = Invocation {
            method: Method::Get,
            url,
            headers: Vec::new(),
            impersonate: Browser::Native,
            ignore_tls_errors: false,
            fallback: false,
            proxy: None,
            max_time: None,
            data: None,
            http3_prior_knowledge: false,
            enable_http3: false,
            follow_redirects: false,
            maximum_redirects: DEFAULT_MAX_REDIRECTS,
        };
        proof {
            assert(inv.headers.deep_view() =~= Seq::<Seq<char>>::empty());
        }
        inv
    }
}

} // verus!
