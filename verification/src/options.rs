//! Derivation of client-scoped and request-scoped options from an
//! invocation. Both derivations are pure functions of the invocation's
//! value, and every field is pinned exactly.

use vstd::prelude::*;

use crate::headers::{contains_colon, headers_map, process_headers, HeaderMap};
use crate::invocation::{Browser, Invocation, InvocationView};

verus! {

/// What the client does with a redirect response: hand it back to the
/// caller untouched, or follow it for at most the given number of hops.
#[derive(Clone, Copy, PartialEq, Eq, Structural, Debug)]
pub enum RedirectPolicy {
    NoFollow,
    Follow(usize),
}

/// The options that parameterise the client itself.
pub struct ClientOptions {
    pub impersonate: Browser,
    pub ignore_tls_errors: bool,
    pub fallback: bool,
    pub proxy: Option<String>,
    pub http3: bool,
    pub redirect: RedirectPolicy,
}

/// The mathematical value of `ClientOptions`.
pub struct ClientOptionsView {
    pub impersonate: Browser,
    pub ignore_tls_errors: bool,
    pub fallback: bool,
    pub proxy: Option<Seq<char>>,
    pub http3: bool,
    pub redirect: RedirectPolicy,
}

impl View for ClientOptions {
    type V = ClientOptionsView;

    open spec fn view(&self) -> ClientOptionsView {
        ClientOptionsView {
            impersonate: self.impersonate,
            ignore_tls_errors: self.ignore_tls_errors,
            fallback: self.fallback,
            proxy: self.proxy.deep_view(),
            http3: self.http3,
            redirect: self.redirect,
        }
    }
}

/// The client options an invocation calls for. HTTP/3 is enabled at the
/// client by either HTTP/3 flag; the redirect policy follows at most
/// `maximum_redirects` hops when following is on and is `NoFollow`
/// otherwise.
pub open spec fn client_options_of(inv: InvocationView) -> ClientOptionsView {
    ClientOptionsView {
        impersonate: inv.impersonate,
        ignore_tls_errors: inv.ignore_tls_errors,
        fallback: inv.fallback,
        proxy: inv.proxy,
        http3: inv.enable_http3 || inv.http3_prior_knowledge,
        redirect: if inv.follow_redirects {
            RedirectPolicy::Follow(inv.maximum_redirects)
        } else {
            RedirectPolicy::NoFollow
        },
    }
}

/// Derives the client options of an invocation.
pub fn client_options(inv: &Invocation) -> (c: ClientOptions)
    ensures
        c@ == client_options_of(inv@),
{
    let proxy: Option<String> = match &inv.proxy {
        Some(p) => Some(p.clone()),
        None => None,
    };
    let c = ClientOptions {
        impersonate: inv.impersonate,
        ignore_tls_errors: inv.ignore_tls_errors,
        fallback: inv.fallback,
        proxy,
        http3: inv.enable_http3 || inv.http3_prior_knowledge,
        redirect: if inv.follow_redirects {
            RedirectPolicy::Follow(inv.maximum_redirects)
        } else {
            RedirectPolicy::NoFollow
        },
    };
    c
}

/// The options that parameterise one request.
pub struct RequestOptions {
    pub headers: HeaderMap,
    pub http3_prior_knowledge: bool,
    pub timeout_secs: Option<u64>,
}

/// The mathematical value of `RequestOptions`.
pub struct RequestOptionsView {
    pub headers: Map<Seq<char>, Seq<char>>,
    pub http3_prior_knowledge: bool,
    pub timeout_secs: Option<u64>,
}

impl View for RequestOptions {
    type V = RequestOptionsView;

    open spec fn view(&self) -> RequestOptionsView {
        RequestOptionsView {
            headers: self.headers@,
            http3_prior_knowledge: self.http3_prior_knowledge,
            timeout_secs: self.timeout_secs,
        }
    }
}

/// The request options an invocation calls for: the parsed header map,
/// the prior-knowledge flag forwarded verbatim, and the whole-second
/// timeout.
pub open spec fn request_options_of(inv: InvocationView) -> RequestOptionsView {
    RequestOptionsView {
        headers: headers_map(inv.headers),
        http3_prior_knowledge: inv.http3_prior_knowledge,
        timeout_secs: inv.max_time,
    }
}

/// Derives the request options of an invocation. Every raw header
/// string must hold its `:` delimiter.
pub fn request_options(inv: &Invocation) -> (r: RequestOptions)
    requires
        forall|i: int| 0 <= i < inv@.headers.len() ==> contains_colon(#[trigger] inv@.headers[i]),
    ensures
        r@ == request_options_of(inv@),
{
    let mut raw: Vec<String> = Vec::new();
    let n: usize = inv.headers.len();
    let mut i: usize = 0;
    while i < n
        invariant
            n == inv.headers@.len(),
            0 <= i <= n,
            raw.deep_view() == inv.headers.deep_view().subrange(0, i as int),
        decreases n - i,
    {
        let ghost prev = raw.deep_view();
        raw.push(inv.headers[i].clone());
        proof {
            assert(raw.deep_view() =~= prev.push(inv.headers@[i as int]@));
            assert(raw.deep_view() =~= inv.headers.deep_view().subrange(0, i + 1));
        }
        i += 1;
    }
    proof {
        assert(inv.headers.deep_view().subrange(0, n as int) =~= inv.headers.deep_view());
        assert forall|k: int| 0 <= k < raw@.len() implies contains_colon(#[trigger] raw@[k]@) by {
            assert(raw.deep_view()[k] == raw@[k]@);
            assert(raw.deep_view()[k] == inv@.headers[k]);
        }
    }
    let headers = process_headers(raw);
    RequestOptions {
        headers,
        http3_prior_knowledge: inv.http3_prior_knowledge,
        timeout_secs: inv.max_time,
    }
}

/// Derived options are pure functions of the invocation: two
/// invocations with the same value derive the same client options and
/// the same request options.
pub proof fn lemma_derived_options_pure(a: Invocation, b: Invocation)
    requires
        a@ == b@,
    ensures
        client_options_of(a@) == client_options_of(b@),
        request_options_of(a@) == request_options_of(b@),
{
}

/// Requiring HTTP/3 for the request enables HTTP/3 at the client, and
/// the prior-knowledge flag reaches the request options verbatim.
pub proof fn lemma_http3_prior_knowledge_enables_http3(inv: InvocationView)
    requires
        inv.http3_prior_knowledge,
    ensures
        client_options_of(inv).http3,
        request_options_of(inv).http3_prior_knowledge,
{
}

/// When redirects are not followed, the client's redirect policy is
/// `NoFollow`, whatever the redirect cap says.
pub proof fn lemma_no_follow_ignores_cap(inv: InvocationView)
    requires
        !inv.follow_redirects,
    ensures
        client_options_of(inv).redirect == RedirectPolicy::NoFollow,
{
}

} // verus!
