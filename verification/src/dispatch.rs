//! The request dispatcher's decisions: which methods carry a body, and
//! what is handed to the client for one invocation.

use vstd::prelude::*;

use crate::invocation::{Invocation, InvocationView, Method};

verus! {

/// Whether a method's client operation takes a body.
pub open spec fn accepts_body(m: Method) -> bool {
    m == Method::Post || m == Method::Put || m == Method::Patch
}

/// Runtime test for `accepts_body`.
pub fn method_accepts_body(m: Method) -> (r: bool)
    ensures
        r == accepts_body(m),
{
    matches!(m, Method::Post | Method::Put | Method::Patch)
}

/// The body handed to the client: the raw `--data` bytes for a
/// body-bearing method, and nothing otherwise.
pub open spec fn forwarded_body(m: Method, data: Option<Seq<u8>>) -> Option<Seq<u8>> {
    if accepts_body(m) {
        data
    } else {
        None
    }
}

/// Everything the client is handed for the single request: the method,
/// the target URL, and the body (when one is forwarded).
pub struct RequestPlan {
    pub method: Method,
    pub url: String,
    pub body: Option<Vec<u8>>,
}

/// The mathematical value of a request plan.
pub struct RequestPlanView {
    pub method: Method,
    pub url: Seq<char>,
    pub body: Option<Seq<u8>>,
}

impl View for RequestPlan {
    type V = RequestPlanView;

    open spec fn view(&self) -> RequestPlanView {
        RequestPlanView { method: self.method, url: self.url@, body: self.body.deep_view() }
    }
}

/// The plan an invocation calls for.
pub open spec fn plan_of(inv: InvocationView) -> RequestPlanView {
    RequestPlanView { method: inv.method, url: inv.url, body: forwarded_body(inv.method, inv.data) }
}

/// Copies a byte vector exactly.
fn clone_bytes(v: &Vec<u8>) -> (r: Vec<u8>)
    ensures
        r@ == v@,
{
    let mut r: Vec<u8> = Vec::new();
    let n: usize = v.len();
    let mut i: usize = 0;
    while i < n
        invariant
            n == v@.len(),
            0 <= i <= n,
            r@ == v@.subrange(0, i as int),
        decreases n - i,
    {
        r.push(v[i]);
        proof {
            assert(r@ =~= v@.subrange(0, i + 1));
        }
        i += 1;
    }
    proof {
        assert(v@.subrange(0, n as int) =~= v@);
    }
    r
}

/// Plans the single request of an invocation: the method and URL are
/// taken as they stand, and `--data` is forwarded exactly when the
/// method accepts a body.
pub fn plan_request(inv: &Invocation) -> (p: RequestPlan)
    ensures
        p@ == plan_of(inv@),
{
    let body: Option<Vec<u8>> = if method_accepts_body(inv.method) {
        match &inv.data {
            Some(d) => Some(clone_bytes(d)),
            None => None,
        }
    } else {
        None
    };
    let p = RequestPlan { method: inv.method, url: inv.url.clone(), body };
    proof {
        assert(p@.body == plan_of(inv@).body);
    }
    p
}

/// Methods without a body never forward `--data` to the client.
pub proof fn lemma_bodyless_methods_drop_data(m: Method, data: Option<Seq<u8>>)
    requires
        m == Method::Get || m == Method::Delete || m == Method::Head || m == Method::Options
            || m == Method::Trace,
    ensures
        forwarded_body(m, data) is None,
{
}

/// Body-bearing methods forward the raw `--data` bytes when they are
/// present, and the absent value otherwise.
pub proof fn lemma_body_methods_forward_data(m: Method, data: Option<Seq<u8>>)
    requires
        m == Method::Post || m == Method::Put || m == Method::Patch,
    ensures
        forwarded_body(m, data) == data,
{
}

} // verus!
