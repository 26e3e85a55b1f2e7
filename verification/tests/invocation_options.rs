use retch_cli::dispatch::{method_accepts_body, plan_request};
use retch_cli::invocation::{parse_browser, parse_method, Browser, Invocation, Method,
    DEFAULT_MAX_REDIRECTS};
use retch_cli::options::{client_options, request_options, RedirectPolicy};

#[test]
fn parse_method_accepts_all_verbs_case_insensitively() {
    assert_eq!(parse_method("get"), Some(Method::Get));
    assert_eq!(parse_method("GET"), Some(Method::Get));
    assert_eq!(parse_method("GeT"), Some(Method::Get));
    assert_eq!(parse_method("post"), Some(Method::Post));
    assert_eq!(parse_method("POST"), Some(Method::Post));
    assert_eq!(parse_method("Put"), Some(Method::Put));
    assert_eq!(parse_method("DELETE"), Some(Method::Delete));
    assert_eq!(parse_method("patch"), Some(Method::Patch));
    assert_eq!(parse_method("head"), Some(Method::Head));
    assert_eq!(parse_method("OPTIONS"), Some(Method::Options));
    assert_eq!(parse_method("trace"), Some(Method::Trace));
}

#[test]
fn parse_method_rejects_unknown_verbs() {
    assert_eq!(parse_method("fetch"), None);
    assert_eq!(parse_method("gets"), None);
    assert_eq!(parse_method(""), None);
    assert_eq!(parse_method("ge t"), None);
}

#[test]
fn parse_browser_accepts_tags_case_insensitively() {
    assert_eq!(parse_browser("chrome"), Some(Browser::Chrome));
    assert_eq!(parse_browser("Chrome"), Some(Browser::Chrome));
    assert_eq!(parse_browser("FIREFOX"), Some(Browser::Firefox));
    assert_eq!(parse_browser("retch"), Some(Browser::Native));
    assert_eq!(parse_browser("Retch"), Some(Browser::Native));
}

#[test]
fn parse_browser_rejects_unknown_tags() {
    assert_eq!(parse_browser("safari"), None);
    assert_eq!(parse_browser(""), None);
}

#[test]
fn invocation_defaults() {
    let inv = Invocation::new(String::from("https://example.test/"));
    assert_eq!(inv.method, Method::Get);
    assert_eq!(inv.url, "https://example.test/");
    assert!(inv.headers.is_empty());
    assert_eq!(inv.impersonate, Browser::Native);
    assert!(!inv.ignore_tls_errors);
    assert!(!inv.fallback);
    assert!(inv.proxy.is_none());
    assert!(inv.max_time.is_none());
    assert!(inv.data.is_none());
    assert!(!inv.http3_prior_knowledge);
    assert!(!inv.enable_http3);
    assert!(!inv.follow_redirects);
    assert_eq!(inv.maximum_redirects, DEFAULT_MAX_REDIRECTS);
    assert_eq!(DEFAULT_MAX_REDIRECTS, 50);
}

#[test]
fn client_options_of_default_invocation() {
    let inv = Invocation::new(String::from("https://h/"));
    let c = client_options(&inv);
    assert_eq!(c.impersonate, Browser::Native);
    assert!(!c.ignore_tls_errors);
    assert!(!c.fallback);
    assert!(c.proxy.is_none());
    assert!(!c.http3);
    assert_eq!(c.redirect, RedirectPolicy::NoFollow);
}

#[test]
fn http3_only_enables_http3_at_client() {
    let mut inv = Invocation::new(String::from("https://h/"));
    inv.http3_prior_knowledge = true;
    let c = client_options(&inv);
    assert!(c.http3);
    let r = request_options(&inv);
    assert!(r.http3_prior_knowledge);
}

#[test]
fn http3_flag_enables_http3_without_prior_knowledge() {
    let mut inv = Invocation::new(String::from("https://h/"));
    inv.enable_http3 = true;
    let c = client_options(&inv);
    assert!(c.http3);
    let r = request_options(&inv);
    assert!(!r.http3_prior_knowledge);
}

#[test]
fn redirects_off_ignores_max_redirs() {
    let mut inv = Invocation::new(String::from("https://h/"));
    inv.maximum_redirects = 3;
    let c = client_options(&inv);
    assert_eq!(c.redirect, RedirectPolicy::NoFollow);
}

#[test]
fn redirects_on_uses_cap() {
    let mut inv = Invocation::new(String::from("https://h/"));
    inv.follow_redirects = true;
    inv.maximum_redirects = 7;
    let c = client_options(&inv);
    assert_eq!(c.redirect, RedirectPolicy::Follow(7));
}

#[test]
fn client_options_pass_transport_flags_through() {
    let mut inv = Invocation::new(String::from("https://h/"));
    inv.ignore_tls_errors = true;
    inv.fallback = true;
    inv.impersonate = Browser::Firefox;
    inv.proxy = Some(String::from("http://proxy.test:8080"));
    let c = client_options(&inv);
    assert!(c.ignore_tls_errors);
    assert!(c.fallback);
    assert_eq!(c.impersonate, Browser::Firefox);
    assert_eq!(c.proxy.as_deref(), Some("http://proxy.test:8080"));
}

#[test]
fn request_options_thread_headers_and_timeout() {
    let mut inv = Invocation::new(String::from("https://h/"));
    inv.headers = vec![String::from("X-A: 1"), String::from(" x-b :  2 ")];
    inv.max_time = Some(30);
    let r = request_options(&inv);
    assert_eq!(r.headers.get("X-A"), Some(&String::from("1")));
    assert_eq!(r.headers.get("x-b"), Some(&String::from("2")));
    assert_eq!(r.timeout_secs, Some(30));
    assert!(!r.http3_prior_knowledge);
}

#[test]
fn derived_options_are_pure() {
    let mut a = Invocation::new(String::from("https://h/"));
    a.headers = vec![String::from("K: v")];
    a.enable_http3 = true;
    a.max_time = Some(9);
    let mut b = Invocation::new(String::from("https://h/"));
    b.headers = vec![String::from("K: v")];
    b.enable_http3 = true;
    b.max_time = Some(9);
    let ca = client_options(&a);
    let cb = client_options(&b);
    assert_eq!(ca.impersonate, cb.impersonate);
    assert_eq!(ca.ignore_tls_errors, cb.ignore_tls_errors);
    assert_eq!(ca.fallback, cb.fallback);
    assert_eq!(ca.proxy, cb.proxy);
    assert_eq!(ca.http3, cb.http3);
    assert_eq!(ca.redirect, cb.redirect);
    let ra = request_options(&a);
    let rb = request_options(&b);
    assert_eq!(ra.headers.get("K"), rb.headers.get("K"));
    assert_eq!(ra.http3_prior_knowledge, rb.http3_prior_knowledge);
    assert_eq!(ra.timeout_secs, rb.timeout_secs);
}

#[test]
fn body_methods_are_exactly_post_put_patch() {
    assert!(method_accepts_body(Method::Post));
    assert!(method_accepts_body(Method::Put));
    assert!(method_accepts_body(Method::Patch));
    assert!(!method_accepts_body(Method::Get));
    assert!(!method_accepts_body(Method::Delete));
    assert!(!method_accepts_body(Method::Head));
    assert!(!method_accepts_body(Method::Options));
    assert!(!method_accepts_body(Method::Trace));
}

#[test]
fn post_forwards_raw_data_bytes() {
    let mut inv = Invocation::new(String::from("https://h/"));
    inv.method = Method::Post;
    inv.data = Some(b"hello".to_vec());
    let p = plan_request(&inv);
    assert_eq!(p.method, Method::Post);
    assert_eq!(p.url, "https://h/");
    assert_eq!(p.body, Some(vec![0x68, 0x65, 0x6c, 0x6c, 0x6f]));
}

#[test]
fn post_without_data_has_no_body() {
    let mut inv = Invocation::new(String::from("https://h/"));
    inv.method = Method::Put;
    let p = plan_request(&inv);
    assert_eq!(p.body, None);
}

#[test]
fn bodyless_methods_never_forward_data() {
    for m in [Method::Get, Method::Delete, Method::Head, Method::Options, Method::Trace] {
        let mut inv = Invocation::new(String::from("https://h/"));
        inv.method = m;
        inv.data = Some(b"ignored".to_vec());
        let p = plan_request(&inv);
        assert_eq!(p.method, m);
        assert_eq!(p.body, None);
    }
}
