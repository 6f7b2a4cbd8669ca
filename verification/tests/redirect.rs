use dispatch::http::redirect::{Redirect, RedirectPolicy};

#[test]
fn allow_the_storage_domain() {
    assert!(RedirectPolicy::allow("githubusercontent.com", 0));
    assert!(RedirectPolicy::allow("githubusercontent.com", 2));
}

#[test]
fn allow_subdomains_of_the_storage_domain() {
    assert!(RedirectPolicy::allow("objects.githubusercontent.com", 1));
    assert!(RedirectPolicy::allow("a.b.githubusercontent.com", 2));
    assert!(RedirectPolicy::allow(".githubusercontent.com", 0));
}

#[test]
fn reject_a_spoofed_suffix() {
    assert!(!RedirectPolicy::allow("evilgithubusercontent.com", 0));
    assert!(!RedirectPolicy::allow("evilgithubusercontent.com", 1));
    assert!(!RedirectPolicy::allow("xgithubusercontent.com", 2));
}

#[test]
fn reject_other_hosts() {
    assert!(!RedirectPolicy::allow("", 0));
    assert!(!RedirectPolicy::allow("example.com", 0));
    assert!(!RedirectPolicy::allow("githubusercontent.com.evil.test", 0));
    assert!(!RedirectPolicy::allow("githubusercontent.co", 0));
    assert!(!RedirectPolicy::allow("GITHUBUSERCONTENT.COM", 0));
    assert!(!RedirectPolicy::allow("github.com", 0));
}

#[test]
fn reject_beyond_two_hops() {
    assert!(!RedirectPolicy::allow("githubusercontent.com", 3));
    assert!(!RedirectPolicy::allow("objects.githubusercontent.com", 3));
    assert!(!RedirectPolicy::allow("objects.githubusercontent.com", usize::MAX));
}

#[test]
fn decide_follows_or_stops() {
    assert_eq!(RedirectPolicy::decide(Some("objects.githubusercontent.com"), 1), Redirect::Follow);
    assert_eq!(RedirectPolicy::decide(Some("objects.githubusercontent.com"), 3), Redirect::Stop);
    assert_eq!(RedirectPolicy::decide(Some("evilgithubusercontent.com"), 1), Redirect::Stop);
    assert_eq!(RedirectPolicy::decide(None, 0), Redirect::Stop);
}
