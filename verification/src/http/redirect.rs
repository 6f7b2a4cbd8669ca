//! The redirect policy of the gateway: how many hops a fetch may follow, and
//! to which hosts.

use crate::text::{ends_with, has_suffix, same_text};
use reqwest::redirect::Policy;
use vstd::prelude::*;

verus! {

#[verifier::external_type_specification]
#[verifier::external_body]
pub struct ExPolicy(Policy);

/// What happens to a redirect.
#[derive(Debug, Clone, Copy, PartialEq, Eq, Hash, Structural)]
pub enum Redirect {
    /// The fetch goes on to the target.
    Follow,
    /// The chain halts at the response that was received last.
    Stop,
}

/// The redirect policy: a bound on the hops of a chain and the one domain
/// that stores the assets.
#[derive(Debug, Clone, Copy, PartialEq, Eq, Hash, Structural)]
pub struct RedirectPolicy {}

impl RedirectPolicy {
    /// The most requests that a chain may have made before a redirect that
    /// is followed.
    pub open spec fn max_hops() -> nat {
        2
    }

    /// The domain that stores the assets.
    pub open spec fn domain() -> Seq<char> {
        "githubusercontent.com"@
    }

    /// The host is the storage domain or one of its subdomains: it ends
    /// with the domain, and a dot stands before the domain where anything
    /// does.
    pub open spec fn allowed_host(host: Seq<char>) -> bool {
        host == "githubusercontent.com"@ || ends_with(host, ".githubusercontent.com"@)
    }

    /// A redirect to `host` after `hop` requests is followed.
    pub open spec fn allows(host: Seq<char>, hop: nat) -> bool {
        hop <= Self::max_hops() && Self::allowed_host(host)
    }

    /// What the policy does with a redirect to a URL with this host, if it
    /// has one, after `hop` requests.
    pub open spec fn decision(host: Option<Seq<char>>, hop: nat) -> Redirect {
        match host {
            Some(h) => if Self::allows(h, hop) {
                Redirect::Follow
            } else {
                Redirect::Stop
            },
            None => Redirect::Stop,
        }
    }

    /// Whether a redirect to `host` is followed after `hop` requests.
    pub fn allow(host: &str, hop: usize) -> (r: bool)
        ensures
            r == Self::allows(host@, hop as nat),
    {
        if hop > 2 {
            return false;
        }
        same_text(host, "githubusercontent.com") || has_suffix(host, ".githubusercontent.com")
    }

    /// Decides on a redirect: a URL without a host is never followed.
    pub fn decide(host: Option<&str>, hop: usize) -> (r: Redirect)
        ensures
            r == Self::decision(
                match host {
                    Some(h) => Some(h@),
                    None => None,
                },
                hop as nat,
            ),
    {
        match host {
            Some(h) => {
                if Self::allow(h, hop) {
                    Redirect::Follow
                } else {
                    Redirect::Stop
                }
            },
            None => Redirect::Stop,
        }
    }
}

/// Calls `reqwest::redirect::Policy::custom` with a function that hands the
/// host of the target and the number of requests made so far to
/// `RedirectPolicy::decide`, and follows or stops as it says. Nothing is
/// claimed of the policy that comes back.
#[verifier::external_body]
pub(crate) fn custom_policy() -> Policy {
    Policy::custom(
        |attempt|
            match RedirectPolicy::decide(attempt.url().host_str(), attempt.previous().len()) {
                Redirect::Follow => attempt.follow(),
                Redirect::Stop => attempt.stop(),
            },
    )
}

/// A host is allowed exactly when it is some prefix followed by the domain,
/// and the prefix is empty or ends with a dot.
pub proof fn lemma_allowed_host_dot_boundary(host: Seq<char>)
    ensures
        RedirectPolicy::allowed_host(host) <==> exists|prefix: Seq<char>|
            host == prefix + RedirectPolicy::domain() && (prefix.len() == 0 || prefix.last() == '.'),
{
    reveal_strlit("githubusercontent.com");
    reveal_strlit(".githubusercontent.com");
    let domain = RedirectPolicy::domain();
    let dotted = ".githubusercontent.com"@;
    assert(dotted =~= seq!['.'] + domain);
    if RedirectPolicy::allowed_host(host) {
        if host == domain {
            let prefix = Seq::<char>::empty();
            assert(host =~= prefix + domain);
        } else {
            let prefix = host.subrange(0, host.len() - domain.len());
            assert(host.subrange(host.len() - dotted.len(), host.len() as int) == dotted);
            assert(prefix.last() == dotted[0]);
            assert(host =~= prefix + domain) by {
                assert forall|i: int| 0 <= i < host.len() implies host[i] == (prefix + domain)[i] by {
                    if i >= prefix.len() {
                        assert(host[i] == dotted[i - (host.len() - dotted.len())]);
                    }
                }
            }
        }
    }
    if exists|prefix: Seq<char>| host == prefix + domain && (prefix.len() == 0 || prefix.last() == '.') {
        let prefix = choose|prefix: Seq<char>|
            host == prefix + domain && (prefix.len() == 0 || prefix.last() == '.');
        if prefix.len() == 0 {
            assert(host =~= domain);
        } else {
            assert(host.subrange(host.len() - dotted.len(), host.len() as int) =~= dotted);
        }
    }
}

/// A host that merely ends with the domain, with no dot before it, is not
/// allowed.
pub proof fn lemma_spoofed_host_rejected(host: Seq<char>)
    requires
        ends_with(host, RedirectPolicy::domain()),
        host.len() > RedirectPolicy::domain().len(),
        host[host.len() - RedirectPolicy::domain().len() - 1] != '.',
    ensures
        forall|hop: nat| !RedirectPolicy::allows(host, hop),
{
    reveal_strlit("githubusercontent.com");
    reveal_strlit(".githubusercontent.com");
    let dotted = ".githubusercontent.com"@;
    if ends_with(host, dotted) {
        assert(host.subrange(host.len() - dotted.len(), host.len() as int)[0] == dotted[0]);
    }
}

/// No redirect is followed once the chain has made more than two requests.
pub proof fn lemma_hop_bound(host: Seq<char>, hop: nat)
    requires
        hop > RedirectPolicy::max_hops(),
    ensures
        !RedirectPolicy::allows(host, hop),
{
}

} // verus!
