//! The client handle for the dashboard backend: its base URL is computed from
//! the target network and whether a local development backend is addressed.
//! The HTTP requests themselves are the surrounding runtime's job.

use vstd::prelude::*;
use crate::management_types::Network;

verus! {

/// What resolving `input` against the URL parsed from `base` returns: the
/// resolved URL's normalized serialization when `base` parses and the
/// resolution succeeds, nothing otherwise.  The result depends on the two
/// texts alone.
pub uninterp spec fn joined_url(base: Seq<char>, input: Seq<char>) -> Option<Seq<char>>;

/// Relies on url::Url::parse and url::Url::join: parses the base URL, resolves
/// the given input against it, and hands back the resolved URL's normalized
/// serialization (url::Url::as_str).
#[verifier::external_body]
fn join_url(base: &str, input: &str) -> (r: Result<String, String>)
    ensures
        r is Ok <==> joined_url(base@, input@) is Some,
        r matches Ok(u) ==> joined_url(base@, input@) matches Some(j) && u@ == j,
{
    match url::Url::parse(base) {
        Ok(b) => match b.join(input) {
            Ok(u) => Ok(u.as_str().to_string()),
            Err(e) => Err(format!("{}", e)),
        },
        Err(e) => Err(format!("{}", e)),
    }
}

/// The dashboard backend's base address: the internal deployment, or a local
/// development instance.
pub open spec fn dashboard_base(dev: bool) -> Seq<char> {
    if dev {
        "http://localhost:17000/"@
    } else {
        "https://dashboard.internal.dfinity.network/"@
    }
}

/// The path segment of the addressed network's registry proxy.
pub open spec fn network_segment(network: Network) -> Seq<char> {
    if network is Mainnet {
        "mainnet/"@
    } else {
        "staging/"@
    }
}

/// The full backend URL of one network's registry proxy: the base joined with
/// the proxy prefix, then with the network's segment.
pub open spec fn dashboard_url(network: Network, dev: bool) -> Option<Seq<char>> {
    match joined_url(dashboard_base(dev), "api/proxy/registry/"@) {
        Some(mid) => joined_url(mid, network_segment(network)),
        None => None,
    }
}

/// A handle on the dashboard backend serving one network's registry proxy.
#[derive(Clone, Debug)]
pub struct DashboardBackendClient {
    pub url: String,
}

impl DashboardBackendClient {
    /// Computes the backend URL for the given network.  Backend operations are
    /// offered only for the two well-known networks, not for arbitrary URLs.
    pub fn new(network: Network, dev: bool) -> (r: Result<DashboardBackendClient, String>)
        requires
            !(network is Url),
        ensures
            r is Ok <==> dashboard_url(network, dev) is Some,
            r matches Ok(client) ==> dashboard_url(network, dev) matches Some(u) && client.url@
                == u,
    {
        let base = if dev {
            "http://localhost:17000/"
        } else {
            "https://dashboard.internal.dfinity.network/"
        };
        let mid = match join_url(base, "api/proxy/registry/") {
            Ok(mid) => mid,
            Err(e) => {
                return Err(e);
            },
        };
        let segment = match network {
            Network::Mainnet => "mainnet/",
            Network::Staging => "staging/",
            Network::Url(_) => {
                return Err(String::new());
            },
        };
        match join_url(mid.as_str(), segment) {
            Ok(url) => Ok(DashboardBackendClient { url }),
            Err(e) => Err(e),
        }
    }
}

} // verus!
