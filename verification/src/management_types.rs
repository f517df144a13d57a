//! Shared descriptive types for the managed networks: node features, health
//! states, subnet metadata, release bookkeeping, and the network selector that
//! the surrounding tooling passes around.

use vstd::prelude::*;
use vstd::string::StringExecFns;
use crate::definition::push_char;
use crate::definition::str_eq;
use vstd::string::StrSliceExecFns;

verus! {

/// One axis along which nodes are distributed.
#[derive(Clone, Copy, Debug, PartialEq, Eq, PartialOrd, Ord, Hash, Structural)]
pub enum NodeFeature {
    NodeProvider,
    DataCenter,
    DataCenterOwner,
    City,
    Country,
    Continent,
}

impl NodeFeature {
    /// Every feature, in declaration order.
    pub fn variants() -> (r: Vec<NodeFeature>)
        ensures
            r@ == seq![
                NodeFeature::NodeProvider,
                NodeFeature::DataCenter,
                NodeFeature::DataCenterOwner,
                NodeFeature::City,
                NodeFeature::Country,
                NodeFeature::Continent,
            ],
    {
        let mut r: Vec<NodeFeature> = Vec::new();
        r.push(NodeFeature::NodeProvider);
        r.push(NodeFeature::DataCenter);
        r.push(NodeFeature::DataCenterOwner);
        r.push(NodeFeature::City);
        r.push(NodeFeature::Country);
        r.push(NodeFeature::Continent);
        proof {
            assert(r@ =~= seq![
                NodeFeature::NodeProvider,
                NodeFeature::DataCenter,
                NodeFeature::DataCenterOwner,
                NodeFeature::City,
                NodeFeature::Country,
                NodeFeature::Continent,
            ]);
        }
        r
    }
}

/// Descriptive labels attached to a subnet.
#[derive(Debug)]
pub struct SubnetMetadata {
    pub name: String,
    pub labels: Option<Vec<String>>,
    pub applications: Option<Vec<String>>,
}

/// Where a topology proposal stands.
#[derive(Clone, Copy, Debug, PartialEq, Eq, Structural)]
pub enum TopologyProposalStatus {
    Open,
    Executed,
}

/// The organization owning a datacenter.
#[derive(Debug)]
pub struct DatacenterOwner {
    pub name: String,
}

/// A node's health as the monitoring sources report it.
#[derive(Clone, Copy, Debug, PartialEq, Eq, PartialOrd, Ord, Structural)]
pub enum Health {
    Offline,
    Degraded,
    Healthy,
    Unknown,
}

impl From<i64> for Health {
    fn from(value: i64) -> (r: Health) {
        if value == 1 {
            Health::Healthy
        } else if value == 0 {
            Health::Offline
        } else {
            Health::Unknown
        }
    }
}

impl vstd::std_specs::convert::FromSpecImpl<i64> for Health {
    open spec fn obeys_from_spec() -> bool {
        true
    }

    open spec fn from_spec(value: i64) -> Health {
        if value == 1 {
            Health::Healthy
        } else if value == 0 {
            Health::Offline
        } else {
            Health::Unknown
        }
    }
}

/// One place a node-status report came from.
#[derive(Debug)]
pub struct NodeStatusSource {
    pub name: String,
    pub url: String,
}

/// The replica versions blessed for deployment, and among them the obsolete
/// ones.
#[derive(Debug)]
pub struct BlessedVersions {
    pub all: Vec<String>,
    pub obsolete: Vec<String>,
}

/// A guest host as the facts database records it.  The address is carried as
/// its eight 16-bit segments.
#[derive(Clone, Debug, PartialEq, Eq, Hash)]
pub struct FactsDBGuest {
    pub name: String,
    pub node_type: String,
    pub ipv6: [u16; 8],
    pub principal: String,
    pub subnet: String,
    pub physical_system: String,
}

/// A guest host as the inventory understands it, derived from the facts
/// database record.
#[derive(Clone, Debug, PartialEq, Eq, Hash)]
pub struct Guest {
    pub datacenter: String,
    pub ipv6: [u16; 8],
    pub name: String,
    pub dfinity_owned: bool,
    pub decentralized: bool,
}

/// The text split at every dot: one piece per component, empty components
/// kept, so a text with `n` dots splits into `n + 1` pieces.
pub open spec fn split_dots(s: Seq<char>) -> Seq<Seq<char>>
    decreases s.len(),
{
    if s.len() == 0 {
        seq![Seq::empty()]
    } else if s[0] == '.' {
        seq![Seq::<char>::empty()] + split_dots(s.drop_first())
    } else {
        let rest = split_dots(s.drop_first());
        seq![seq![s[0]] + rest[0]] + rest.drop_first()
    }
}

/// Splitting always yields at least the one piece before any dot.
pub proof fn lemma_split_dots_nonempty(s: Seq<char>)
    ensures
        split_dots(s).len() >= 1,
    decreases s.len(),
{
    if s.len() > 0 {
        lemma_split_dots_nonempty(s.drop_first());
    }
}

/// The pieces of the text around its dots, in order.
pub fn split_on_dots(s: &str) -> (r: Vec<String>)
    ensures
        r.deep_view() == split_dots(s@),
{
    let n = s.unicode_len();
    let mut done: Vec<String> = Vec::new();
    let mut cur = String::new();
    let mut i: usize = 0;
    proof {
        assert(s@.skip(0) =~= s@);
        assert(done.deep_view() =~= Seq::<Seq<char>>::empty());
        assert(Seq::<Seq<char>>::empty() + split_dots(s@) =~= split_dots(s@));
        assert(seq![cur@ + split_dots(s@)[0]] + split_dots(s@).drop_first() =~= split_dots(s@))
            by {
            lemma_split_dots_nonempty(s@);
            assert(cur@ + split_dots(s@)[0] =~= split_dots(s@)[0]);
        }
    }
    while i < n
        invariant
            i <= n,
            n == s@.len(),
            split_dots(s@) == done.deep_view() + (seq![cur@ + split_dots(s@.skip(i as int))[0]]
                + split_dots(s@.skip(i as int)).drop_first()),
        decreases n - i,
    {
        let ghost suffix = s@.skip(i as int);
        let ghost done_prev = done.deep_view();
        let ghost cur_prev = cur@;
        proof {
            assert(suffix[0] == s@[i as int]);
            assert(suffix.drop_first() =~= s@.skip(i + 1));
            lemma_split_dots_nonempty(s@.skip(i + 1));
        }
        let c = s.get_char(i);
        if c == '.' {
            done.push(cur);
            cur = String::new();
            proof {
                assert(done.deep_view() =~= done_prev.push(cur_prev));
                assert(split_dots(suffix) =~= seq![Seq::<char>::empty()] + split_dots(
                    s@.skip(i + 1),
                ));
                assert(cur_prev + split_dots(suffix)[0] =~= cur_prev);
                assert(cur@ + split_dots(s@.skip(i + 1))[0] =~= split_dots(s@.skip(i + 1))[0]);
                assert(done_prev + (seq![cur_prev + split_dots(suffix)[0]] + split_dots(
                    suffix,
                ).drop_first()) =~= done.deep_view() + (seq![cur@ + split_dots(s@.skip(i + 1))[0]]
                    + split_dots(s@.skip(i + 1)).drop_first()));
            }
        } else {
            push_char(&mut cur, c);
            proof {
                let rest = split_dots(s@.skip(i + 1));
                assert(split_dots(suffix) =~= seq![seq![suffix[0]] + rest[0]] + rest.drop_first());
                assert(cur@ =~= cur_prev.push(c));
                assert(cur_prev + split_dots(suffix)[0] =~= cur@ + rest[0]);
                assert(done_prev + (seq![cur_prev + split_dots(suffix)[0]] + split_dots(
                    suffix,
                ).drop_first()) =~= done.deep_view() + (seq![cur@ + rest[0]] + rest.drop_first()));
            }
        }
        i = i + 1;
    }
    proof {
        assert(s@.skip(n as int) =~= Seq::<char>::empty());
        assert(split_dots(Seq::<char>::empty())[0] =~= Seq::<char>::empty());
        assert(cur@ + split_dots(s@.skip(n as int))[0] =~= cur@);
        assert(split_dots(Seq::<char>::empty()).drop_first() =~= Seq::<Seq<char>>::empty());
    }
    done.push(cur);
    proof {
        assert(done.deep_view() =~= split_dots(s@));
    }
    done
}

/// Whether the pattern occurs contiguously anywhere in the text.
pub open spec fn spec_contains_substring(s: Seq<char>, pat: Seq<char>) -> bool {
    exists|i: int| 0 <= i <= s.len() - pat.len() && #[trigger] s.subrange(i, i + pat.len()) == pat
}

/// Whether the pattern occurs contiguously anywhere in the text.
pub fn contains_substring(s: &str, pat: &str) -> (r: bool)
    ensures
        r == spec_contains_substring(s@, pat@),
{
    let n = s.unicode_len();
    let m = pat.unicode_len();
    if m > n {
        proof {
            assert(!spec_contains_substring(s@, pat@));
        }
        return false;
    }
    let mut i: usize = 0;
    while i <= n - m
        invariant
            m <= n,
            n == s@.len(),
            m == pat@.len(),
            i <= n - m + 1,
            forall|k: int| 0 <= k < i ==> #[trigger] s@.subrange(k, k + pat@.len()) != pat@,
        decreases n - m + 1 - i,
    {
        let mut j: usize = 0;
        let mut matches_here = true;
        while j < m
            invariant
                i + m <= n,
                n == s@.len(),
                m == pat@.len(),
                j <= m,
                matches_here == (forall|k: int|
                    0 <= k < j ==> s@[i + k] == pat@[k]),
            decreases m - j,
        {
            let ghost matched_prev = matches_here;
            if s.get_char(i + j) != pat.get_char(j) {
                matches_here = false;
            }
            proof {
                if matches_here {
                    assert forall|k: int| 0 <= k < j + 1 implies s@[i + k] == pat@[k] by {
                        if k < j {
                            assert(matched_prev);
                        }
                    }
                } else {
                    if forall|k: int| 0 <= k < j + 1 ==> s@[i + k] == pat@[k] {
                        assert(s@[i + j] == pat@[j as int]);
                        assert(matched_prev);
                    }
                }
            }
            j = j + 1;
        }
        if matches_here {
            proof {
                assert(s@.subrange(i as int, i + pat@.len()) =~= pat@);
            }
            return true;
        }
        proof {
            if s@.subrange(i as int, i + pat@.len()) == pat@ {
                assert forall|k: int| 0 <= k < m implies s@[i + k] == pat@[k] by {
                    assert(s@.subrange(i as int, i + pat@.len())[k] == pat@[k]);
                }
            }
        }
        i = i + 1;
    }
    proof {
        if spec_contains_substring(s@, pat@) {
            let w = choose|w: int|
                0 <= w <= s@.len() - pat@.len() && #[trigger] s@.subrange(w, w + pat@.len())
                    == pat@;
            assert(w < i);
        }
    }
    false
}

impl Guest {
    /// Derives a guest's inventory identity from its facts-database record:
    /// the host name is the record's first dot-separated component and the
    /// datacenter its second, the host is owned by the operator when its node
    /// type says so, and the distinguished address segment marks it
    /// decentralized.  A record whose physical system name has no dot does not
    /// describe a guest.
    pub fn from_facts(g: FactsDBGuest) -> (r: Guest)
        requires
            split_dots(g.physical_system@).len() >= 2,
        ensures
            r.name@ == split_dots(g.physical_system@)[0],
            r.datacenter@ == split_dots(g.physical_system@)[1],
            r.ipv6 == g.ipv6,
            r.dfinity_owned == spec_contains_substring(g.node_type@, "dfinity"@),
            r.decentralized == (g.ipv6[4] == 0x6801),
    {
        let mut components = split_on_dots(g.physical_system.as_str());
        let dfinity_owned = contains_substring(g.node_type.as_str(), "dfinity");
        let datacenter = components.remove(1);
        let name = components.remove(0);
        proof {
            assert(name@ == split_dots(g.physical_system@)[0]);
            assert(datacenter@ == split_dots(g.physical_system@)[1]);
        }
        Guest {
            datacenter,
            ipv6: g.ipv6,
            name,
            dfinity_owned,
            decentralized: g.ipv6[4] == 0x6801,
        }
    }
}

/// A target network selector: one of the two well-known networks, or any
/// network reachable at an explicitly given URL (stored in the `url` crate's
/// normalized serialization).
#[derive(Clone, Debug)]
pub enum Network {
    Staging,
    Mainnet,
    Url(String),
}

/// What `url::Url::parse` returns for a given input: the parsed URL's
/// normalized serialization exactly when the input parses as an absolute URL,
/// nothing when it is rejected.  The result depends on the input text alone.
pub uninterp spec fn parsed_url(s: Seq<char>) -> Option<Seq<char>>;

/// Relies on url::Url::parse: parses an absolute URL, or reports why it
/// cannot; and on Url::as_str, which hands back the parsed URL's normalized
/// serialization.
#[verifier::external_body]
fn parse_url(s: &str) -> (r: Result<String, String>)
    ensures
        r is Ok <==> parsed_url(s@) is Some,
        r matches Ok(u) ==> parsed_url(s@) matches Some(p) && u@ == p,
{
    match url::Url::parse(s) {
        Ok(u) => Ok(u.as_str().to_string()),
        Err(e) => Err(format!("{}", e)),
    }
}

impl Network {
    /// Reads a network selector: one of the two well-known names, or anything
    /// the `url` crate accepts as an absolute URL.  Everything else is
    /// rejected with a message.
    pub fn from_str(s: &str) -> (r: Result<Network, String>)
        ensures
            s@ == "mainnet"@ ==> (r matches Ok(n) && n is Mainnet),
            s@ == "staging"@ ==> (r matches Ok(n) && n is Staging),
            s@ != "mainnet"@ && s@ != "staging"@ ==> {
                &&& (r is Ok <==> parsed_url(s@) is Some)
                &&& (r matches Ok(n) ==> n matches Network::Url(u) && parsed_url(s@) matches Some(
                    p,
                ) && u@ == p)
            },
    {
        proof {
            reveal_strlit("mainnet");
            reveal_strlit("staging");
            assert("mainnet"@ != "staging"@) by {
                assert("mainnet"@[0] == 'm');
                assert("staging"@[0] == 's');
            }
        }
        if str_eq(s, "mainnet") {
            Ok(Network::Mainnet)
        } else if str_eq(s, "staging") {
            Ok(Network::Staging)
        } else {
            match parse_url(s) {
                Ok(u) => Ok(Network::Url(u)),
                Err(e) => Err(e),
            }
        }
    }

    /// The network's bootstrap URL: the well-known address of each named
    /// network, or the explicitly given one.
    pub fn get_url(&self) -> (r: String)
        ensures
            self is Mainnet ==> r@ == "https://ic0.app"@,
            self is Staging ==> r@ == "https://staging.release.dfinity.network"@,
            self matches Network::Url(u) ==> r@ == u@,
    {
        match self {
            Network::Mainnet => String::from_str("https://ic0.app"),
            Network::Staging => String::from_str("https://staging.release.dfinity.network"),
            Network::Url(u) => u.clone(),
        }
    }
}

} // verus!
