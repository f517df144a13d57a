//! The request and response shapes of the node-replacement backend: which
//! nodes a subnet should give up or take on.

use vstd::prelude::*;

verus! {

/// A query for replacement candidates in one subnet.
#[derive(Clone, Debug)]
pub struct DecentralizedNodeQuery {
    pub subnet: String,
    pub removals: Option<Vec<String>>,
    pub node_count: i32,
}

/// The nodes the backend suggests removing.
#[derive(Clone, Debug)]
pub struct NodesToRemoveResponse {
    pub nodes: Vec<String>,
}

/// The nodes the backend suggests adding.
#[derive(Clone, Debug)]
pub struct BestNodesResponse {
    pub nodes: Vec<String>,
}

/// Whether a replacement request only simulates its effect.
#[derive(Clone, Copy, Debug, PartialEq, Eq, Structural)]
pub enum DryRun {
    False,
    True,
}

} // verus!
