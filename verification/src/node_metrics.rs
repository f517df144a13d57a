//! Per-node block-making metrics as the trustworthy-metrics query returns
//! them, in both the current wire format and the older one that some subnets
//! still serve, with the conversion between the two.  The node identity is
//! carried as its textual principal.

use vstd::prelude::*;
use vstd::std_specs::convert::FromSpec;

verus! {

/// One node's counters in the older wire format.
#[derive(Debug)]
pub struct NodeMetricsOld {
    pub node_id: String,
    pub num_blocks_total: u64,
    pub num_block_failures_total: u64,
}

/// One node's counters in the current wire format.
#[derive(Debug)]
pub struct NodeMetrics {
    pub node_id: String,
    pub num_blocks_proposed_total: u64,
    pub num_block_failures_total: u64,
}

/// One sample of every node's counters, older wire format.
#[derive(Debug)]
pub struct NodeMetricsHistoryResponseOld {
    pub timestamp_nanos: u64,
    pub node_metrics: Vec<NodeMetricsOld>,
}

/// One sample of every node's counters, current wire format.
#[derive(Debug)]
pub struct NodeMetricsHistoryResponse {
    pub timestamp_nanos: u64,
    pub node_metrics: Vec<NodeMetrics>,
}

impl From<NodeMetricsOld> for NodeMetrics {
    fn from(value: NodeMetricsOld) -> (r: NodeMetrics) {
        NodeMetrics {
            node_id: value.node_id,
            num_blocks_proposed_total: value.num_blocks_total,
            num_block_failures_total: value.num_block_failures_total,
        }
    }
}

impl vstd::std_specs::convert::FromSpecImpl<NodeMetricsOld> for NodeMetrics {
    open spec fn obeys_from_spec() -> bool {
        true
    }

    open spec fn from_spec(value: NodeMetricsOld) -> NodeMetrics {
        NodeMetrics {
            node_id: value.node_id,
            num_blocks_proposed_total: value.num_blocks_total,
            num_block_failures_total: value.num_block_failures_total,
        }
    }
}

impl NodeMetricsHistoryResponse {
    /// The sample converted to the current wire format: the timestamp is kept
    /// and every node's counters are carried over.
    pub fn from_old(value: NodeMetricsHistoryResponseOld) -> (r: NodeMetricsHistoryResponse)
        ensures
            r.timestamp_nanos == value.timestamp_nanos,
            r.node_metrics@.len() == value.node_metrics@.len(),
            forall|j: int|
                0 <= j < r.node_metrics@.len() ==> #[trigger] r.node_metrics@[j]
                    == NodeMetrics::from_spec(value.node_metrics@[j]),
    {
        let timestamp_nanos = value.timestamp_nanos;
        let ghost old_metrics = value.node_metrics@;
        let mut node_metrics: Vec<NodeMetrics> = Vec::new();
        let mut rem = value.node_metrics;
        while rem.len() > 0
            invariant
                node_metrics@.len() + rem@.len() == old_metrics.len(),
                forall|j: int|
                    0 <= j < node_metrics@.len() ==> #[trigger] node_metrics@[j]
                        == NodeMetrics::from_spec(old_metrics[j]),
                forall|j: int|
                    0 <= j < rem@.len() ==> #[trigger] rem@[j] == old_metrics[node_metrics@.len()
                        + j],
            decreases rem.len(),
        {
            let m = rem.remove(0);
            node_metrics.push(NodeMetrics::from(m));
        }
        NodeMetricsHistoryResponse { timestamp_nanos, node_metrics }
    }
}

} // verus!
