use vstd::prelude::*;

use crate::block::{PrivateKey, PublicKey};

verus! {

/// Immutable configuration of the consensus worker.
#[derive(Clone, Debug)]
pub struct ConsensusConfig {
    /// Number of parallel threads of the block DAG.
    pub thread_count: u8,
    /// Duration of one slot in milliseconds.
    pub t0: u64,
    /// Timestamp of the genesis slot, in milliseconds.
    pub genesis_timestamp: u64,
    /// Key pairs of the known nodes, in roster order.
    pub nodes: Vec<(PublicKey, PrivateKey)>,
    /// Index of the local node in `nodes`.
    pub current_node_index: u32,
    /// Cap on the number of operations of a created block.
    pub max_operations_per_block: u32,
    /// Byte budget of one pool batch request.
    pub operation_batch_size: u64,
    /// When set, the worker never creates blocks.
    pub disable_block_creation: bool,
    /// Private key the genesis blocks were created with.
    pub genesis_key: PrivateKey,
}

impl ConsensusConfig {
    /// The protocol constants are usable: at least one thread and a
    /// positive slot duration.
    pub open spec fn wf(self) -> bool {
        &&& self.thread_count >= 1
        &&& self.t0 >= 1
    }
}

} // verus!
