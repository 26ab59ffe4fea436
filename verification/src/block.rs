use vstd::prelude::*;

use crate::slot::Slot;

verus! {

/// Content hash of a block header.
pub type BlockId = u64;

/// Content hash of an operation.
pub type OperationId = u64;

/// Public key of a node, as the plain value the core compares and
/// forwards.
pub type PublicKey = u64;

/// Private key of a node; the core only carries it.
pub type PrivateKey = u64;

/// Ledger address.
pub type Address = u64;

/// An operation, reduced to what the core reads of it: its content
/// hash, the addresses it involves, and its compact byte serialisation.
/// Its ledger changes are judged by the ledger, not by the core.
#[derive(Clone, PartialEq, Eq, Debug)]
pub struct Operation {
    pub id: OperationId,
    pub involved_addresses: Vec<Address>,
    pub serialized: Vec<u8>,
}

/// Header of a block: the slot it fills, its creator, one parent per
/// thread, and the root digest of its operation payload.
#[derive(Clone, PartialEq, Eq, Debug)]
pub struct BlockHeader {
    pub slot: Slot,
    pub creator: PublicKey,
    pub parents: Vec<BlockId>,
    pub operation_merkle_root: u64,
}

/// A block: a header and the ordered operations it includes.
#[derive(Clone, PartialEq, Eq, Debug)]
pub struct Block {
    pub header: BlockHeader,
    pub operations: Vec<Operation>,
}

} // verus!
