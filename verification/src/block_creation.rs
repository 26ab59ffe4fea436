use vstd::prelude::*;

use crate::block::{Address, Operation, OperationId};

verus! {

/// Ids of a sequence of operations, in order.
pub open spec fn ops_ids(ops: Seq<Operation>) -> Seq<OperationId> {
    ops.map_values(|op: Operation| op.id)
}

/// Candidates kept by the ledger's verdicts, in candidate order.
pub open spec fn accepted_ops(candidates: Seq<Operation>, verdicts: Seq<bool>) -> Seq<Operation>
    decreases candidates.len(),
{
    if candidates.len() == 0 || verdicts.len() == 0 {
        Seq::empty()
    } else {
        let rest = accepted_ops(candidates.drop_last(), verdicts.drop_last());
        if verdicts.last() {
            rest.push(candidates.last())
        } else {
            rest
        }
    }
}

/// Ids of the candidates turned down by the ledger, in candidate order.
pub open spec fn rejected_ids(candidates: Seq<Operation>, verdicts: Seq<bool>) -> Seq<OperationId>
    decreases candidates.len(),
{
    if candidates.len() == 0 || verdicts.len() == 0 {
        Seq::empty()
    } else {
        let rest = rejected_ids(candidates.drop_last(), verdicts.drop_last());
        if verdicts.last() {
            rest
        } else {
            rest.push(candidates.last().id)
        }
    }
}

/// No more candidates are kept than were offered.
pub proof fn lemma_accepted_ops_len(candidates: Seq<Operation>, verdicts: Seq<bool>)
    ensures
        accepted_ops(candidates, verdicts).len() <= candidates.len(),
    decreases candidates.len(),
{
    if candidates.len() != 0 && verdicts.len() != 0 {
        lemma_accepted_ops_len(candidates.drop_last(), verdicts.drop_last());
    }
}

/// Byte payload whose content hash is the operation merkle root of a
/// created block: the concatenation of the compact serialisations of
/// the included operations, in inclusion order.
pub open spec fn ops_payload(ops: Seq<Operation>) -> Seq<u8>
    decreases ops.len(),
{
    if ops.len() == 0 {
        Seq::empty()
    } else {
        ops_payload(ops.drop_last()) + ops.last().serialized@
    }
}

/// Addresses involved by any of the candidate operations, the fee
/// target counted as involved by each of them.
pub open spec fn involved_addresses_spec(ops: Seq<Operation>, fee_target: Address) -> Set<Address>
    decreases ops.len(),
{
    if ops.len() == 0 {
        Set::empty()
    } else {
        involved_addresses_spec(ops.drop_last(), fee_target).union(
            ops.last().involved_addresses@.to_set(),
        ).insert(fee_target)
    }
}

/// Whether a value stands in a vector of ids or addresses.
pub fn contains_u64(v: &Vec<u64>, x: u64) -> (r: bool)
    ensures
        r == v@.contains(x),
{
    let mut i: usize = 0;
    while i < v.len()
        invariant
            i <= v@.len(),
            forall|j: int| 0 <= j < i ==> v@[j] != x,
        decreases v@.len() - i,
    {
        if v[i] == x {
            return true;
        }
        i = i + 1;
    }
    false
}

/// Copy of a vector of ids or addresses.
pub fn copy_u64s(v: &Vec<u64>) -> (r: Vec<u64>)
    ensures
        r@ == v@,
{
    let mut out: Vec<u64> = Vec::new();
    let mut i: usize = 0;
    while i < v.len()
        invariant
            i <= v@.len(),
            out@ =~= v@.take(i as int),
        decreases v@.len() - i,
    {
        out.push(v[i]);
        i = i + 1;
    }
    proof {
        assert(v@.take(v@.len() as int) =~= v@);
    }
    out
}

/// Bookkeeping of one slot's iterative block fill: operations already
/// included against the monotonically-merged ledger snapshot, ids
/// rejected by that snapshot in this slot, and whether the pool has run
/// out of candidates. A fresh fill starts every creation slot, so a
/// rejection never outlives its slot.
pub struct BlockFill {
    /// Cap on the number of included operations.
    pub max_operations: u32,
    /// Operations included so far, in pool order.
    pub included: Vec<Operation>,
    /// Ids the ledger rejected in this slot; sticky within the slot.
    pub rejected: Vec<OperationId>,
    /// True once the pool returned fewer candidates than asked.
    pub exhausted: bool,
}

impl BlockFill {
    /// The included operations never exceed the cap.
    pub open spec fn wf(self) -> bool {
        self.included@.len() <= self.max_operations
    }

    /// How many operations the fill still wants.
    pub open spec fn remaining_spec(self) -> int {
        self.max_operations - self.included@.len()
    }

    /// The fill stops once the cap is reached or the pool is exhausted.
    pub open spec fn finished_spec(self) -> bool {
        self.exhausted || self.included@.len() >= self.max_operations
    }

    /// Fresh fill for one creation slot: nothing included, nothing
    /// rejected, pool not exhausted.
    pub fn new(max_operations: u32) -> (f: BlockFill)
        ensures
            f.max_operations == max_operations,
            f.included@ =~= Seq::<Operation>::empty(),
            f.rejected@ =~= Seq::<OperationId>::empty(),
            !f.exhausted,
            f.wf(),
    {
        BlockFill { max_operations, included: Vec::new(), rejected: Vec::new(), exhausted: false }
    }

    pub fn finished(&self) -> (r: bool)
        ensures
            r == self.finished_spec(),
    {
        self.exhausted || self.included.len() >= self.max_operations as usize
    }

    /// Number of operations to ask the pool for in the next batch.
    pub fn asked_count(&self) -> (r: u32)
        requires
            self.wf(),
            !self.finished_spec(),
        ensures
            r == self.remaining_spec(),
            r >= 1,
    {
        self.max_operations - self.included.len() as u32
    }

    /// Ids to exclude from the next pool batch: every id rejected in
    /// this slot, then the ids of every operation already included.
    pub fn exclude_ids(&self) -> (r: Vec<OperationId>)
        ensures
            r@ == self.rejected@ + ops_ids(self.included@),
    {
        let mut out = copy_u64s(&self.rejected);
        let mut i: usize = 0;
        while i < self.included.len()
            invariant
                i <= self.included@.len(),
                out@ =~= self.rejected@ + ops_ids(self.included@.take(i as int)),
            decreases self.included@.len() - i,
        {
            out.push(self.included[i].id);
            proof {
                assert(ops_ids(self.included@.take(i + 1)) =~= ops_ids(
                    self.included@.take(i as int),
                ).push(self.included@[i as int].id));
            }
            i = i + 1;
        }
        proof {
            assert(self.included@.take(self.included@.len() as int) =~= self.included@);
        }
        out
    }

    /// Takes one pool batch and the ledger's verdict on each candidate,
    /// in pool order: a candidate the snapshot accepted is included, the
    /// id of one it turned down joins the rejected set, and the fill is
    /// exhausted when the pool returned fewer candidates than asked.
    pub fn handle_batch(&mut self, candidates: Vec<Operation>, verdicts: Vec<bool>)
        requires
            old(self).wf(),
            !old(self).finished_spec(),
            verdicts@.len() == candidates@.len(),
            candidates@.len() <= old(self).remaining_spec(),
        ensures
            final(self).max_operations == old(self).max_operations,
            final(self).included@ == old(self).included@ + accepted_ops(candidates@, verdicts@),
            final(self).rejected@ == old(self).rejected@ + rejected_ids(candidates@, verdicts@),
            final(self).exhausted == (candidates@.len() < old(self).remaining_spec()),
            final(self).wf(),
    {
        let ghost orig_candidates = candidates@;
        let ghost orig_included = self.included@;
        let ghost orig_rejected = self.rejected@;
        let asked = self.asked_count();
        let batch_len = candidates.len();
        let mut candidates = candidates;
        let mut j: usize = 0;
        while j < batch_len
            invariant
                j <= batch_len,
                batch_len == orig_candidates.len(),
                verdicts@.len() == orig_candidates.len(),
                candidates@ =~= orig_candidates.skip(j as int),
                self.included@ =~= orig_included + accepted_ops(
                    orig_candidates.take(j as int),
                    verdicts@.take(j as int),
                ),
                self.rejected@ =~= orig_rejected + rejected_ids(
                    orig_candidates.take(j as int),
                    verdicts@.take(j as int),
                ),
                self.max_operations == old(self).max_operations,
                self.exhausted == old(self).exhausted,
                self.included@.len() <= orig_included.len() + j,
                orig_included.len() + orig_candidates.len() <= self.max_operations,
            decreases batch_len - j,
        {
            let op = candidates.remove(0);
            proof {
                assert(op == orig_candidates[j as int]);
                assert(orig_candidates.skip(j as int).remove(0) =~= orig_candidates.skip(j + 1));
                assert(orig_candidates.take(j + 1).drop_last() =~= orig_candidates.take(j as int));
                assert(verdicts@.take(j + 1).drop_last() =~= verdicts@.take(j as int));
                lemma_accepted_ops_len(orig_candidates.take(j as int), verdicts@.take(j as int));
            }
            if verdicts[j] {
                self.included.push(op);
            } else {
                self.rejected.push(op.id);
            }
            j = j + 1;
        }
        proof {
            assert(orig_candidates.take(batch_len as int) =~= orig_candidates);
            assert(verdicts@.take(batch_len as int) =~= verdicts@);
            lemma_accepted_ops_len(orig_candidates, verdicts@);
        }
        if batch_len < asked as usize {
            self.exhausted = true;
        }
    }
}

/// Ids of the given operations, in order.
pub fn operation_ids(ops: &Vec<Operation>) -> (r: Vec<OperationId>)
    ensures
        r@ == ops_ids(ops@),
{
    let mut out: Vec<OperationId> = Vec::new();
    let mut i: usize = 0;
    while i < ops.len()
        invariant
            i <= ops@.len(),
            out@ =~= ops_ids(ops@.take(i as int)),
        decreases ops@.len() - i,
    {
        out.push(ops[i].id);
        proof {
            assert(ops_ids(ops@.take(i + 1)) =~= ops_ids(ops@.take(i as int)).push(
                ops@[i as int].id,
            ));
        }
        i = i + 1;
    }
    proof {
        assert(ops@.take(ops@.len() as int) =~= ops@);
    }
    out
}

/// Concatenation of the compact serialisations of the operations; its
/// content hash is the operation merkle root of the created block.
pub fn operations_payload(ops: &Vec<Operation>) -> (r: Vec<u8>)
    ensures
        r@ == ops_payload(ops@),
{
    let mut out: Vec<u8> = Vec::new();
    let mut i: usize = 0;
    while i < ops.len()
        invariant
            i <= ops@.len(),
            out@ =~= ops_payload(ops@.take(i as int)),
        decreases ops@.len() - i,
    {
        let mut k: usize = 0;
        let n = ops[i].serialized.len();
        while k < n
            invariant
                i < ops@.len(),
                k <= n,
                n == ops@[i as int].serialized@.len(),
                out@ =~= ops_payload(ops@.take(i as int)) + ops@[i as int].serialized@.take(
                    k as int,
                ),
            decreases n - k,
        {
            out.push(ops[i].serialized[k]);
            proof {
                assert(ops@[i as int].serialized@.take(k + 1) =~= ops@[i as int].serialized@.take(
                    k as int,
                ).push(ops@[i as int].serialized@[k as int]));
            }
            k = k + 1;
        }
        proof {
            assert(ops@[i as int].serialized@.take(ops@[i as int].serialized@.len() as int)
                =~= ops@[i as int].serialized@);
            assert(ops@.take(i + 1).drop_last() =~= ops@.take(i as int));
            assert(ops@.take(i + 1).last() == ops@[i as int]);
        }
        i = i + 1;
    }
    proof {
        assert(ops@.take(ops@.len() as int) =~= ops@);
    }
    out
}

/// Addresses involved by any of the candidate operations, without
/// repetition; the fee target is involved by every candidate. The
/// ledger snapshot is widened to these addresses before the verdicts.
pub fn involved_addresses(candidates: &Vec<Operation>, fee_target: Address) -> (r: Vec<Address>)
    ensures
        r@.to_set() == involved_addresses_spec(candidates@, fee_target),
        r@.no_duplicates(),
{
    let mut out: Vec<Address> = Vec::new();
    let mut i: usize = 0;
    while i < candidates.len()
        invariant
            i <= candidates@.len(),
            out@.to_set() == involved_addresses_spec(candidates@.take(i as int), fee_target),
            out@.no_duplicates(),
        decreases candidates@.len() - i,
    {
        let mut k: usize = 0;
        let n = candidates[i].involved_addresses.len();
        while k < n
            invariant
                i < candidates@.len(),
                k <= n,
                n == candidates@[i as int].involved_addresses@.len(),
                out@.to_set() == involved_addresses_spec(
                    candidates@.take(i as int),
                    fee_target,
                ).union(candidates@[i as int].involved_addresses@.take(k as int).to_set()),
                out@.no_duplicates(),
            decreases n - k,
        {
            let a = candidates[i].involved_addresses[k];
            let ghost pre = out@;
            if !contains_u64(&out, a) {
                out.push(a);
            }
            proof {
                Seq::lemma_push_to_set_commute(pre, a);
                assert(out@.to_set() =~= pre.to_set().insert(a));
                let taken = candidates@[i as int].involved_addresses@.take(k as int);
                Seq::lemma_push_to_set_commute(taken, a);
                assert(candidates@[i as int].involved_addresses@.take(k + 1) =~= taken.push(a));
                assert(out@.to_set() =~= involved_addresses_spec(
                    candidates@.take(i as int),
                    fee_target,
                ).union(candidates@[i as int].involved_addresses@.take(k + 1).to_set()));
            }
            k = k + 1;
        }
        let ghost pre_fee = out@;
        if !contains_u64(&out, fee_target) {
            out.push(fee_target);
        }
        proof {
            Seq::lemma_push_to_set_commute(pre_fee, fee_target);
            assert(out@.to_set() =~= pre_fee.to_set().insert(fee_target));
            assert(candidates@[i as int].involved_addresses@.take(n as int)
                =~= candidates@[i as int].involved_addresses@);
            assert(candidates@.take(i + 1).drop_last() =~= candidates@.take(i as int));
            assert(candidates@.take(i + 1).last() == candidates@[i as int]);
            assert(out@.to_set() =~= involved_addresses_spec(candidates@.take(i + 1), fee_target));
        }
        i = i + 1;
    }
    proof {
        assert(candidates@.take(candidates@.len() as int) =~= candidates@);
    }
    out
}

} // verus!
