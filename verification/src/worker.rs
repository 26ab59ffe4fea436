use vstd::prelude::*;

use crate::block::{Block, BlockId, PublicKey};
use crate::block_creation::{contains_u64, copy_u64s};
use crate::config::ConsensusConfig;
use crate::error::ConsensusError;
use crate::selector::{
    lemma_prefix_sum_uniform, seed_digest, RandomSelector,
};
use crate::slot::{lemma_index_max, lemma_lt_iff_index_lt, lemma_next_index, Slot};
use crate::timeslots::get_current_latest_block_slot;

verus! {

/// Events that are emitted by consensus. No event is defined yet; the
/// variant only reserves the type, and nothing constructs it.
#[derive(Clone, Copy, PartialEq, Eq, Structural, Debug)]
pub enum ConsensusEvent {
    Reserved,
}

/// Management commands the consensus worker accepts. No command is
/// defined yet; the variant only reserves the type, and a worker
/// ignores any it receives.
#[derive(Clone, Copy, PartialEq, Eq, Structural, Debug)]
pub enum ConsensusManagementCommand {
    Reserved,
}

/// Advance of the slot clock by one tick: the slot that just started
/// and whether the local node creates its block.
#[derive(Clone, Copy, PartialEq, Eq, Structural, Debug)]
pub struct SlotTickOutcome {
    /// The slot the tick entered.
    pub cur_slot: Slot,
    /// True when the local node is to create the block of `cur_slot`.
    pub create_block: bool,
}

/// Wishlist change to announce to the protocol: ids newly wanted and
/// ids no longer wanted.
#[derive(Clone, PartialEq, Eq, Debug)]
pub struct WishlistDelta {
    pub add: Vec<BlockId>,
    pub remove: Vec<BlockId>,
}

/// Seed the leader selector is built with: a constant zero seed, to be
/// replaced by a configured one.
pub open spec fn selector_seed() -> Seq<u8> {
    Seq::new(32, |i: int| 0u8)
}

/// One unit weight per node of the roster.
pub open spec fn uniform_weights(n: int) -> Seq<u64> {
    Seq::new(n as nat, |i: int| 1u64)
}

/// Periods of the latest final blocks, one per thread, in thread order.
pub open spec fn periods_of(latest: Seq<(BlockId, u64)>) -> Seq<u64> {
    latest.map_values(|p: (BlockId, u64)| p.1)
}

/// Decision state of the consensus worker: everything the worker owns
/// between two events of its loop. The embedding feeds it the slot
/// timer, command and protocol events, and performs the calls into the
/// block graph, pool, protocol and storage that its decisions name.
pub struct ConsensusWorker {
    /// Consensus configuration.
    pub cfg: ConsensusConfig,
    /// Genesis blocks were created with this public key.
    pub genesis_public_key: PublicKey,
    /// Selector used to draw the block producer of each slot.
    pub selector: RandomSelector,
    /// Previous slot.
    pub previous_slot: Option<Slot>,
    /// Next slot.
    pub next_slot: Slot,
    /// Blocks we want: the last wishlist sent to the protocol.
    pub wishlist: Vec<BlockId>,
    /// Latest final periods, as last pushed to the pool.
    pub latest_final_periods: Vec<u64>,
    /// Signed millisecond offset added to the local wall clock.
    pub clock_compensation: i64,
}

impl ConsensusWorker {
    /// Well-formedness of the worker state. In particular the slot
    /// clock invariant: the next slot is exactly the successor of the
    /// previous slot once a previous slot exists, and the genesis slot
    /// before that.
    pub open spec fn wf(self) -> bool {
        &&& self.cfg.wf()
        &&& self.cfg.nodes@.len() >= 1
        &&& (self.cfg.current_node_index as int) < self.cfg.nodes@.len()
        &&& self.selector.wf()
        &&& self.selector.cumulative_weights@.len() == self.cfg.nodes@.len()
        &&& self.next_slot.wf(self.cfg.thread_count)
        &&& match self.previous_slot {
            Some(p) => {
                &&& p.wf(self.cfg.thread_count)
                &&& !p.next_overflows(self.cfg.thread_count)
                &&& self.next_slot == p.next_spec(self.cfg.thread_count)
            },
            None => self.next_slot == (Slot { period: 0, thread: 0 }),
        }
        &&& self.wishlist@.no_duplicates()
    }

    /// Public key a selection query reports for a slot: the genesis key
    /// for every slot of the genesis period, else the key of the drawn
    /// node.
    pub open spec fn selection_key(self, s: Slot) -> PublicKey {
        if s.period == 0 {
            self.genesis_public_key
        } else {
            self.cfg.nodes@[self.selector.draw_spec(s)].0
        }
    }

    /// Builds the worker state: derives the selector from the constant
    /// seed and uniform weights, positions the slot clock from the
    /// compensated wall clock, and records the latest final periods the
    /// block graph reported. The genesis public key is derived from the
    /// genesis private key by the embedding's cryptography.
    pub fn new(
        cfg: ConsensusConfig,
        genesis_public_key: PublicKey,
        latest_final_blocks_periods: Vec<(BlockId, u64)>,
        now: u64,
        clock_compensation: i64,
    ) -> (r: Result<ConsensusWorker, ConsensusError>)
        requires
            cfg.wf(),
        ensures
            ({
                let n = cfg.nodes@.len() as int;
                let key_bad = n == 0 || cfg.current_node_index as int >= n;
                let adjusted = now + clock_compensation;
                let before_genesis = adjusted < cfg.genesis_timestamp;
                let idx = if before_genesis {
                    0
                } else {
                    (adjusted - cfg.genesis_timestamp) / (cfg.t0 as int)
                };
                let p = idx / (cfg.thread_count as int);
                let t = idx % (cfg.thread_count as int);
                let clock_overflow = !before_genesis && (p > u64::MAX || (p == u64::MAX && t
                    == cfg.thread_count - 1));
                match r {
                    Err(ConsensusError::KeyError) => key_bad,
                    Err(ConsensusError::ConfigError) => !key_bad && n > u32::MAX,
                    Err(ConsensusError::SlotOverflowError) => !key_bad && n <= u32::MAX
                        && clock_overflow,
                    Err(_) => false,
                    Ok(w) => {
                        &&& !key_bad
                        &&& n <= u32::MAX
                        &&& !clock_overflow
                        &&& w.wf()
                        &&& w.cfg == cfg
                        &&& w.genesis_public_key == genesis_public_key
                        &&& w.clock_compensation == clock_compensation
                        &&& w.wishlist@.len() == 0
                        &&& w.latest_final_periods@ == periods_of(latest_final_blocks_periods@)
                        &&& w.selector.seed_hash == seed_digest(selector_seed())
                        &&& w.selector.cumulative_weights@.len() == n
                        &&& forall|i: int|
                            0 <= i < n ==> w.selector.cumulative_weights@[i] == i + 1
                        &&& (before_genesis ==> w.previous_slot is None && w.next_slot == (Slot {
                            period: 0,
                            thread: 0,
                        }))
                        &&& (!before_genesis ==> w.previous_slot == Some(
                            Slot { period: p as u64, thread: t as u8 },
                        ) && w.next_slot == (Slot { period: p as u64, thread: t as u8 }).next_spec(
                            cfg.thread_count,
                        ))
                    },
                }
            }),
    {
        if cfg.nodes.len() == 0 || cfg.current_node_index as usize >= cfg.nodes.len() {
            return Err(ConsensusError::KeyError);
        }

        // Temporary selector inputs: constant zero seed, uniform weights.
        let mut seed: Vec<u8> = Vec::new();
        let mut i: usize = 0;
        while i < 32
            invariant
                i <= 32,
                seed@ =~= Seq::new(i as nat, |j: int| 0u8),
            decreases 32 - i,
        {
            seed.push(0u8);
            proof {
                assert(Seq::new((i + 1) as nat, |j: int| 0u8) =~= Seq::new(
                    i as nat,
                    |j: int| 0u8,
                ).push(0u8));
            }
            i = i + 1;
        }
        let n = cfg.nodes.len();
        let mut weights: Vec<u64> = Vec::new();
        let mut k: usize = 0;
        while k < n
            invariant
                k <= n,
                weights@ =~= Seq::new(k as nat, |j: int| 1u64),
            decreases n - k,
        {
            weights.push(1u64);
            proof {
                assert(Seq::new((k + 1) as nat, |j: int| 1u64) =~= Seq::new(
                    k as nat,
                    |j: int| 1u64,
                ).push(1u64));
            }
            k = k + 1;
        }
        proof {
            assert(seed@ =~= selector_seed());
            assert(weights@ =~= uniform_weights(n as int));
        }

        let selector = match RandomSelector::new(&seed, cfg.thread_count, weights) {
            Ok(sel) => sel,
            Err(_) => {
                proof {
                    lemma_prefix_sum_uniform(
                        uniform_weights(n as int),
                        n as int,
                    );
                }
                return Err(ConsensusError::ConfigError);
            },
        };
        proof {
            assert forall|j: int| 0 <= j < n implies selector.cumulative_weights@[j] == j + 1 by {
                lemma_prefix_sum_uniform(uniform_weights(n as int), j + 1);
            }
        }

        let previous_slot = match get_current_latest_block_slot(
            cfg.thread_count,
            cfg.t0,
            cfg.genesis_timestamp,
            now,
            clock_compensation,
        ) {
            Ok(s) => s,
            Err(e) => {
                return Err(e);
            },
        };
        let next_slot = match previous_slot {
            None => Slot { period: 0, thread: 0 },
            Some(p) => match p.get_next_slot(cfg.thread_count) {
                Ok(s) => s,
                Err(e) => {
                    return Err(e);
                },
            },
        };
        proof {
            if previous_slot is Some {
                lemma_next_index(previous_slot->Some_0, cfg.thread_count);
            }
        }

        // Record the periods of the latest final blocks, one per thread.
        let mut latest_final_periods: Vec<u64> = Vec::new();
        let mut j: usize = 0;
        while j < latest_final_blocks_periods.len()
            invariant
                j <= latest_final_blocks_periods@.len(),
                latest_final_periods@ =~= periods_of(latest_final_blocks_periods@.take(j as int)),
            decreases latest_final_blocks_periods@.len() - j,
        {
            latest_final_periods.push(latest_final_blocks_periods[j].1);
            proof {
                assert(periods_of(latest_final_blocks_periods@.take(j + 1)) =~= periods_of(
                    latest_final_blocks_periods@.take(j as int),
                ).push(latest_final_blocks_periods@[j as int].1));
            }
            j = j + 1;
        }
        proof {
            assert(latest_final_blocks_periods@.take(latest_final_blocks_periods@.len() as int)
                =~= latest_final_blocks_periods@);
        }

        Ok(
            ConsensusWorker {
                cfg,
                genesis_public_key,
                selector,
                previous_slot,
                next_slot,
                wishlist: Vec::new(),
                latest_final_periods,
                clock_compensation,
            },
        )
    }

    /// Advances the slot clock by one tick and decides block creation:
    /// the local node creates the block of the entered slot exactly
    /// when creation is enabled, the genesis period is over, and the
    /// draw of that slot elected the local node. On a period-counter
    /// overflow the state is left unchanged.
    pub fn advance_slot(&mut self) -> (r: Result<SlotTickOutcome, ConsensusError>)
        requires
            old(self).wf(),
        ensures
            match r {
                Ok(out) => {
                    &&& final(self).wf()
                    &&& out.cur_slot == old(self).next_slot
                    &&& final(self).previous_slot == Some(old(self).next_slot)
                    &&& final(self).next_slot == old(self).next_slot.next_spec(
                        old(self).cfg.thread_count,
                    )
                    &&& out.create_block == (!old(self).cfg.disable_block_creation
                        && final(self).next_slot.period > 0
                        && old(self).selector.draw_spec(out.cur_slot)
                        == old(self).cfg.current_node_index as int)
                    &&& final(self).cfg == old(self).cfg
                    &&& final(self).genesis_public_key == old(self).genesis_public_key
                    &&& final(self).selector == old(self).selector
                    &&& final(self).wishlist == old(self).wishlist
                    &&& final(self).latest_final_periods == old(self).latest_final_periods
                    &&& final(self).clock_compensation == old(self).clock_compensation
                },
                Err(e) => {
                    &&& e == ConsensusError::SlotOverflowError
                    &&& old(self).next_slot.next_overflows(old(self).cfg.thread_count)
                    &&& *final(self) == *old(self)
                },
            },
    {
        let cur_slot = self.next_slot;
        let next = match cur_slot.get_next_slot(self.cfg.thread_count) {
            Ok(s) => s,
            Err(e) => {
                return Err(e);
            },
        };
        proof {
            lemma_next_index(cur_slot, self.cfg.thread_count);
        }
        self.previous_slot = Some(cur_slot);
        self.next_slot = next;

        let block_creator = self.selector.draw(cur_slot);
        let create_block = !self.cfg.disable_block_creation && next.period > 0 && block_creator
            == self.cfg.current_node_index;
        Ok(SlotTickOutcome { cur_slot, create_block })
    }

    /// Producer keys of every slot in `[start, end)`, in slot order:
    /// the genesis key for the slots of the genesis period, else the
    /// key of the drawn node. Empty when `start` is not before `end`.
    pub fn get_selection_draws(&self, start: Slot, end: Slot) -> (r: Result<
        Vec<(Slot, PublicKey)>,
        ConsensusError,
    >)
        requires
            self.wf(),
            start.wf(self.cfg.thread_count),
            end.wf(self.cfg.thread_count),
        ensures
            match r {
                Ok(v) => {
                    &&& v@.len() == if start.index(self.cfg.thread_count) < end.index(
                        self.cfg.thread_count,
                    ) {
                        end.index(self.cfg.thread_count) - start.index(self.cfg.thread_count)
                    } else {
                        0
                    }
                    &&& forall|i: int|
                        0 <= i < v@.len() ==> {
                            &&& (#[trigger] v@[i]).0.wf(self.cfg.thread_count)
                            &&& v@[i].0.index(self.cfg.thread_count) == start.index(
                                self.cfg.thread_count,
                            ) + i
                            &&& v@[i].1 == self.selection_key(v@[i].0)
                        }
                    &&& forall|i: int, j: int|
                        0 <= i < j < v@.len() ==> (#[trigger] v@[i]).0.lt(#[trigger] v@[j].0)
                },
                Err(_) => false,
            },
    {
        let thread_count = self.cfg.thread_count;
        let mut res: Vec<(Slot, PublicKey)> = Vec::new();
        let mut cur = start;
        proof {
            lemma_lt_iff_index_lt(start, end, thread_count);
        }
        while cur.is_before(end)
            invariant
                self.wf(),
                thread_count == self.cfg.thread_count,
                start.wf(thread_count),
                end.wf(thread_count),
                cur.wf(thread_count),
                cur.index(thread_count) == start.index(thread_count) + res@.len(),
                (start.lt(end) && cur.index(thread_count) <= end.index(thread_count)) || (
                !start.lt(end) && cur == start),
                forall|i: int|
                    0 <= i < res@.len() ==> {
                        &&& (#[trigger] res@[i]).0.wf(thread_count)
                        &&& res@[i].0.index(thread_count) == start.index(thread_count) + i
                        &&& res@[i].1 == self.selection_key(res@[i].0)
                    },
            decreases end.index(thread_count) - cur.index(thread_count),
        {
            proof {
                lemma_lt_iff_index_lt(cur, end, thread_count);
            }
            let key: PublicKey = if cur.period == 0 {
                self.genesis_public_key
            } else {
                self.cfg.nodes[self.selector.draw(cur) as usize].0
            };
            res.push((cur, key));
            cur = match cur.get_next_slot(thread_count) {
                Ok(s) => s,
                Err(e) => {
                    proof {
                        lemma_index_max(end, thread_count);
                        assert(cur.index(thread_count) == u64::MAX * (thread_count as int) + (
                        thread_count - 1));
                        assert(false);
                    }
                    return Err(e);
                },
            };
            proof {
                lemma_next_index(res@.last().0, thread_count);
            }
        }
        proof {
            lemma_lt_iff_index_lt(cur, end, thread_count);
            assert forall|i: int, j: int|
                0 <= i < j < res@.len() implies (#[trigger] res@[i]).0.lt(
                #[trigger] res@[j].0,
            ) by {
                lemma_lt_iff_index_lt(res@[i].0, res@[j].0, thread_count);
            }
        }
        Ok(res)
    }

    /// Replaces the cached wishlist and reports the delta to announce
    /// to the protocol: exactly the ids newly wanted and the ids no
    /// longer wanted. `None`, and no announcement, exactly when the
    /// wishlist did not change; the cached wishlist always equals the
    /// last one computed.
    pub fn update_wishlist(&mut self, new_wishlist: Vec<BlockId>) -> (r: Option<WishlistDelta>)
        requires
            old(self).wf(),
            new_wishlist@.no_duplicates(),
        ensures
            final(self).wf(),
            final(self).wishlist@.to_set() == new_wishlist@.to_set(),
            final(self).cfg == old(self).cfg,
            final(self).genesis_public_key == old(self).genesis_public_key,
            final(self).selector == old(self).selector,
            final(self).previous_slot == old(self).previous_slot,
            final(self).next_slot == old(self).next_slot,
            final(self).latest_final_periods == old(self).latest_final_periods,
            final(self).clock_compensation == old(self).clock_compensation,
            match r {
                Some(d) => {
                    &&& d.add@.to_set() == new_wishlist@.to_set().difference(
                        old(self).wishlist@.to_set(),
                    )
                    &&& d.remove@.to_set() == old(self).wishlist@.to_set().difference(
                        new_wishlist@.to_set(),
                    )
                    &&& d.add@.no_duplicates()
                    &&& d.remove@.no_duplicates()
                    &&& d.add@.len() + d.remove@.len() >= 1
                },
                None => new_wishlist@.to_set() == old(self).wishlist@.to_set(),
            },
    {
        let add = vec_diff(&new_wishlist, &self.wishlist);
        let remove = vec_diff(&self.wishlist, &new_wishlist);
        if add.len() == 0 && remove.len() == 0 {
            proof {
                assert forall|x: BlockId|
                    new_wishlist@.to_set().contains(x) implies self.wishlist@.to_set().contains(
                    x,
                ) by {
                    if !self.wishlist@.to_set().contains(x) {
                        assert(add@.to_set().contains(x));
                        assert(add@.contains(x));
                    }
                }
                assert forall|x: BlockId|
                    self.wishlist@.to_set().contains(x) implies new_wishlist@.to_set().contains(
                    x,
                ) by {
                    if !new_wishlist@.to_set().contains(x) {
                        assert(remove@.to_set().contains(x));
                        assert(remove@.contains(x));
                    }
                }
                assert(new_wishlist@.to_set() =~= self.wishlist@.to_set());
            }
            None
        } else {
            self.wishlist = new_wishlist;
            Some(WishlistDelta { add, remove })
        }
    }

    /// Records the periods of the latest final blocks and returns the
    /// vector to push to the pool exactly when it differs from the one
    /// pushed before; `None`, and no push, when it is unchanged.
    pub fn update_latest_final_periods(
        &mut self,
        latest_final_blocks_periods: &Vec<(BlockId, u64)>,
    ) -> (r: Option<Vec<u64>>)
        requires
            old(self).wf(),
        ensures
            final(self).wf(),
            final(self).latest_final_periods@ == periods_of(latest_final_blocks_periods@),
            final(self).cfg == old(self).cfg,
            final(self).genesis_public_key == old(self).genesis_public_key,
            final(self).selector == old(self).selector,
            final(self).previous_slot == old(self).previous_slot,
            final(self).next_slot == old(self).next_slot,
            final(self).wishlist == old(self).wishlist,
            final(self).clock_compensation == old(self).clock_compensation,
            match r {
                Some(v) => {
                    &&& v@ == periods_of(latest_final_blocks_periods@)
                    &&& v@ != old(self).latest_final_periods@
                },
                None => periods_of(latest_final_blocks_periods@) == old(
                    self,
                ).latest_final_periods@,
            },
    {
        let mut periods: Vec<u64> = Vec::new();
        let mut j: usize = 0;
        while j < latest_final_blocks_periods.len()
            invariant
                j <= latest_final_blocks_periods@.len(),
                periods@ =~= periods_of(latest_final_blocks_periods@.take(j as int)),
            decreases latest_final_blocks_periods@.len() - j,
        {
            periods.push(latest_final_blocks_periods[j].1);
            proof {
                assert(periods_of(latest_final_blocks_periods@.take(j + 1)) =~= periods_of(
                    latest_final_blocks_periods@.take(j as int),
                ).push(latest_final_blocks_periods@[j as int].1));
            }
            j = j + 1;
        }
        proof {
            assert(latest_final_blocks_periods@.take(latest_final_blocks_periods@.len() as int)
                =~= latest_final_blocks_periods@);
        }
        if u64_vecs_equal(&periods, &self.latest_final_periods) {
            None
        } else {
            let report = copy_u64s(&periods);
            self.latest_final_periods = periods;
            Some(report)
        }
    }
}

/// In every reachable worker state with a previous slot, the previous
/// slot lies strictly before the next slot, which is exactly its
/// successor.
pub proof fn lemma_slot_progress(w: ConsensusWorker)
    requires
        w.wf(),
        w.previous_slot is Some,
    ensures
        w.previous_slot->Some_0.lt(w.next_slot),
        w.next_slot == w.previous_slot->Some_0.next_spec(w.cfg.thread_count),
{
    let p = w.previous_slot->Some_0;
    lemma_next_index(p, w.cfg.thread_count);
    lemma_lt_iff_index_lt(p, w.next_slot, w.cfg.thread_count);
}

/// How one requested block id is answered: the active block when the
/// block graph has one, else the storage's answer when a storage is
/// configured, else nothing.
pub fn resolve_block_query(
    active: Option<Block>,
    has_storage: bool,
    storage_block: Option<Block>,
) -> (r: Option<Block>)
    ensures
        r == (if active is Some {
            active
        } else if has_storage {
            storage_block
        } else {
            None::<Block>
        }),
{
    match active {
        Some(b) => Some(b),
        None => if has_storage {
            storage_block
        } else {
            None
        },
    }
}

/// Ids of `a` that are not in `b`, in the order of `a`.
fn vec_diff(a: &Vec<BlockId>, b: &Vec<BlockId>) -> (r: Vec<BlockId>)
    requires
        a@.no_duplicates(),
    ensures
        r@.to_set() == a@.to_set().difference(b@.to_set()),
        r@.no_duplicates(),
{
    let mut out: Vec<BlockId> = Vec::new();
    let mut i: usize = 0;
    while i < a.len()
        invariant
            i <= a@.len(),
            a@.no_duplicates(),
            out@.to_set() == a@.take(i as int).to_set().difference(b@.to_set()),
            out@.no_duplicates(),
        decreases a@.len() - i,
    {
        let x = a[i];
        proof {
            if a@.take(i as int).contains(x) {
                let j = choose|j: int| 0 <= j < i && a@.take(i as int)[j] == x;
                assert(a@[j] == a@[i as int]);
                assert(false);
            }
            Seq::lemma_push_to_set_commute(a@.take(i as int), x);
            assert(a@.take(i + 1) =~= a@.take(i as int).push(x));
        }
        if !contains_u64(b, x) {
            let ghost pre = out@;
            out.push(x);
            proof {
                Seq::lemma_push_to_set_commute(pre, x);
                assert(!pre.to_set().contains(x));
                assert(out@.to_set() =~= a@.take(i + 1).to_set().difference(b@.to_set()));
            }
        } else {
            proof {
                assert(out@.to_set() =~= a@.take(i + 1).to_set().difference(b@.to_set()));
            }
        }
        i = i + 1;
    }
    proof {
        assert(a@.take(a@.len() as int) =~= a@);
    }
    out
}

/// Element-wise equality of two period vectors.
fn u64_vecs_equal(a: &Vec<u64>, b: &Vec<u64>) -> (r: bool)
    ensures
        r == (a@ == b@),
{
    if a.len() != b.len() {
        return false;
    }
    let mut i: usize = 0;
    while i < a.len()
        invariant
            i <= a@.len(),
            a@.len() == b@.len(),
            forall|j: int| 0 <= j < i ==> a@[j] == b@[j],
        decreases a@.len() - i,
    {
        if a[i] != b[i] {
            return false;
        }
        i = i + 1;
    }
    proof {
        assert(a@ =~= b@);
    }
    true
}

} // verus!
