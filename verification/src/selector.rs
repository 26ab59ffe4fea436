use vstd::prelude::*;

use crate::error::ConsensusError;
use crate::slot::Slot;

verus! {

/// Deterministic weighted draw of a block producer for each slot.
///
/// The selector is built once from a seed and the participant weights,
/// and then answers `draw` queries for any past or future slot. A draw
/// is a pure function of the selector and the slot: it does not depend
/// on the order of queries, and two nodes built from the same inputs
/// agree on every slot.
pub struct RandomSelector {
    /// Digest of the seed bytes the selector was built from.
    pub seed_hash: u64,
    /// `cumulative_weights[i]` is the sum of the weights of the
    /// participants `0 ..= i`.
    pub cumulative_weights: Vec<u64>,
}

/// Sum of the first `n` participant weights.
pub open spec fn weight_prefix_sum(weights: Seq<u64>, n: int) -> int
    decreases n,
{
    if n <= 0 {
        0
    } else {
        weight_prefix_sum(weights, n - 1) + weights[n - 1]
    }
}

/// Digest of the seed bytes: a base-257 fold of the bytes modulo 2^64.
pub open spec fn seed_digest(seed: Seq<u8>) -> int
    decreases seed.len(),
{
    if seed.len() == 0 {
        0
    } else {
        (seed_digest(seed.drop_last()) * 257 + seed.last()) % 0x10000000000000000
    }
}

/// Pseudorandom value a slot is mapped to before the weighted pick.
pub open spec fn slot_hash(seed_hash: u64, s: Slot) -> int {
    ((s.period * 0x9E3779B97F4A7C15) % 0x10000000000000000 + (s.thread
        * 0xBF58476D1CE4E5B9) % 0x10000000000000000 + (seed_hash
        * 0x94D049BB133111EB) % 0x10000000000000000) % 0x10000000000000000
}

/// Smallest index from `i` on whose cumulative weight exceeds `target`;
/// the last index when none does.
pub open spec fn pick_index(cum: Seq<u64>, target: u64, i: int) -> int
    decreases cum.len() - i,
{
    if i < 0 || i >= cum.len() - 1 {
        cum.len() - 1
    } else if target < cum[i] {
        i
    } else {
        pick_index(cum, target, i + 1)
    }
}

/// Prefix sums of weights grow with the prefix length.
pub proof fn lemma_prefix_sum_mono(weights: Seq<u64>, a: int, b: int)
    requires
        0 <= a <= b,
    ensures
        weight_prefix_sum(weights, a) <= weight_prefix_sum(weights, b),
    decreases b,
{
    if b > a {
        lemma_prefix_sum_mono(weights, a, b - 1);
        if b - 1 < weights.len() {
            assert(weights[b - 1] >= 0);
        }
    }
}

impl RandomSelector {
    /// The participant set is non-empty and the cumulative weights are
    /// a non-decreasing sequence with a positive total.
    pub open spec fn wf(self) -> bool {
        &&& self.cumulative_weights@.len() >= 1
        &&& self.cumulative_weights@.len() <= u32::MAX
        &&& forall|i: int, j: int|
            0 <= i <= j < self.cumulative_weights@.len()
                ==> self.cumulative_weights@[i] <= self.cumulative_weights@[j]
        &&& self.cumulative_weights@.last() >= 1
    }

    /// Producer index drawn for a slot.
    pub open spec fn draw_spec(self, s: Slot) -> int {
        pick_index(
            self.cumulative_weights@,
            (slot_hash(self.seed_hash, s) % (self.cumulative_weights@.last() as int)) as u64,
            0,
        )
    }

    /// Builds the selector from the seed bytes and the participant
    /// weights. Fails when there is no participant, or when the weight
    /// total is zero or does not fit the weight counter.
    pub fn new(seed: &Vec<u8>, thread_count: u8, participant_weights: Vec<u64>) -> (r: Result<
        RandomSelector,
        ConsensusError,
    >)
        ensures
            match r {
                Ok(sel) => {
                    &&& sel.wf()
                    &&& sel.cumulative_weights@.len() == participant_weights@.len()
                    &&& sel.seed_hash == seed_digest(seed@)
                    &&& forall|i: int|
                        0 <= i < participant_weights@.len() ==> sel.cumulative_weights@[i]
                            == weight_prefix_sum(participant_weights@, i + 1)
                },
                Err(e) => {
                    &&& e == ConsensusError::ConfigError
                    &&& (participant_weights@.len() == 0 || participant_weights@.len() > u32::MAX
                        || weight_prefix_sum(
                        participant_weights@,
                        participant_weights@.len() as int,
                    ) == 0 || weight_prefix_sum(
                        participant_weights@,
                        participant_weights@.len() as int,
                    ) > u64::MAX)
                },
            },
    {
        let mut seed_hash: u64 = 0;
        let mut k: usize = 0;
        while k < seed.len()
            invariant
                k <= seed@.len(),
                seed_hash == seed_digest(seed@.take(k as int)),
            decreases seed@.len() - k,
        {
            let b = seed[k];
            let folded: u128 = ((seed_hash as u128) * 257 + (b as u128)) % 0x10000000000000000;
            proof {
                assert(seed@.take(k + 1).drop_last() =~= seed@.take(k as int));
                assert(seed@.take(k + 1).last() == seed@[k as int]);
            }
            seed_hash = folded as u64;
            k = k + 1;
        }
        proof {
            assert(seed@.take(seed@.len() as int) =~= seed@);
        }

        if participant_weights.len() == 0 || participant_weights.len() > u32::MAX as usize {
            return Err(ConsensusError::ConfigError);
        }
        let mut cumulative_weights: Vec<u64> = Vec::new();
        let mut acc: u64 = 0;
        let mut i: usize = 0;
        while i < participant_weights.len()
            invariant
                i <= participant_weights@.len(),
                cumulative_weights@.len() == i,
                acc == weight_prefix_sum(participant_weights@, i as int),
                forall|j: int|
                    0 <= j < i ==> cumulative_weights@[j] == weight_prefix_sum(
                        participant_weights@,
                        j + 1,
                    ),
            decreases participant_weights@.len() - i,
        {
            let w = participant_weights[i];
            acc = match acc.checked_add(w) {
                Some(v) => v,
                None => {
                    proof {
                        lemma_prefix_sum_mono(
                            participant_weights@,
                            i + 1,
                            participant_weights@.len() as int,
                        );
                    }
                    return Err(ConsensusError::ConfigError);
                },
            };
            cumulative_weights.push(acc);
            i = i + 1;
        }
        if acc == 0 {
            return Err(ConsensusError::ConfigError);
        }
        proof {
            lemma_prefix_sums_sorted(participant_weights@, cumulative_weights@);
        }
        Ok(RandomSelector { seed_hash, cumulative_weights })
    }

    /// Producer index for the given slot. The result is determined by
    /// the selector and the slot alone, so repeated draws of one slot
    /// agree, in whatever order slots are queried.
    pub fn draw(&self, s: Slot) -> (r: u32)
        requires
            self.wf(),
        ensures
            r as int == self.draw_spec(s),
            (r as int) < self.cumulative_weights@.len(),
    {
        let a: u128 = ((s.period as u128) * 0x9E3779B97F4A7C15) % 0x10000000000000000;
        let b: u128 = ((s.thread as u128) * 0xBF58476D1CE4E5B9) % 0x10000000000000000;
        let c: u128 = ((self.seed_hash as u128) * 0x94D049BB133111EB) % 0x10000000000000000;
        let h: u64 = ((a + b + c) % 0x10000000000000000) as u64;
        let total = self.cumulative_weights[self.cumulative_weights.len() - 1];
        let target: u64 = h % total;
        assert(h as int == slot_hash(self.seed_hash, s));
        let ghost cum = self.cumulative_weights@;
        let mut i: usize = 0;
        while i < self.cumulative_weights.len() - 1 && target >= self.cumulative_weights[i]
            invariant
                self.wf(),
                cum == self.cumulative_weights@,
                0 <= i < cum.len(),
                pick_index(cum, target, 0) == pick_index(cum, target, i as int),
            decreases cum.len() - i,
        {
            i = i + 1;
        }
        i as u32
    }
}

/// The sum of `n` unit weights is `n`.
pub proof fn lemma_prefix_sum_uniform(weights: Seq<u64>, n: int)
    requires
        0 <= n <= weights.len(),
        forall|j: int| 0 <= j < weights.len() ==> weights[j] == 1,
    ensures
        weight_prefix_sum(weights, n) == n,
    decreases n,
{
    if n > 0 {
        lemma_prefix_sum_uniform(weights, n - 1);
    }
}

/// Cumulative prefix sums of non-negative weights never decrease.
proof fn lemma_prefix_sums_sorted(weights: Seq<u64>, cum: Seq<u64>)
    requires
        cum.len() == weights.len(),
        forall|j: int| 0 <= j < cum.len() ==> cum[j] == weight_prefix_sum(weights, j + 1),
    ensures
        forall|i: int, j: int| 0 <= i <= j < cum.len() ==> cum[i] <= cum[j],
{
    assert forall|i: int, j: int| 0 <= i <= j < cum.len() implies cum[i] <= cum[j] by {
        lemma_prefix_sum_mono(weights, i + 1, j + 1);
    }
}

/// The picked index lies between the starting point and the end of the
/// cumulative weights; every index it passed over was at or under the
/// target, and a pick before the last index beat the target.
proof fn lemma_pick_index_props(cum: Seq<u64>, target: u64, i: int)
    requires
        0 <= i < cum.len(),
    ensures
        i <= pick_index(cum, target, i) < cum.len(),
        forall|j: int| i <= j < pick_index(cum, target, i) ==> cum[j] <= target,
        pick_index(cum, target, i) < cum.len() - 1 ==> target < cum[pick_index(cum, target, i)],
    decreases cum.len() - i,
{
    if i < cum.len() - 1 && target >= cum[i] {
        lemma_pick_index_props(cum, target, i + 1);
    }
}

/// The draw is weighted: a participant whose weight is zero owns an
/// empty span of the cumulative weights and is never drawn.
pub proof fn lemma_zero_weight_never_drawn(
    sel: RandomSelector,
    weights: Seq<u64>,
    s: Slot,
    i: int,
)
    requires
        sel.wf(),
        sel.cumulative_weights@.len() == weights.len(),
        forall|j: int|
            0 <= j < weights.len() ==> sel.cumulative_weights@[j] == weight_prefix_sum(
                weights,
                j + 1,
            ),
        0 <= i < weights.len(),
        weights[i] == 0,
    ensures
        sel.draw_spec(s) != i,
{
    let cum = sel.cumulative_weights@;
    let total = cum.last();
    let target = (slot_hash(sel.seed_hash, s) % (total as int)) as u64;
    vstd::arithmetic::div_mod::lemma_mod_bound(slot_hash(sel.seed_hash, s), total as int);
    lemma_pick_index_props(cum, target, 0);
    let r = pick_index(cum, target, 0);
    if r == i {
        assert(cum[i] == weight_prefix_sum(weights, i + 1));
        if i == 0 {
            assert(weight_prefix_sum(weights, 0) == 0);
            assert(cum[0] == weights[0]);
        } else {
            assert(cum[i] == cum[i - 1]);
        }
        if r < cum.len() - 1 {
            assert(target < cum[i]);
            assert(false);
        } else {
            assert(target < total);
            if cum.len() == 1 {
                assert(total == 0);
                assert(false);
            } else {
                assert(cum[r - 1] <= target);
                assert(false);
            }
        }
    }
}

/// Drawing equal slots yields equal producers: determinism of the draw.
pub proof fn lemma_draw_deterministic(sel: RandomSelector, s1: Slot, s2: Slot)
    requires
        s1 == s2,
    ensures
        sel.draw_spec(s1) == sel.draw_spec(s2),
{
}

} // verus!
