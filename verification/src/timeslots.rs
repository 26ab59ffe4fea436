use vstd::prelude::*;

use crate::error::ConsensusError;
use crate::slot::Slot;

verus! {

/// Millisecond timestamp of a slot: the genesis timestamp plus one slot
/// duration per slot that precedes it in the global order.
pub open spec fn slot_timestamp(thread_count: u8, t0: u64, genesis_timestamp: u64, s: Slot) -> int {
    genesis_timestamp + s.index(thread_count) * t0
}

/// Timestamp at which the given slot starts; reports an overflow when the
/// timestamp does not fit the millisecond counter.
pub fn get_block_slot_timestamp(
    thread_count: u8,
    t0: u64,
    genesis_timestamp: u64,
    s: Slot,
) -> (r: Result<u64, ConsensusError>)
    requires
        thread_count >= 1,
        t0 >= 1,
    ensures
        match r {
            Ok(ts) => ts == slot_timestamp(thread_count, t0, genesis_timestamp, s),
            Err(e) => {
                &&& e == ConsensusError::SlotOverflowError
                &&& slot_timestamp(thread_count, t0, genesis_timestamp, s) > u64::MAX
            },
        },
{
    proof {
        assert((s.period as int) * (thread_count as int) + (s.thread as int) <= u64::MAX * 255
            + 255) by (nonlinear_arith)
            requires s.period <= u64::MAX, thread_count <= 255, s.thread <= 255;
    }
    let idx: u128 = (s.period as u128) * (thread_count as u128) + (s.thread as u128);
    if idx > u64::MAX as u128 {
        proof {
            assert(idx * t0 >= idx * 1) by (nonlinear_arith)
                requires t0 >= 1, idx >= 0;
        }
        return Err(ConsensusError::SlotOverflowError);
    }
    proof {
        assert(idx * t0 <= u64::MAX * u64::MAX) by (nonlinear_arith)
            requires idx <= u64::MAX, t0 <= u64::MAX, idx >= 0;
    }
    let scaled: u128 = idx * (t0 as u128);
    let ts: u128 = (genesis_timestamp as u128) + scaled;
    if ts > u64::MAX as u128 {
        Err(ConsensusError::SlotOverflowError)
    } else {
        Ok(ts as u64)
    }
}

/// Largest slot whose timestamp is at or before the compensated wall
/// clock, or `None` before the genesis timestamp. The clock compensation
/// is a signed millisecond offset added to the local wall clock.
pub fn get_current_latest_block_slot(
    thread_count: u8,
    t0: u64,
    genesis_timestamp: u64,
    now: u64,
    clock_compensation: i64,
) -> (r: Result<Option<Slot>, ConsensusError>)
    requires
        thread_count >= 1,
        t0 >= 1,
    ensures
        match r {
            Ok(None) => now + clock_compensation < genesis_timestamp,
            Ok(Some(s)) => {
                &&& now + clock_compensation >= genesis_timestamp
                &&& s.period == ((now + clock_compensation - genesis_timestamp) / (t0 as int)) / (
                thread_count as int)
                &&& s.thread == ((now + clock_compensation - genesis_timestamp) / (t0 as int)) % (
                thread_count as int)
                &&& s.wf(thread_count)
                &&& slot_timestamp(thread_count, t0, genesis_timestamp, s) <= now
                    + clock_compensation
                &&& now + clock_compensation < slot_timestamp(thread_count, t0, genesis_timestamp, s)
                    + t0
            },
            Err(e) => {
                &&& e == ConsensusError::SlotOverflowError
                &&& now + clock_compensation >= genesis_timestamp
                &&& ((now + clock_compensation - genesis_timestamp) / (t0 as int)) / (
                thread_count as int) > u64::MAX
            },
        },
{
    let adjusted: i128 = (now as i128) + (clock_compensation as i128);
    if adjusted < genesis_timestamp as i128 {
        return Ok(None);
    }
    let delta: u128 = (adjusted - genesis_timestamp as i128) as u128;
    let idx: u128 = delta / (t0 as u128);
    let period: u128 = idx / (thread_count as u128);
    let thread: u128 = idx % (thread_count as u128);
    if period > u64::MAX as u128 {
        return Err(ConsensusError::SlotOverflowError);
    }
    proof {
        vstd::arithmetic::div_mod::lemma_mod_bound(idx as int, thread_count as int);
    }
    let s = Slot { period: period as u64, thread: thread as u8 };
    proof {
        let d = delta as int;
        let q = idx as int;
        let p = period as int;
        let t = thread as int;
        let tc = thread_count as int;
        let dur = t0 as int;
        assert(q == d / dur && p == q / tc && t == q % tc);
        vstd::arithmetic::div_mod::lemma_fundamental_div_mod(d, dur);
        vstd::arithmetic::div_mod::lemma_fundamental_div_mod(q, tc);
        assert(q * dur <= d && d < (q + 1) * dur) by (nonlinear_arith)
            requires q == d / dur, dur >= 1, d >= 0,
        {
            vstd::arithmetic::div_mod::lemma_fundamental_div_mod(d, dur);
            vstd::arithmetic::div_mod::lemma_mod_bound(d, dur);
        }
        assert(s.period == p);
        assert(s.thread == t);
        assert(q == tc * p + t);
        assert(s.index(thread_count) == q);
        assert(s.index(thread_count) * dur == q * dur);
    }
    Ok(Some(s))
}

/// Local monotonic deadline of a logical timestamp: the timestamp with
/// the clock compensation taken back out; reports an overflow when the
/// result leaves the millisecond counter's range.
pub fn estimate_deadline(timestamp: u64, clock_compensation: i64) -> (r: Result<
    u64,
    ConsensusError,
>)
    ensures
        match r {
            Ok(d) => d == timestamp - clock_compensation,
            Err(e) => {
                &&& e == ConsensusError::TimeOverflowError
                &&& (timestamp - clock_compensation < 0 || timestamp - clock_compensation
                    > u64::MAX)
            },
        },
{
    let d: i128 = (timestamp as i128) - (clock_compensation as i128);
    if d < 0 || d > u64::MAX as i128 {
        Err(ConsensusError::TimeOverflowError)
    } else {
        Ok(d as u64)
    }
}

} // verus!
