use consensus::block::Operation;
use consensus::block_creation::{involved_addresses, operation_ids, operations_payload, BlockFill};
use consensus::config::ConsensusConfig;
use consensus::error::ConsensusError;
use consensus::slot::Slot;
use consensus::worker::{resolve_block_query, ConsensusWorker};

fn test_config(current_node_index: u32) -> ConsensusConfig {
    ConsensusConfig {
        thread_count: 2,
        t0: 1000,
        genesis_timestamp: 0,
        nodes: vec![(100, 1000), (101, 1001), (102, 1002)],
        current_node_index,
        max_operations_per_block: 10,
        operation_batch_size: 1000,
        disable_block_creation: false,
        genesis_key: 999,
    }
}

fn op(id: u64, addrs: Vec<u64>, bytes: Vec<u8>) -> Operation {
    Operation { id, involved_addresses: addrs, serialized: bytes }
}

#[test]
fn new_positions_clock_mid_period() {
    // 1500 ms past genesis with 1000 ms slots on two threads: slot (0,1)
    // has begun, slot (1,0) is next.
    let w = ConsensusWorker::new(test_config(0), 42, vec![], 1500, 0).unwrap();
    assert_eq!(w.previous_slot, Some(Slot::new(0, 1)));
    assert_eq!(w.next_slot, Slot::new(1, 0));
}

#[test]
fn new_before_genesis_has_no_previous_slot() {
    let mut cfg = test_config(0);
    cfg.genesis_timestamp = 10_000;
    let w = ConsensusWorker::new(cfg, 42, vec![], 500, 0).unwrap();
    assert_eq!(w.previous_slot, None);
    assert_eq!(w.next_slot, Slot::new(0, 0));
}

#[test]
fn new_rejects_bad_local_key() {
    let mut cfg = test_config(3);
    assert!(matches!(
        ConsensusWorker::new(cfg.clone(), 42, vec![], 0, 0),
        Err(ConsensusError::KeyError)
    ));
    cfg.nodes = vec![];
    cfg.current_node_index = 0;
    assert!(matches!(
        ConsensusWorker::new(cfg, 42, vec![], 0, 0),
        Err(ConsensusError::KeyError)
    ));
}

#[test]
fn new_records_final_periods() {
    let w =
        ConsensusWorker::new(test_config(0), 42, vec![(7, 0), (8, 4)], 0, 0).unwrap();
    assert_eq!(w.latest_final_periods, vec![0, 4]);
}

#[test]
fn genesis_leader_skip() {
    // The clock stands before genesis: the first tick enters (0,0). Even
    // when the local node is elected, no block is created during the
    // genesis period.
    let mut cfg = test_config(0);
    cfg.genesis_timestamp = 10_000;
    let probe = ConsensusWorker::new(cfg.clone(), 42, vec![], 500, 0).unwrap();
    let elected = probe.selector.draw(Slot::new(0, 0));
    cfg.current_node_index = elected;
    let mut w = ConsensusWorker::new(cfg, 42, vec![], 500, 0).unwrap();
    let out = w.advance_slot().unwrap();
    assert_eq!(out.cur_slot, Slot::new(0, 0));
    assert!(!out.create_block);
    assert_eq!(w.previous_slot, Some(Slot::new(0, 0)));
    assert_eq!(w.next_slot, Slot::new(0, 1));
}

#[test]
fn elected_block_at_period_one() {
    // The tick entering (0,1) has next slot (1,0): the genesis period is
    // over and the elected node creates.
    let probe = ConsensusWorker::new(test_config(0), 42, vec![], 500, 0).unwrap();
    let elected = probe.selector.draw(Slot::new(0, 1));
    let mut cfg = test_config(elected);
    cfg.max_operations_per_block = 2;
    let mut w = ConsensusWorker::new(cfg, 42, vec![], 500, 0).unwrap();
    assert_eq!(w.next_slot, Slot::new(0, 1));
    let out = w.advance_slot().unwrap();
    assert_eq!(out.cur_slot, Slot::new(0, 1));
    assert!(out.create_block);

    // The pool offers two operations; the ledger accepts both.
    let op1 = op(1, vec![10], vec![0xaa, 0xbb]);
    let op2 = op(2, vec![11], vec![0xcc]);
    let mut fill = BlockFill::new(2);
    assert_eq!(fill.asked_count(), 2);
    fill.handle_batch(vec![op1.clone(), op2.clone()], vec![true, true]);
    assert!(fill.finished());
    assert_eq!(fill.included, vec![op1, op2]);
    assert_eq!(operation_ids(&fill.included), vec![1, 2]);
    // The merkle root is the hash of this payload: the concatenated
    // compact serialisations, in pool order.
    assert_eq!(operations_payload(&fill.included), vec![0xaa, 0xbb, 0xcc]);
}

#[test]
fn unelected_node_does_not_create() {
    let probe = ConsensusWorker::new(test_config(0), 42, vec![], 500, 0).unwrap();
    let elected = probe.selector.draw(Slot::new(0, 1));
    let other = (elected + 1) % 3;
    let mut w = ConsensusWorker::new(test_config(other), 42, vec![], 500, 0).unwrap();
    let out = w.advance_slot().unwrap();
    assert_eq!(out.cur_slot, Slot::new(0, 1));
    assert!(!out.create_block);
}

#[test]
fn disabled_creation_never_creates() {
    let probe = ConsensusWorker::new(test_config(0), 42, vec![], 500, 0).unwrap();
    let elected = probe.selector.draw(Slot::new(0, 1));
    let mut cfg = test_config(elected);
    cfg.disable_block_creation = true;
    let mut w = ConsensusWorker::new(cfg, 42, vec![], 500, 0).unwrap();
    let out = w.advance_slot().unwrap();
    assert!(!out.create_block);
}

#[test]
fn rejection_then_exhaustion() {
    // Three candidates, the second is turned down by the ledger: the
    // included list keeps pool order, the rejected id joins every later
    // exclude set, and an under-filled second batch ends the fill.
    let op1 = op(1, vec![], vec![1]);
    let op2 = op(2, vec![], vec![2]);
    let op3 = op(3, vec![], vec![3]);
    let mut fill = BlockFill::new(3);
    assert_eq!(fill.asked_count(), 3);
    fill.handle_batch(vec![op1.clone(), op2, op3.clone()], vec![true, false, true]);
    assert!(!fill.finished());
    assert_eq!(fill.included, vec![op1, op3]);
    assert_eq!(fill.rejected, vec![2]);
    let exclude = fill.exclude_ids();
    assert_eq!(exclude.len(), 3);
    assert!(exclude.contains(&1) && exclude.contains(&2) && exclude.contains(&3));
    assert_eq!(fill.asked_count(), 1);
    fill.handle_batch(vec![], vec![]);
    assert!(fill.finished());
    assert_eq!(fill.included.len(), 2);
}

#[test]
fn involved_addresses_union_with_fee_target() {
    let ops = vec![op(1, vec![10, 11], vec![]), op(2, vec![11, 12], vec![])];
    let mut addrs = involved_addresses(&ops, 99);
    addrs.sort();
    assert_eq!(addrs, vec![10, 11, 12, 99]);
    // No candidates: no address is involved, not even the fee target.
    assert_eq!(involved_addresses(&vec![], 99), Vec::<u64>::new());
}

#[test]
fn get_blocks_fallback() {
    // Id A is active in the graph, id B only in storage: A is answered
    // from the graph, B from the one storage read.
    let block_a = consensus::block::Block {
        header: consensus::block::BlockHeader {
            slot: Slot::new(1, 0),
            creator: 100,
            parents: vec![5, 6],
            operation_merkle_root: 0,
        },
        operations: vec![],
    };
    let block_b = consensus::block::Block {
        header: consensus::block::BlockHeader {
            slot: Slot::new(1, 1),
            creator: 101,
            parents: vec![5, 6],
            operation_merkle_root: 0,
        },
        operations: vec![],
    };
    assert_eq!(
        resolve_block_query(Some(block_a.clone()), true, None),
        Some(block_a)
    );
    assert_eq!(
        resolve_block_query(None, true, Some(block_b.clone())),
        Some(block_b)
    );
    assert_eq!(resolve_block_query(None, true, None), None);
    assert_eq!(resolve_block_query(None, false, None), None);
}

#[test]
fn wishlist_delta_is_symmetric_difference() {
    let mut w = ConsensusWorker::new(test_config(0), 42, vec![], 0, 0).unwrap();
    // First wishlist: everything is new.
    let d = w.update_wishlist(vec![7, 8]).unwrap();
    assert_eq!(d.add, vec![7, 8]);
    assert_eq!(d.remove, Vec::<u64>::new());
    assert_eq!(w.wishlist, vec![7, 8]);
    // {X,Y} -> {Y,Z}: add {Z}, remove {X}.
    let d = w.update_wishlist(vec![8, 9]).unwrap();
    assert_eq!(d.add, vec![9]);
    assert_eq!(d.remove, vec![7]);
    assert_eq!(w.wishlist, vec![8, 9]);
    // Unchanged set: nothing is sent.
    assert_eq!(w.update_wishlist(vec![9, 8]), None);
}

#[test]
fn final_periods_pushed_only_when_changed() {
    let mut w =
        ConsensusWorker::new(test_config(0), 42, vec![(7, 0), (8, 0)], 0, 0).unwrap();
    assert_eq!(w.update_latest_final_periods(&vec![(7, 0), (8, 0)]), None);
    assert_eq!(
        w.update_latest_final_periods(&vec![(9, 1), (8, 0)]),
        Some(vec![1, 0])
    );
    assert_eq!(w.latest_final_periods, vec![1, 0]);
    assert_eq!(w.update_latest_final_periods(&vec![(9, 1), (8, 0)]), None);
}

#[test]
fn selection_draws_across_genesis_boundary() {
    // [(0,0), (1,1)): period-0 slots carry the genesis key regardless of
    // the draw; the (1,0) entry carries the drawn node's public key.
    let w = ConsensusWorker::new(test_config(0), 42, vec![], 0, 0).unwrap();
    let draws = w
        .get_selection_draws(Slot::new(0, 0), Slot::new(1, 1))
        .unwrap();
    assert_eq!(draws.len(), 3);
    assert_eq!(draws[0], (Slot::new(0, 0), 42));
    assert_eq!(draws[1], (Slot::new(0, 1), 42));
    let elected = w.selector.draw(Slot::new(1, 0));
    assert_eq!(draws[2], (Slot::new(1, 0), w.cfg.nodes[elected as usize].0));
}

#[test]
fn selection_draws_count_and_order() {
    let w = ConsensusWorker::new(test_config(0), 42, vec![], 0, 0).unwrap();
    let start = Slot::new(2, 1);
    let end = Slot::new(5, 0);
    let draws = w.get_selection_draws(start, end).unwrap();
    // end.index - start.index entries, strictly increasing slots.
    assert_eq!(draws.len(), 5);
    assert_eq!(draws[0].0, start);
    for pair in draws.windows(2) {
        assert!(pair[0].0.is_before(pair[1].0));
    }
    // An empty range yields no entry.
    assert_eq!(w.get_selection_draws(end, start).unwrap(), Vec::new());
    assert_eq!(w.get_selection_draws(start, start).unwrap(), Vec::new());
}

#[test]
fn advance_slot_reports_period_overflow() {
    let mut w = ConsensusWorker::new(test_config(0), 42, vec![], 0, 0).unwrap();
    w.previous_slot = Some(Slot::new(u64::MAX, 0));
    w.next_slot = Slot::new(u64::MAX, 1);
    let before = w.next_slot;
    assert_eq!(w.advance_slot(), Err(ConsensusError::SlotOverflowError));
    assert_eq!(w.next_slot, before);
}
