use consensus::error::ConsensusError;
use consensus::selector::RandomSelector;
use consensus::slot::Slot;

fn seed() -> Vec<u8> {
    vec![0u8; 32]
}

#[test]
fn new_rejects_empty_roster() {
    assert!(matches!(
        RandomSelector::new(&seed(), 2, vec![]),
        Err(ConsensusError::ConfigError)
    ));
}

#[test]
fn new_rejects_zero_total_weight() {
    assert!(matches!(
        RandomSelector::new(&seed(), 2, vec![0, 0, 0]),
        Err(ConsensusError::ConfigError)
    ));
}

#[test]
fn new_rejects_weight_overflow() {
    assert!(matches!(
        RandomSelector::new(&seed(), 2, vec![u64::MAX, 1]),
        Err(ConsensusError::ConfigError)
    ));
}

#[test]
fn draw_is_deterministic() {
    let sel = RandomSelector::new(&seed(), 2, vec![1, 1, 1]).unwrap();
    for p in 0..50u64 {
        for t in 0..2u8 {
            let s = Slot::new(p, t);
            assert_eq!(sel.draw(s), sel.draw(s));
        }
    }
}

#[test]
fn equal_inputs_give_equal_selectors() {
    let a = RandomSelector::new(&seed(), 2, vec![1, 1, 1, 1]).unwrap();
    let b = RandomSelector::new(&seed(), 2, vec![1, 1, 1, 1]).unwrap();
    for p in 0..50u64 {
        let s = Slot::new(p, 1);
        assert_eq!(a.draw(s), b.draw(s));
    }
}

#[test]
fn draw_is_independent_of_query_order() {
    let sel = RandomSelector::new(&seed(), 2, vec![1, 1, 1]).unwrap();
    let s1 = Slot::new(4, 0);
    let s2 = Slot::new(5, 0);
    let forward = (sel.draw(s1), sel.draw(s2));
    let backward = (sel.draw(s2), sel.draw(s1));
    assert_eq!(forward.0, backward.1);
    assert_eq!(forward.1, backward.0);
}

#[test]
fn draw_stays_in_roster_range() {
    let sel = RandomSelector::new(&seed(), 4, vec![1, 1, 1, 1, 1]).unwrap();
    for p in 0..100u64 {
        for t in 0..4u8 {
            assert!(sel.draw(Slot::new(p, t)) < 5);
        }
    }
}

#[test]
fn zero_weight_node_is_never_drawn() {
    // Participant 1 has weight zero: only 0 and 2 may be drawn.
    let sel = RandomSelector::new(&seed(), 2, vec![3, 0, 2]).unwrap();
    for p in 0..200u64 {
        for t in 0..2u8 {
            let d = sel.draw(Slot::new(p, t));
            assert_ne!(d, 1);
        }
    }
}
