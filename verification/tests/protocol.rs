use a_memory_pool::arc_recycled::Parting;
use a_memory_pool::channel::Polled;
use a_memory_pool::memory_pool::may_grow;
use a_memory_pool::memory_pool::next_step;
use a_memory_pool::memory_pool::Step;
use a_memory_pool::ArcRecycled;
use std::sync::mpsc;
use std::sync::Arc;

#[test]
fn an_object_that_came_back_is_handed_out() {
    assert!(matches!(next_step(Polled::Message(Some(41u8)), 3), Step::Hand(41)));
    assert!(matches!(next_step(Polled::Message(Some(41u8)), 0), Step::Hand(41)));
}

#[test]
fn a_marker_is_forgotten_within_the_budget() {
    assert!(matches!(next_step(Polled::<u8>::Message(None), 1), Step::Forget));
    assert!(matches!(next_step(Polled::<u8>::Message(None), usize::MAX), Step::Forget));
    assert!(matches!(next_step(Polled::<u8>::Message(None), 0), Step::GiveUp));
}

#[test]
fn an_empty_channel_leaves_growth() {
    assert!(matches!(next_step(Polled::<u8>::Drained, 0), Step::Grow));
    assert!(matches!(next_step(Polled::<u8>::Drained, 5), Step::Grow));
    assert!(matches!(next_step(Polled::<u8>::Disconnected, 5), Step::Grow));
}

#[test]
fn growth_stops_at_the_limit() {
    assert!(may_grow(0, 1));
    assert!(may_grow(9, 10));
    assert!(!may_grow(10, 10));
    assert!(!may_grow(11, 10));
    assert!(!may_grow(0, 0));
    assert!(!may_grow(usize::MAX, usize::MAX));
}

#[test]
fn a_sole_reference_parts_with_a_reset_object() {
    let held = Some(Arc::new(vec![1u8, 2, 3]));
    match ArcRecycled::part(held) {
        Parting::GiveBack(object) => assert!(object.is_empty()),
        _ => panic!("a sole reference gives its object back"),
    }
}

#[test]
fn a_shared_reference_leaves_its_object_to_the_others() {
    let shared = Arc::new(vec![1u8, 2, 3]);
    let other = Arc::clone(&shared);
    assert!(matches!(ArcRecycled::part(Some(shared)), Parting::StillShared));
    assert_eq!(*other, vec![1u8, 2, 3]);
    assert_eq!(Arc::strong_count(&other), 1);
}

#[test]
fn the_last_reference_gives_back_what_recycle_leaves() {
    let mut buffer = Vec::with_capacity(32);
    buffer.extend_from_slice(&[1u8, 2, 3]);
    match ArcRecycled::part_with(Some(buffer)) {
        Parting::GiveBack(object) => {
            assert!(object.is_empty());
            assert_eq!(object.capacity(), 32);
        }
        _ => panic!("the last reference gives its object back"),
    }
}

#[test]
fn a_reference_among_others_gives_nothing_back() {
    assert!(matches!(ArcRecycled::<Vec<u8>>::part_with(None), Parting::StillShared));
}

#[test]
fn nothing_held_is_reported_lost() {
    assert!(matches!(ArcRecycled::<Vec<u8>>::part(None), Parting::Lost));
}

#[test]
fn teardown_sends_the_reset_object() {
    let (tx, rx) = mpsc::channel();
    let mut content = Some(Arc::new(vec![5u8; 4]));
    ArcRecycled::teardown(&mut content, &tx);
    assert!(content.is_none());
    assert_eq!(rx.try_recv().unwrap(), Some(Vec::<u8>::new()));
    assert!(rx.try_recv().is_err());
}

#[test]
fn teardown_of_a_shared_reference_sends_nothing() {
    let (tx, rx) = mpsc::channel();
    let shared = Arc::new(vec![5u8; 4]);
    let mut content = Some(Arc::clone(&shared));
    ArcRecycled::teardown(&mut content, &tx);
    assert!(content.is_none());
    assert!(rx.try_recv().is_err());
    assert_eq!(*shared, vec![5u8; 4]);
    assert_eq!(Arc::strong_count(&shared), 1);
}

#[test]
fn teardown_with_nothing_held_sends_a_marker() {
    let (tx, rx) = mpsc::channel::<Option<Vec<u8>>>();
    let mut content = None;
    ArcRecycled::teardown(&mut content, &tx);
    assert!(content.is_none());
    assert_eq!(rx.try_recv().unwrap(), None);
    assert!(rx.try_recv().is_err());
}

#[test]
fn teardown_without_a_pool_discards_the_object() {
    let (tx, rx) = mpsc::channel();
    drop(rx);
    let mut content = Some(Arc::new(vec![5u8; 4]));
    ArcRecycled::teardown(&mut content, &tx);
    assert!(content.is_none());
}

#[test]
fn each_parting_owes_its_message() {
    assert_eq!(Parting::GiveBack(7u8).settle(), Some(Some(7)));
    assert_eq!(Parting::<u8>::StillShared.settle(), None);
    assert_eq!(Parting::<u8>::Lost.settle(), Some(None));
}
