use lib::vision::errors::VisionError;
use lib::vision::index_op::{compile_sampler_window, offset_permutation, IndexOp};
use lib::vision::runtime::{keep_batch, next_action, validate_worker_capacity, LoaderAction, PrefetchCoordinator};

#[test]
fn reordered_worker_completion_preserves_sampler_order() {
    let mut coordinator: PrefetchCoordinator<u32> = PrefetchCoordinator::new(2);
    let first = coordinator.submit(3, 3).unwrap();
    let second = coordinator.submit(2, 2).unwrap();
    assert_eq!((first, second), (0, 1));
    coordinator.record(second, 1, 21).unwrap();
    coordinator.record(second, 0, 20).unwrap();
    assert_eq!(coordinator.deliver_ready().unwrap(), None);
    coordinator.record(first, 2, 12).unwrap();
    coordinator.record(first, 0, 10).unwrap();
    assert_eq!(coordinator.deliver_ready().unwrap(), None);
    coordinator.record(first, 1, 11).unwrap();
    assert_eq!(coordinator.deliver_ready().unwrap(), Some(vec![10, 11, 12]));
    assert_eq!(coordinator.deliver_ready().unwrap(), Some(vec![20, 21]));
    assert_eq!(coordinator.deliver_ready().unwrap(), None);
    assert_eq!(coordinator.in_flight(), 0);
}

#[test]
fn duplicate_and_unknown_results_are_rejected() {
    let mut coordinator: PrefetchCoordinator<u8> = PrefetchCoordinator::new(1);
    let id = coordinator.submit(1, 1).unwrap();
    coordinator.record(id, 0, 1).unwrap();
    assert!(coordinator.record(id, 0, 2).is_err());
    assert!(coordinator.record(id, 5, 2).is_err());
    assert!(coordinator.record(id + 7, 0, 2).is_err());
    assert!(coordinator.submit(2, 1).is_err());
}

#[test]
fn workers_preserve_skip_take_and_drop_last() {
    assert!(keep_batch(4, 4, true));
    assert!(!keep_batch(3, 4, true));
    assert!(keep_batch(3, 4, false));
}

#[test]
fn worker_queue_capacity_overflow_is_rejected() {
    assert!(validate_worker_capacity(usize::MAX, 2).is_err());
    assert!(validate_worker_capacity(4, 2).is_ok());
}

#[test]
fn loader_tops_up_the_window_then_delivers_in_order_and_finishes() {
    let mut coordinator: PrefetchCoordinator<u8> = PrefetchCoordinator::new(2);
    assert_eq!(next_action(&coordinator, false, false), LoaderAction::Submit);
    let first = coordinator.submit(1, 1).unwrap();
    assert_eq!(next_action(&coordinator, false, false), LoaderAction::Submit);
    let second = coordinator.submit(1, 1).unwrap();
    // The window is full: no further submission, wait for a worker.
    assert_eq!(coordinator.in_flight(), 2);
    assert_eq!(next_action(&coordinator, false, false), LoaderAction::Wait);
    coordinator.record(first, 0, 7).unwrap();
    assert_eq!(next_action(&coordinator, false, true), LoaderAction::Deliver);
    assert_eq!(coordinator.deliver_ready().unwrap(), Some(vec![7]));
    // Room again, and the sampler is exhausted: close.
    assert_eq!(next_action(&coordinator, true, false), LoaderAction::Close);
    coordinator.close();
    assert_eq!(next_action(&coordinator, true, false), LoaderAction::Wait);
    coordinator.record(second, 0, 8).unwrap();
    assert_eq!(next_action(&coordinator, true, true), LoaderAction::Deliver);
    assert_eq!(coordinator.deliver_ready().unwrap(), Some(vec![8]));
    assert_eq!(next_action(&coordinator, true, false), LoaderAction::Finish);
    assert!(coordinator.in_flight() <= coordinator.max_in_flight());
}

#[test]
fn rejected_results_name_the_batch_and_slot() {
    let mut coordinator: PrefetchCoordinator<u8> = PrefetchCoordinator::new(2);
    let id = coordinator.submit(2, 2).unwrap();
    coordinator.record(id, 0, 1).unwrap();
    let message = |r: Result<(), VisionError>| match r {
        Err(VisionError::Worker(m)) => m,
        other => panic!("unexpected outcome: {:?}", other),
    };
    assert_eq!(message(coordinator.record(id, 0, 2)), format!("duplicate result for batch {id} position 0"));
    assert_eq!(message(coordinator.record(id, 5, 2)), format!("invalid result position 5 for batch {id}"));
    assert_eq!(message(coordinator.record(u64::MAX, 0, 2)), format!("result for unknown batch {}", u64::MAX));
}

#[test]
fn shuffle_applies_after_skip_and_take() {
    // Window is rows 10..=29 after skip/take; the seed only permutes that
    // window.
    let ops = [IndexOp::Skip { count: 10 }, IndexOp::Take { count: 20 }, IndexOp::Shuffle { seed: 3 }];
    let window = compile_sampler_window(40, &ops).unwrap();
    assert_eq!((window.start, window.end, window.shuffle_seed), (10, 30, Some(3)));
    let permutation: Vec<usize> = (0..20).rev().collect();
    let mut seen = offset_permutation(permutation, window);
    seen.sort_unstable();
    assert_eq!(seen, (10..30).collect::<Vec<usize>>(), "window preserved");
}
