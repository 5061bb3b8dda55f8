use consistency_harness::transfer_lock::{Grant, Party, TransferLock};

#[test]
fn free_lock_is_granted_at_once() {
    let mut lock = TransferLock::new();
    assert_eq!(lock.holder(), None);
    assert_eq!(lock.request(Party::Injector(1)), Grant::Granted);
    assert_eq!(lock.holder(), Some(Party::Injector(1)));
    assert_eq!(lock.release(), None);
    assert_eq!(lock.holder(), None);
}

#[test]
fn injectors_wait_while_the_checker_holds_the_lock() {
    let mut lock = TransferLock::new();
    let mut entered = 0;
    assert_eq!(lock.request(Party::Checker), Grant::Granted);
    for ticket in 0..8u64 {
        if lock.request(Party::Injector(ticket)) == Grant::Granted {
            entered += 1;
        }
        assert_eq!(lock.holder(), Some(Party::Checker));
    }
    assert_eq!(entered, 0);
    assert_eq!(lock.waiting(), 8);
    let mut next = lock.release();
    let mut order = Vec::new();
    while let Some(party) = next {
        assert_eq!(lock.holder(), Some(party));
        entered += 1;
        order.push(party);
        next = lock.release();
    }
    assert_eq!(entered, 8);
    assert_eq!(order, (0..8u64).map(Party::Injector).collect::<Vec<_>>());
    assert_eq!(lock.holder(), None);
    assert_eq!(lock.waiting(), 0);
}

#[test]
fn checker_waits_for_an_injector_that_holds_the_lock() {
    let mut lock = TransferLock::new();
    assert_eq!(lock.request(Party::Injector(3)), Grant::Granted);
    assert_eq!(lock.request(Party::Checker), Grant::Queued);
    assert_eq!(lock.release(), Some(Party::Checker));
    assert_eq!(lock.request(Party::Injector(4)), Grant::Queued);
    assert_eq!(lock.release(), Some(Party::Injector(4)));
    assert_eq!(lock.release(), None);
}
