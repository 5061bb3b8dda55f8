use std::sync::atomic::{AtomicUsize, Ordering};
use std::sync::{Arc, Mutex};
use std::time::{Duration, Instant};

use consistency_harness::retry::{AfterAttempt, Retry};
use consistency_harness::transfer_lock::{Grant, Party, TransferLock};
use tokio::sync::Notify;

struct Shared {
    state: Mutex<TransferLock>,
    changed: Notify,
}

async fn acquire(shared: &Shared, who: Party) {
    if shared.state.lock().unwrap().request(who) == Grant::Granted {
        return;
    }
    loop {
        let notified = shared.changed.notified();
        let mut notified = Box::pin(notified);
        notified.as_mut().enable();
        if shared.state.lock().unwrap().holder() == Some(who) {
            return;
        }
        notified.await;
    }
}

fn release(shared: &Shared) {
    shared.state.lock().unwrap().release();
    shared.changed.notify_waiters();
}

#[test]
fn injectors_proceed_only_after_the_checker_lets_go() {
    let runtime = tokio::runtime::Builder::new_multi_thread()
        .worker_threads(4)
        .enable_time()
        .build()
        .unwrap();
    runtime.block_on(async {
        let shared = Arc::new(Shared { state: Mutex::new(TransferLock::new()), changed: Notify::new() });
        let entered = Arc::new(AtomicUsize::new(0));
        let inside = Arc::new(AtomicUsize::new(0));

        acquire(&shared, Party::Checker).await;

        let mut tasks = Vec::new();
        for ticket in 0..16u64 {
            let shared = Arc::clone(&shared);
            let entered = Arc::clone(&entered);
            let inside = Arc::clone(&inside);
            tasks.push(tokio::spawn(async move {
                acquire(&shared, Party::Injector(ticket)).await;
                assert_eq!(inside.fetch_add(1, Ordering::SeqCst), 0);
                entered.fetch_add(1, Ordering::SeqCst);
                tokio::time::sleep(Duration::from_millis(1)).await;
                assert_eq!(inside.fetch_sub(1, Ordering::SeqCst), 1);
                release(&shared);
            }));
        }

        tokio::time::sleep(Duration::from_millis(200)).await;
        assert_eq!(entered.load(Ordering::SeqCst), 0);
        assert_eq!(shared.state.lock().unwrap().holder(), Some(Party::Checker));
        assert_eq!(shared.state.lock().unwrap().waiting(), 16);

        release(&shared);
        for task in tasks {
            task.await.unwrap();
        }
        assert_eq!(entered.load(Ordering::SeqCst), 16);
        assert_eq!(shared.state.lock().unwrap().holder(), None);
    });
}

#[test]
fn failing_stub_is_called_as_often_as_configured_with_the_delay_between() {
    let runtime = tokio::runtime::Builder::new_current_thread().enable_time().build().unwrap();
    runtime.block_on(async {
        let mut calls = 0;
        let mut retry = Retry::begin(5, 40);
        let started = Instant::now();
        let mut aborted = false;
        while retry.may_attempt() {
            calls += 1;
            let failed_stub: Result<(), ()> = Err(());
            match retry.record(failed_stub.is_ok()) {
                AfterAttempt::Done => unreachable!(),
                AfterAttempt::RetryAfter { delay_ms } => {
                    tokio::time::sleep(Duration::from_millis(delay_ms)).await
                }
                AfterAttempt::Abort => aborted = true,
            }
        }
        let elapsed = started.elapsed();
        assert!(aborted);
        assert_eq!(calls, 5);
        assert!(elapsed >= Duration::from_millis(160));
        assert!(elapsed < Duration::from_millis(1000));
    });
}
