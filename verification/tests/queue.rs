use std::sync::atomic::{AtomicUsize, Ordering};
use std::sync::{Arc, Mutex};
use std::task::{Wake, Waker};

use waker_queue::WakerQueue;

/// A waker that appends its id to a shared log each time it is woken.
struct LogWake {
    id: usize,
    log: Arc<Mutex<Vec<usize>>>,
}

impl Wake for LogWake {
    fn wake(self: Arc<Self>) {
        self.log.lock().unwrap().push(self.id);
    }
}

fn log_waker(id: usize, log: &Arc<Mutex<Vec<usize>>>) -> Waker {
    Waker::from(Arc::new(LogWake { id, log: Arc::clone(log) }))
}

/// A waker that counts its wakes and its drops through shared counters.
struct CountingWake {
    wakes: Arc<AtomicUsize>,
    drops: Arc<AtomicUsize>,
}

impl Wake for CountingWake {
    fn wake(self: Arc<Self>) {
        self.wakes.fetch_add(1, Ordering::SeqCst);
    }
}

impl Drop for CountingWake {
    fn drop(&mut self) {
        self.drops.fetch_add(1, Ordering::SeqCst);
    }
}

fn counting_waker(wakes: &Arc<AtomicUsize>, drops: &Arc<AtomicUsize>) -> Waker {
    Waker::from(Arc::new(CountingWake {
        wakes: Arc::clone(wakes),
        drops: Arc::clone(drops),
    }))
}

#[test]
fn new_queue_is_empty() {
    let q = WakerQueue::new();
    assert!(q.is_empty());
}

#[test]
fn wake_all_on_empty_queue_wakes_nothing() {
    let log = Arc::new(Mutex::new(Vec::new()));
    let mut q = WakerQueue::new();
    q.wake_all();
    assert!(q.is_empty());
    assert!(log.lock().unwrap().is_empty());
    // a waker registered afterward is untouched by the earlier wake
    q.register(log_waker(0, &log));
    assert!(!q.is_empty());
    assert!(log.lock().unwrap().is_empty());
}

#[test]
fn wake_all_wakes_each_registered_callback_once_in_order() {
    let log = Arc::new(Mutex::new(Vec::new()));
    let mut q = WakerQueue::new();
    for id in 0..5 {
        q.register(log_waker(id, &log));
    }
    assert!(!q.is_empty());
    q.wake_all();
    assert!(q.is_empty());
    assert_eq!(*log.lock().unwrap(), vec![0, 1, 2, 3, 4]);
}

#[test]
fn wake_all_twice_wakes_only_once() {
    let log = Arc::new(Mutex::new(Vec::new()));
    let mut q = WakerQueue::new();
    for id in 0..3 {
        q.register(log_waker(id, &log));
    }
    q.wake_all();
    q.wake_all();
    assert_eq!(*log.lock().unwrap(), vec![0, 1, 2]);
}

#[test]
fn callbacks_registered_after_a_wake_survive_for_the_next() {
    let log = Arc::new(Mutex::new(Vec::new()));
    let mut q = WakerQueue::new();
    q.register(log_waker(1, &log));
    q.wake_all();
    assert_eq!(*log.lock().unwrap(), vec![1]);
    q.register(log_waker(2, &log));
    q.register(log_waker(3, &log));
    assert_eq!(*log.lock().unwrap(), vec![1]);
    q.wake_all();
    assert_eq!(*log.lock().unwrap(), vec![1, 2, 3]);
    assert!(q.is_empty());
}

#[test]
fn registering_the_same_waker_twice_wakes_it_twice() {
    let wakes = Arc::new(AtomicUsize::new(0));
    let drops = Arc::new(AtomicUsize::new(0));
    let arc = Arc::new(CountingWake {
        wakes: Arc::clone(&wakes),
        drops: Arc::clone(&drops),
    });
    let mut q = WakerQueue::new();
    q.register(Waker::from(Arc::clone(&arc)));
    q.register(Waker::from(Arc::clone(&arc)));
    q.wake_all();
    assert_eq!(wakes.load(Ordering::SeqCst), 2);
}

#[test]
fn teardown_frees_every_node_and_wakes_none() {
    let wakes = Arc::new(AtomicUsize::new(0));
    let drops = Arc::new(AtomicUsize::new(0));
    let mut q = WakerQueue::new();
    for _ in 0..4 {
        q.register(counting_waker(&wakes, &drops));
    }
    assert_eq!(drops.load(Ordering::SeqCst), 0);
    q.teardown();
    assert!(q.is_empty());
    assert_eq!(wakes.load(Ordering::SeqCst), 0);
    assert_eq!(drops.load(Ordering::SeqCst), 4);
}

#[test]
fn wake_all_drops_every_node_after_waking() {
    let wakes = Arc::new(AtomicUsize::new(0));
    let drops = Arc::new(AtomicUsize::new(0));
    let mut q = WakerQueue::new();
    for _ in 0..3 {
        q.register(counting_waker(&wakes, &drops));
    }
    q.wake_all();
    assert_eq!(wakes.load(Ordering::SeqCst), 3);
    assert_eq!(drops.load(Ordering::SeqCst), 3);
}

#[test]
fn many_registrations_stay_in_registration_order() {
    let log = Arc::new(Mutex::new(Vec::new()));
    let mut q = WakerQueue::new();
    let n: usize = 100;
    for id in 0..n {
        q.register(log_waker(id, &log));
    }
    q.wake_all();
    let seen = log.lock().unwrap();
    assert_eq!(seen.len(), n);
    for (i, id) in seen.iter().enumerate() {
        assert_eq!(*id, i);
    }
    drop(seen);
    // the drained queue accepts and delivers a fresh round
    q.register(log_waker(n, &log));
    q.wake_all();
    assert_eq!(log.lock().unwrap().len(), n + 1);
}
