//! Memory attributes and listeners.
use std::sync::{Arc, Mutex};
use tdx_q35::memory::ram_block_attributes::RamBlockAttributes;
use tdx_q35::memory::ram_discard::{RamDiscardListener, RamDiscardListenerRegistry};

const PAGE: usize = 4096;
const BASE: u64 = 0x1000_0000;
const SIZE: u64 = 64 * PAGE as u64;

#[test]
fn starts_all_private() {
    let attrs = RamBlockAttributes::new(BASE, SIZE, PAGE);
    for page in 0..(SIZE / PAGE as u64) {
        assert!(!attrs.is_shared(BASE + page * PAGE as u64));
    }
    assert!(attrs.shared_ranges(BASE, SIZE).is_empty());
}

#[test]
fn set_and_query_round_trip() {
    let mut attrs = RamBlockAttributes::new(BASE, SIZE, PAGE);
    attrs.set_shared(BASE + 4 * PAGE as u64, 3 * PAGE as u64);
    attrs.set_shared(BASE + 10 * PAGE as u64, PAGE as u64);

    let ranges = attrs.shared_ranges(BASE, SIZE);
    assert_eq!(
        ranges,
        vec![
            (BASE + 4 * PAGE as u64, 3 * PAGE as u64),
            (BASE + 10 * PAGE as u64, PAGE as u64),
        ]
    );

    attrs.set_private(BASE + 5 * PAGE as u64, PAGE as u64);
    let ranges = attrs.shared_ranges(BASE, SIZE);
    assert_eq!(
        ranges,
        vec![
            (BASE + 4 * PAGE as u64, PAGE as u64),
            (BASE + 6 * PAGE as u64, PAGE as u64),
            (BASE + 10 * PAGE as u64, PAGE as u64),
        ]
    );
}

#[test]
fn out_of_range_is_noop() {
    let mut attrs = RamBlockAttributes::new(BASE, SIZE, PAGE);
    attrs.set_shared(BASE - PAGE as u64, PAGE as u64);
    attrs.set_shared(BASE + SIZE, PAGE as u64);
    assert!(attrs.shared_ranges(BASE, SIZE).is_empty());
}

#[test]
fn region_is_described() {
    let attrs = RamBlockAttributes::new(BASE, SIZE, PAGE);
    assert_eq!(attrs.region_start(), BASE);
    assert_eq!(attrs.region_size(), SIZE);
    assert_eq!(attrs.page_size(), PAGE);
    assert!(attrs.contains(BASE));
    assert!(attrs.contains(BASE + SIZE - 1));
    assert!(!attrs.contains(BASE + SIZE));
    assert!(!attrs.contains(BASE - 1));
}

#[test]
fn making_private_undoes_making_shared() {
    let mut attrs = RamBlockAttributes::new(BASE, SIZE, PAGE);
    attrs.set_shared(BASE + 60 * PAGE as u64, 4 * PAGE as u64);
    assert_eq!(attrs.shared_ranges(BASE, SIZE), vec![(BASE + 60 * PAGE as u64, 4 * PAGE as u64)]);
    attrs.set_private(BASE + 60 * PAGE as u64, 4 * PAGE as u64);
    assert!(attrs.shared_ranges(BASE, SIZE).is_empty());
}

#[test]
fn ranges_are_cut_to_the_query() {
    let mut attrs = RamBlockAttributes::new(BASE, SIZE, PAGE);
    attrs.set_shared(BASE, SIZE);
    assert_eq!(
        attrs.shared_ranges(BASE + 2 * PAGE as u64, 3 * PAGE as u64),
        vec![(BASE + 2 * PAGE as u64, 3 * PAGE as u64)]
    );
}

struct Recorder {
    calls: Mutex<Vec<(bool, u64, u64)>>,
    fail: bool,
}

impl Recorder {
    fn new(fail: bool) -> Arc<Self> {
        Arc::new(Recorder { calls: Mutex::new(Vec::new()), fail })
    }
}

impl RamDiscardListener for Recorder {
    fn notify_populate(&self, gpa: u64, _host_va: u64, size: u64) -> Result<(), std::io::Error> {
        self.calls.lock().unwrap().push((true, gpa, size));
        if self.fail {
            Err(std::io::Error::from_raw_os_error(12))
        } else {
            Ok(())
        }
    }

    fn notify_discard(&self, gpa: u64, size: u64) {
        self.calls.lock().unwrap().push((false, gpa, size));
    }
}

#[test]
fn listeners_hear_until_they_leave() {
    let a = Recorder::new(false);
    let b = Recorder::new(false);
    let mut registry = RamDiscardListenerRegistry::new();
    registry.register(a.clone());
    registry.register(b.clone());
    assert!(registry.notify_populate(0x1000, 0x7000, 0x2000).is_ok());
    // Another listener with the same contents is not the one that leaves.
    let other = Recorder::new(false);
    assert!(!registry.unregister(&other));
    assert!(registry.unregister(&a));
    registry.notify_discard(0x1000, 0x2000);
    assert_eq!(*a.calls.lock().unwrap(), vec![(true, 0x1000, 0x2000)]);
    assert_eq!(
        *b.calls.lock().unwrap(),
        vec![(true, 0x1000, 0x2000), (false, 0x1000, 0x2000)]
    );
    assert_eq!(registry.snapshot().len(), 1);
}

#[test]
fn snapshot_holds_the_same_listeners() {
    let a = Recorder::new(false);
    let mut registry = RamDiscardListenerRegistry::new();
    registry.register(a.clone());
    let seen = registry.snapshot();
    assert!(Arc::ptr_eq(&seen[0], &a));
}

#[test]
fn failed_populate_is_reported() {
    let a = Recorder::new(true);
    let mut registry = RamDiscardListenerRegistry::new();
    registry.register(a.clone());
    assert!(registry.notify_populate(0, 0, 0x1000).is_err());
}
