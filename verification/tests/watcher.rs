use atomblocks::hits::{PropertyNotice, PropertyRead, FORMAT_32, PROPERTY_DELETE, READ_LENGTH};
use atomblocks::HitWatcher;
use x11rb::protocol::xproto::Property;

fn words(values: &[u32]) -> Vec<u8> {
    let mut bytes = Vec::new();
    for value in values {
        bytes.extend_from_slice(&value.to_ne_bytes());
    }
    bytes
}

#[test]
fn constants_are_those_of_the_protocol() {
    assert_eq!(PROPERTY_DELETE, u8::from(Property::DELETE));
    assert_ne!(PROPERTY_DELETE, u8::from(Property::NEW_VALUE));
    assert_eq!(FORMAT_32, 32);
    assert_eq!(READ_LENGTH, 1024);
}

#[test]
fn new_watcher_keeps_window_and_atom() {
    let watcher = HitWatcher::new(7, 300);
    assert_eq!(watcher, HitWatcher { window: 7, atom: 300 });
}

#[test]
fn accepts_new_value_of_the_queue() {
    let watcher = HitWatcher::new(7, 300);
    assert!(watcher.accepts(&PropertyNotice { window: 7, atom: 300, state: 0 }));
}

#[test]
fn passes_over_deletion() {
    let watcher = HitWatcher::new(7, 300);
    assert!(!watcher.accepts(&PropertyNotice { window: 7, atom: 300, state: PROPERTY_DELETE }));
}

#[test]
fn passes_over_other_property() {
    let watcher = HitWatcher::new(7, 300);
    assert!(!watcher.accepts(&PropertyNotice { window: 7, atom: 301, state: 0 }));
}

#[test]
fn passes_over_other_window() {
    let watcher = HitWatcher::new(7, 300);
    assert!(!watcher.accepts(&PropertyNotice { window: 8, atom: 300, state: 0 }));
}

#[test]
fn batch_keeps_first_occurrences_in_order() {
    assert_eq!(HitWatcher::batch(&vec![3, 3, 1, 3]), Some(vec![3, 1]));
}

#[test]
fn batch_without_repetitions_is_unchanged() {
    assert_eq!(HitWatcher::batch(&vec![2, 0, 1]), Some(vec![2, 0, 1]));
}

#[test]
fn batch_of_one_value_repeated_is_that_value() {
    assert_eq!(HitWatcher::batch(&vec![5, 5, 5]), Some(vec![5]));
}

#[test]
fn batch_of_nothing_is_none() {
    assert_eq!(HitWatcher::batch(&Vec::new()), None);
}

#[test]
fn batch_takes_the_largest_value() {
    assert_eq!(HitWatcher::batch(&vec![u32::MAX, 0, u32::MAX]), Some(vec![u32::MAX as usize, 0]));
}

#[test]
fn batch_removes_repetitions_that_are_apart() {
    assert_eq!(HitWatcher::batch(&vec![1, 2, 1, 3, 2, 4]), Some(vec![1, 2, 3, 4]));
}

#[test]
fn pending_reads_the_values_of_the_queue() {
    let read = PropertyRead { format: 32, value: words(&[3, 3, 1, 3]) };
    assert_eq!(HitWatcher::pending(Some(&read)), Some(vec![3, 1]));
}

#[test]
fn pending_of_failed_read_is_none() {
    assert_eq!(HitWatcher::pending(None), None);
}

#[test]
fn pending_of_empty_queue_is_none() {
    let read = PropertyRead { format: 32, value: Vec::new() };
    assert_eq!(HitWatcher::pending(Some(&read)), None);
}

#[test]
fn pending_of_other_format_is_none() {
    let bytes = PropertyRead { format: 8, value: words(&[1, 2]) };
    assert_eq!(HitWatcher::pending(Some(&bytes)), None);
    let halves = PropertyRead { format: 16, value: words(&[1, 2]) };
    assert_eq!(HitWatcher::pending(Some(&halves)), None);
}

#[test]
fn pending_drops_bytes_left_over() {
    let mut value = words(&[9, 4]);
    value.extend_from_slice(&[1, 2, 3]);
    let read = PropertyRead { format: 32, value };
    assert_eq!(HitWatcher::pending(Some(&read)), Some(vec![9, 4]));
}

#[test]
fn pending_of_fewer_than_four_bytes_is_none() {
    let read = PropertyRead { format: 32, value: vec![1, 0, 0] };
    assert_eq!(HitWatcher::pending(Some(&read)), None);
}
