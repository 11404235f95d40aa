//! Tests of the ownership conversion layer and the capacity discipline.

use sendfd::RawFd;
use sendfd::convert::Receivable;
use sendfd::convert::Sendable;
use sendfd::convert::collect_sendable_fds;
use sendfd::convert::convert_received;

#[test]
fn identity_conversion_round_trips() {
    let fd: RawFd = 17;
    let inspected = fd.as_sendable_fd();
    assert_eq!(inspected, 17);
    let back: RawFd = Receivable::from_received_fd(inspected);
    assert_eq!(back, fd);
}

#[test]
fn collect_preserves_order() {
    let items: Vec<RawFd> = vec![5, -1, 0, 1 << 20];
    let fds = collect_sendable_fds(items.as_slice());
    assert_eq!(fds, items);
}

#[test]
fn convert_caps_at_capacity() {
    let raws: Vec<RawFd> = vec![10, 11, 12, 13, 14];
    let (kept, overflow): (Vec<RawFd>, Vec<RawFd>) = convert_received(raws, 3);
    assert_eq!(kept, vec![10, 11, 12]);
    assert_eq!(overflow, vec![13, 14]);
}

#[test]
fn convert_takes_all_under_capacity() {
    let raws: Vec<RawFd> = vec![10, 11];
    let (kept, overflow): (Vec<RawFd>, Vec<RawFd>) = convert_received(raws, 7);
    assert_eq!(kept, vec![10, 11]);
    assert!(overflow.is_empty());
}

#[test]
fn convert_zero_capacity_keeps_nothing() {
    let raws: Vec<RawFd> = vec![10, 11];
    let (kept, overflow): (Vec<RawFd>, Vec<RawFd>) = convert_received(raws, 0);
    assert!(kept.is_empty());
    assert_eq!(overflow, vec![10, 11]);
}
