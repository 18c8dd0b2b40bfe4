use fileshare::net::IpAddress;
use fileshare::permits::{PermitTable, PERMITS_PER_CLIENT};

fn ip(d: u8) -> IpAddress {
    IpAddress::V4 { a: 192, b: 168, c: 1, d }
}

#[test]
fn sixth_request_from_same_address_blocks() {
    let mut t = PermitTable::new();
    for _ in 0..PERMITS_PER_CLIENT {
        assert!(t.try_acquire(ip(1)));
    }
    // the sixth concurrent download of the same client finds no permit
    assert!(!t.try_acquire(ip(1)));
    assert_eq!(t.available(ip(1)), 0);
}

#[test]
fn distinct_addresses_do_not_contend() {
    let mut t = PermitTable::new();
    for _ in 0..PERMITS_PER_CLIENT {
        assert!(t.try_acquire(ip(1)));
    }
    // a different client still has its full budget
    assert_eq!(t.available(ip(2)), PERMITS_PER_CLIENT);
    assert!(t.try_acquire(ip(2)));
    assert_eq!(t.available(ip(2)), PERMITS_PER_CLIENT - 1);
    assert_eq!(t.available(ip(1)), 0);
}

#[test]
fn release_unblocks_one_permit() {
    let mut t = PermitTable::new();
    for _ in 0..PERMITS_PER_CLIENT {
        assert!(t.try_acquire(ip(1)));
    }
    assert!(!t.try_acquire(ip(1)));
    t.release(ip(1));
    assert!(t.try_acquire(ip(1)));
    assert!(!t.try_acquire(ip(1)));
}

#[test]
fn release_never_grows_past_full() {
    let mut t = PermitTable::new();
    assert!(t.try_acquire(ip(1)));
    t.release(ip(1));
    t.release(ip(1));
    assert_eq!(t.available(ip(1)), PERMITS_PER_CLIENT);
}
