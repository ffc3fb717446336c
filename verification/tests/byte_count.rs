use ampfuzz::byte_count::{AmpByteCount, Layer, UdpByteCount};
use std::cmp::Ordering;

#[test]
fn check_compare() {
    let x = AmpByteCount { bytes_in: UdpByteCount::from_l7(100), bytes_out: UdpByteCount::from_l7(1000) };
    let y = AmpByteCount { bytes_in: UdpByteCount::from_l7(250), bytes_out: UdpByteCount::from_l7(1000) };

    let cmp = x.cmp(&y);
    match cmp {
        Ordering::Less => {
            assert!(x < y)
        }
        Ordering::Equal => {
            assert_eq!(x, y)
        }
        Ordering::Greater => {
            assert!(x > y)
        }
    };
}

#[test]
fn compare_is_greater_for_smaller_request() {
    let x = AmpByteCount { bytes_in: UdpByteCount::from_l7(100), bytes_out: UdpByteCount::from_l7(1000) };
    let y = AmpByteCount { bytes_in: UdpByteCount::from_l7(250), bytes_out: UdpByteCount::from_l7(1000) };
    assert_eq!(x.cmp(&y), Ordering::Greater);
    assert_eq!(y.cmp(&x), Ordering::Less);
    assert_eq!(x.cmp(&x), Ordering::Equal);
    assert!(x.exceeds(&y));
    assert!(!y.exceeds(&x));
}

#[test]
fn layer_sizes_of_one_datagram() {
    let c = UdpByteCount::from_l7(16);
    assert_eq!(c.l7_size(), 16);
    assert_eq!(c.l4_size(), 24);
    assert_eq!(c.l3_size(), 44);
    assert_eq!(c.l2_size(), 64);
    let d = UdpByteCount::from_l7(100);
    assert_eq!(d.l2_size(), 144);
    assert_eq!(d.size_at(Layer::L3), 128);
}

#[test]
fn layer_sizes_add_up_over_datagrams() {
    let mut c = UdpByteCount::new();
    assert_eq!(c.l2_size(), 0);
    c.push(0);
    c.push(20);
    c.push(1000);
    assert_eq!(c.len(), 3);
    assert_eq!(c.l7_size(), 1020);
    assert_eq!(c.l4_size(), 1020 + 8 * 3);
    assert_eq!(c.l3_size(), 1020 + 28 * 3);
    assert_eq!(c.l2_size(), 64 + 64 + 1044);
    let mut d = UdpByteCount::from_l7(5);
    d.append(&c);
    assert_eq!(d.payloads(), &vec![5usize, 0, 20, 1000]);
    assert!(d.has_room_for(65536));
    assert!(!d.has_room_for(usize::MAX - 10));
}

#[test]
fn empty_request_compares_replies_only() {
    let x = AmpByteCount { bytes_in: UdpByteCount::new(), bytes_out: UdpByteCount::from_l7(10) };
    let y = AmpByteCount { bytes_in: UdpByteCount::from_l7(1), bytes_out: UdpByteCount::from_l7(500) };
    assert_eq!(x.cmp(&y), Ordering::Less);
    assert_eq!(AmpByteCount::cmp_amp(0, 7, 3, 7), Ordering::Equal);
    assert_eq!(AmpByteCount::cmp_amp(2, 7, 3, 7), Ordering::Greater);
    assert_eq!(AmpByteCount::cmp_amp(usize::MAX, usize::MAX, usize::MAX, usize::MAX - 1), Ordering::Greater);
}

#[test]
fn ties_at_the_frame_layer_are_broken_below() {
    // Both replies are padded to the minimum frame; the packet layer decides.
    let x = AmpByteCount { bytes_in: UdpByteCount::from_l7(100), bytes_out: UdpByteCount::from_l7(3) };
    let y = AmpByteCount { bytes_in: UdpByteCount::from_l7(100), bytes_out: UdpByteCount::from_l7(2) };
    assert_eq!(x.cmp(&y), Ordering::Greater);
    assert!(x > y);
    assert!(!x.same(&y));
    assert!(x.same(&x.clone()));
}

#[test]
fn reply_to_a_small_request_amplifies_at_the_packet_layer() {
    // A 16-byte request that is echoed: 44 bytes at the packet layer on each side.
    let amp = AmpByteCount { bytes_in: UdpByteCount::from_l7(16), bytes_out: UdpByteCount::from_l7(16) };
    assert_eq!(amp.bytes_out.l3_size(), 16 + 8 + 20);
    assert_eq!(amp.bytes_in.l7_size(), 16);
    assert_eq!(amp.factor_parts(), (64, 64));
}

#[test]
fn factor_is_compared_exactly() {
    let small = AmpByteCount { bytes_in: UdpByteCount::from_l7(50), bytes_out: UdpByteCount::from_l7(100) };
    let large = AmpByteCount { bytes_in: UdpByteCount::from_l7(50), bytes_out: UdpByteCount::from_l7(1000) };
    assert!(small.factor_below(&large));
    assert!(!large.factor_below(&small));
    assert!(!small.factor_below(&small));
    let nothing = AmpByteCount::new();
    assert!(nothing.factor_below(&small));
    assert!(!small.factor_below(&nothing));
    assert!(!nothing.factor_below(&nothing));
}

#[test]
fn default_counts_are_empty() {
    let c = UdpByteCount::default();
    assert_eq!(c.len(), 0);
    assert_eq!(c.l7_size(), 0);
    assert_eq!(c.l4_size(), 0);
    let a = AmpByteCount::default();
    assert_eq!(a.cmp(&AmpByteCount::new()), Ordering::Equal);
    assert_eq!(a.partial_cmp(&AmpByteCount::new()), Some(Ordering::Equal));
}
