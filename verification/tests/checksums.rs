use ipv4kit::checksum::{
    network_checksum, network_checksum_2part, network_partial_checksum, ones_complement_sum,
    swap_u16, swap_u32,
};
use ipv4kit::udp::UdpHeader;

#[test]
fn ones_complement_sum_carries() {
    assert_eq!(ones_complement_sum(1, 2), 3);
    assert_eq!(ones_complement_sum(0xFFFF, 1), 1);
    assert_eq!(ones_complement_sum(0x8000, 0x8000), 1);
    assert_eq!(ones_complement_sum(0xFFFF, 0), 0xFFFF);
    assert_eq!(ones_complement_sum(0, 0), 0);
}

#[test]
fn swaps() {
    assert_eq!(swap_u16(0x1234), 0x3412);
    assert_eq!(swap_u16(swap_u16(0xbeef)), 0xbeef);
    assert_eq!(swap_u32(0x12345678), 0x78563412);
    assert_eq!(swap_u32(swap_u32(0xdeadbeef)), 0xdeadbeef);
}

// The IPv4 header checksum scenario: header bytes with the checksum field
// zeroed must compute to 0xb861 on the wire, which the engine hands back in
// stored (low byte first) order as 0x61b8.
#[test]
fn ipv4_header_checksum_scenario() {
    let bytes: &[u8] = &[
        0x45, 0x00, 0x00, 0x73, 0x00, 0x00, 0x40, 0x00, 0x40, 0x11, 0x00, 0x00, 0xc0, 0xa8, 0x00,
        0x01, 0xc0, 0xa8, 0x00, 0xc7,
    ];
    let stored = network_checksum(bytes, 0);
    assert_eq!(stored, 0x61b8);
    assert_eq!([(stored & 0xFF) as u8, (stored >> 8) as u8], [0xb8, 0x61]);
}

// With no words folded, complementing the seed and the accumulator cancel:
// the seed comes back unchanged.
#[test]
fn empty_region_returns_seed() {
    assert_eq!(network_checksum(&[], 0), 0);
    assert_eq!(network_checksum(&[], 0xFFFF), 0xFFFF);
    assert_eq!(network_checksum(&[], 0x1234), 0x1234);
}

#[test]
fn odd_region_pads_low_byte() {
    // A single byte counts as the high byte of a padded word.
    assert_eq!(network_checksum(&[0x12], 0), network_checksum(&[0x12, 0x00], 0));
}

#[test]
fn partial_checksum_ignores_odd_tail() {
    assert_eq!(network_partial_checksum(&[0x12, 0x34]), 0x1234);
    assert_eq!(network_partial_checksum(&[0x12, 0x34, 0x56]), 0x1234);
    assert_eq!(network_partial_checksum(&[]), 0);
}

// Two regions fold as their concatenation when the first has even length.
#[test]
fn two_part_matches_concatenation() {
    let a: &[u8] = &[0x45, 0x00, 0x12, 0x34];
    let b: &[u8] = &[0xab, 0xcd, 0xef];
    let concat: &[u8] = &[0x45, 0x00, 0x12, 0x34, 0xab, 0xcd, 0xef];
    assert_eq!(network_checksum_2part(a, b, 0x1111), network_checksum(concat, 0x1111));
}

// With an odd first region the padding byte makes the two differ.
#[test]
fn two_part_differs_on_odd_first_region() {
    let a: &[u8] = &[0x01];
    let b: &[u8] = &[0x02];
    let concat: &[u8] = &[0x01, 0x02];
    assert_ne!(network_checksum_2part(a, b, 0), network_checksum(concat, 0));
}

// A region that validates to zero stops doing so after any single-byte
// corruption.
#[test]
fn corruption_is_detected() {
    let mut region: Vec<u8> = vec![
        0x45, 0x00, 0x00, 0x73, 0x00, 0x00, 0x40, 0x00, 0x40, 0x11, 0x00, 0x00, 0xc0, 0xa8, 0x00,
        0x01, 0xc0, 0xa8, 0x00, 0xc7,
    ];
    let stored = network_checksum(&region, 0);
    region[10] = (stored & 0xFF) as u8;
    region[11] = (stored >> 8) as u8;
    assert_eq!(network_checksum(&region, 0), 0);
    for i in 0..region.len() {
        let mut corrupt = region.clone();
        corrupt[i] = corrupt[i].wrapping_add(1);
        assert_ne!(network_checksum(&corrupt, 0), 0, "corruption at byte {} went unseen", i);
    }
}

#[test]
fn test_udp_checksum_1() {
    let buffer: &[u8] = &[
        0x45, 0x00, 0x00, 0x31, 0x85, 0x57, 0x40, 0x00, 0x3f, 0x11, 0xa2, 0x61, 0x0a, 0x00, 0x00,
        0x03, 0x0a, 0x00, 0x00, 0x01, 0x63, 0x9c, 0x88, 0x13, 0x00, 0x1d, 0x91, 0x61, 0x54, 0x68,
        0x69, 0x73, 0x20, 0x69, 0x73, 0x20, 0x79, 0x6f, 0x75, 0x72, 0x20, 0x72, 0x65, 0x70, 0x6c,
        0x79, 0x21, 0x0d, 0x0a,
    ];
    let udp_header = UdpHeader::from_bytes(&buffer[20..]);
    let payload = &buffer[28..];
    assert_eq!(udp_header.ip_checksum(0x300_000a, 0x100_000a, payload), 0x50a2);
}

#[test]
fn test_udp_checksum_2() {
    let buffer: &[u8] = &[
        0x45, 0x00, 0x00, 0x1f, 0x42, 0x90, 0x40, 0x00, 0x40, 0x11, 0xe4, 0x3a, 0x0a, 0x00, 0x00,
        0x01, 0x0a, 0x00, 0x00, 0x03, 0x88, 0x13, 0x63, 0x9c, 0x00, 0x0b, 0x8d, 0xbb, 0x68, 0x69,
        0x0a,
    ];
    let mut udp_header = UdpHeader::from_bytes(&buffer[20..]);
    udp_header.checksum = 0;
    let payload = &buffer[28..];
    assert_eq!(udp_header.ip_checksum(0x100_000a, 0x300_000a, payload), 0xbb8d);
}
