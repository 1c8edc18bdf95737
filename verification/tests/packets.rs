use ipv4kit::checksum::{network_checksum, network_checksum_2part};
use ipv4kit::dispatch::{build_icmp_reply, handle_icmp, handle_ip, handle_udp};
use ipv4kit::icmp::{IcmpHeader, IcmpType, ICMP_ECHO_REPLY};
use ipv4kit::ip::{IpHeader, IpProtocol};
use ipv4kit::packet::{Packet, REPLY_HEADROOM};
use ipv4kit::udp::UdpHeader;

#[test]
fn test_ip_checksum() {
    let buffer: &[u8] = &[
        0x45, 0x00, 0x00, 0x73, 0x00, 0x00, 0x40, 0x00, 0x40, 0x11, 0xb8, 0x61, 0xc0, 0xa8, 0x00,
        0x01, 0xc0, 0xa8, 0x00, 0xc7,
    ];
    let header = IpHeader::from_bytes(buffer);
    assert_eq!(header.checksum(), 0x61b8);
}

#[test]
fn test_bswap() {
    let buffer: &[u8] = &[
        0x45, 0x00, 0x00, 0x73, 0x00, 0x00, 0x40, 0x00, 0x40, 0x11, 0xb8, 0x61, 0xc0, 0xa8, 0x00,
        0x01, 0xc0, 0xa8, 0x00, 0xc7,
    ];
    let mut header = IpHeader::from_bytes(buffer);
    header.bswap();
    assert_eq!(header.total_len, 0x0073);
    header.bswap();
    assert_eq!(header.total_len, 0x7300);
}

#[test]
fn test_packet_sub() {
    let buffer = &mut [0u8; 32];
    buffer[0] = 0x45;
    let packet = Packet::new(buffer.to_vec());
    let header = packet.ip_header().unwrap();
    // The complement of the only nonzero word, handed back in stored
    // (low byte first) order.
    assert_eq!(header.checksum(), u16::swap_bytes(!0x4500));
    assert!(packet.data().is_none());
}

#[test]
fn ip_bswap_is_involution_bit_for_bit() {
    let buffer: &[u8] = &[
        0x45, 0x1c, 0x00, 0x73, 0x12, 0x34, 0x40, 0x00, 0x40, 0x11, 0xb8, 0x61, 0xc0, 0xa8, 0x00,
        0x01, 0xc0, 0xa8, 0x00, 0xc7,
    ];
    let header = IpHeader::from_bytes(buffer);
    let mut twice = header;
    twice.bswap();
    twice.bswap();
    assert_eq!(twice, header);
    assert_eq!(twice.to_bytes(), header.to_bytes());
}

#[test]
fn udp_bswap_is_involution_bit_for_bit() {
    let header = UdpHeader { source_port: 0x639c, destination_port: 0x8813, len: 0x1d00, checksum: 0x6191 };
    let mut twice = header;
    twice.bswap();
    assert_eq!(twice.source_port, 0x9c63);
    twice.bswap();
    assert_eq!(twice, header);
}

#[test]
fn reply_header_swaps_addresses_and_decrements_ttl() {
    let buffer: &[u8] = &[
        0x45, 0x00, 0x00, 0x73, 0x00, 0x00, 0x40, 0x00, 0x40, 0x11, 0xb8, 0x61, 0xc0, 0xa8, 0x00,
        0x01, 0xc0, 0xa8, 0x00, 0xc7,
    ];
    let mut header = IpHeader::from_bytes(buffer);
    header.bswap();
    let reply = header.reply_header();
    assert_eq!(reply.source, header.destination);
    assert_eq!(reply.destination, header.source);
    assert_eq!(reply.ttl, header.ttl - 1);
    assert_eq!(reply.total_len, 0);
    assert_eq!(reply.checksum, 0);
    assert_eq!(reply.id, header.id);
    assert_eq!(reply.protocol, header.protocol);
}

#[test]
fn reply_header_saturates_ttl_at_zero() {
    let buffer: &[u8] = &[
        0x45, 0x00, 0x00, 0x73, 0x00, 0x00, 0x40, 0x00, 0x00, 0x11, 0xb8, 0x61, 0xc0, 0xa8, 0x00,
        0x01, 0xc0, 0xa8, 0x00, 0xc7,
    ];
    let header = IpHeader::from_bytes(buffer);
    assert_eq!(header.ttl, 0);
    assert_eq!(header.reply_header().ttl, 0);
}

#[test]
fn udp_reply_header_swaps_ports() {
    let header = UdpHeader { source_port: 0x639c, destination_port: 0x8813, len: 0x1d00, checksum: 0x6191 };
    let reply = header.reply_header();
    assert_eq!(reply.source_port, 0x8813);
    assert_eq!(reply.destination_port, 0x639c);
    assert_eq!(reply.len, 0x1d00);
    assert_eq!(reply.checksum, 0);
}

#[test]
fn host_order_accessors() {
    // Flags word 0x4003 on the wire: don't-fragment set, fragment offset 3
    // (in 8-byte units); readable only after conversion to host order.
    let buffer: &[u8] = &[
        0x45, 0x00, 0x00, 0x73, 0x00, 0x00, 0x40, 0x03, 0x40, 0x11, 0xb8, 0x61, 0xc0, 0xa8, 0x00,
        0x01, 0xc0, 0xa8, 0x00, 0xc7,
    ];
    let mut header = IpHeader::from_bytes(buffer);
    assert_eq!(header.version(), 4);
    assert_eq!(header.header_len(), 20);
    assert!(!header.is_native_endian());
    header.bswap();
    assert!(header.is_native_endian());
    assert!(!header.reserved_bit());
    assert!(header.df_bit());
    assert!(!header.mf_bit());
    assert_eq!(header.frag_offset(), 3 * 8);
}

#[test]
fn offsets_stay_monotonic_through_fills() {
    let payload: &[u8] = &[1, 2, 3, 4, 5];
    let mut packet = Packet::new_from_data(payload);
    assert_eq!(packet.data_offset, Some(REPLY_HEADROOM));
    assert_eq!(packet.l4_offset, None);
    assert_eq!(packet.l3_offset, None);
    packet.fill_l4(&[0xaa; 8]);
    packet.fill_l3(&[0xbb; 20]);
    let l3 = packet.l3_offset.unwrap();
    let l4 = packet.l4_offset.unwrap();
    let d = packet.data_offset.unwrap();
    assert!(l3 <= l4 && l4 <= d && d <= packet.data.len());
    assert_eq!(l4, REPLY_HEADROOM - 8);
    assert_eq!(l3, REPLY_HEADROOM - 28);
    assert_eq!(&packet.data[l4..d], &[0xaa; 8]);
    assert_eq!(&packet.data[l3..l4], &[0xbb; 20]);
    assert_eq!(packet.data().unwrap(), payload);
    assert_eq!(packet.len(), Some(28 + payload.len()));
    assert_eq!(packet.whole().unwrap().len(), 28 + payload.len());
}

#[test]
fn malformed_network_layer_is_refused() {
    // Shorter than 20 bytes.
    let short = Packet::new(vec![0x45, 0x00, 0x00]);
    assert!(short.ip_header().is_none());
    let mut short = short;
    assert!(handle_ip(&mut short).is_none());
    // First nibble is not 4.
    let mut bytes = vec![0u8; 32];
    bytes[0] = 0x62;
    let not_v4 = Packet::new(bytes);
    assert!(not_v4.ip_header().is_none());
    let mut not_v4 = not_v4;
    assert!(handle_ip(&mut not_v4).is_none());
    // Options (header length beyond 20) are unsupported.
    let mut bytes = vec![0u8; 40];
    bytes[0] = 0x46;
    bytes[9] = 1;
    let mut with_options = Packet::new(bytes);
    assert!(with_options.ip_header().is_some());
    assert!(handle_ip(&mut with_options).is_none());
}

#[test]
fn unhandled_protocols_are_dropped() {
    // TCP (protocol 6) is not answered.
    let mut bytes = vec![0u8; 40];
    bytes[0] = 0x45;
    bytes[9] = 6;
    let mut packet = Packet::new(bytes);
    assert!(handle_ip(&mut packet).is_none());
    // An ICMP message that is not an echo request is not answered.
    let mut bytes = vec![0u8; 24];
    bytes[0] = 0x45;
    bytes[9] = 1;
    bytes[20] = 11;
    let mut packet = Packet::new(bytes);
    assert!(handle_ip(&mut packet).is_none());
    // An ICMP frame too short for its header is not answered.
    let mut bytes = vec![0u8; 22];
    bytes[0] = 0x45;
    bytes[9] = 1;
    let mut packet = Packet::new(bytes);
    packet.l4_offset = Some(20);
    assert!(packet.icmp_header().is_none());
    assert!(handle_icmp(&mut packet).is_none());
    // A UDP frame too short for its header is not answered.
    let mut bytes = vec![0u8; 26];
    bytes[0] = 0x45;
    bytes[9] = 17;
    let packet = Packet::new(bytes);
    let mut packet = packet;
    packet.l4_offset = Some(20);
    assert!(packet.udp_header().is_none());
    assert!(handle_udp(&packet).is_none());
}

// The ICMP echo round trip: the reply carries the request's payload
// unchanged, swapped addresses, a decremented TTL, and checksums that
// validate to zero.
#[test]
fn icmp_echo_round_trip() {
    let mut request = vec![
        0x45, 0x00, 0x00, 0x20, 0x12, 0x34, 0x40, 0x00, 0x40, 0x01, 0x00, 0x00, 0xc0, 0xa8, 0x00,
        0x01, 0xc0, 0xa8, 0x00, 0xc7,
    ];
    request.extend_from_slice(&[8, 0, 0, 0]);
    request.extend_from_slice(&[0xab, 0xcd, 0x00, 0x01]);
    request.extend_from_slice(b"ping");
    let mut packet = Packet::new(request);
    let reply = handle_ip(&mut packet).expect("an echo request deserves a reply");
    let frame = reply.whole().unwrap();
    assert_eq!(frame.len(), 32);
    assert_eq!(frame[0], 0x45);
    assert_eq!(&frame[2..4], &[0x00, 0x20]);
    assert_eq!(frame[8], 0x3f);
    assert_eq!(frame[9], 1);
    assert_eq!(&frame[12..16], &[0xc0, 0xa8, 0x00, 0xc7]);
    assert_eq!(&frame[16..20], &[0xc0, 0xa8, 0x00, 0x01]);
    assert_eq!(frame[20], ICMP_ECHO_REPLY);
    assert_eq!(frame[21], 0);
    assert_eq!(&frame[24..28], &[0xab, 0xcd, 0x00, 0x01]);
    assert_eq!(&frame[28..32], b"ping");
    // Both checksums validate to zero over their own regions.
    assert_eq!(network_checksum(&frame[..20], 0), 0);
    assert_eq!(network_checksum(&frame[20..], 0), 0);
}

#[test]
fn udp_round_trip() {
    let mut request = vec![
        0x45, 0x00, 0x00, 0x21, 0x85, 0x57, 0x40, 0x00, 0x3f, 0x11, 0x00, 0x00, 0x0a, 0x00, 0x00,
        0x03, 0x0a, 0x00, 0x00, 0x01,
    ];
    request.extend_from_slice(&[0x63, 0x9c, 0x88, 0x13, 0x00, 0x0d, 0x00, 0x00]);
    request.extend_from_slice(b"hello");
    let mut packet = Packet::new(request);
    let reply = handle_ip(&mut packet).expect("a datagram deserves a reply");
    let frame = reply.whole().unwrap();
    assert_eq!(frame.len(), 49);
    assert_eq!(frame[0], 0x45);
    assert_eq!(&frame[2..4], &[0x00, 0x31]);
    assert_eq!(&frame[4..6], &[0x00, 0x01]);
    assert_eq!(frame[8], 0x3e);
    assert_eq!(frame[9], 17);
    assert_eq!(&frame[12..16], &[0x0a, 0x00, 0x00, 0x01]);
    assert_eq!(&frame[16..20], &[0x0a, 0x00, 0x00, 0x03]);
    assert_eq!(&frame[20..22], &[0x88, 0x13]);
    assert_eq!(&frame[22..24], &[0x63, 0x9c]);
    assert_eq!(&frame[24..26], &[0x00, 0x1d]);
    assert_eq!(&frame[28..], b"This is your reply!\r\n");
    // The IP header checksum validates to zero; the UDP checksum validates
    // to zero together with the pseudo-header.
    assert_eq!(network_checksum(&frame[..20], 0), 0);
    let pseudo: &[u8] = &[
        0x0a, 0x00, 0x00, 0x01, 0x0a, 0x00, 0x00, 0x03, 0x00, 0x11, 0x00, 0x1d,
    ];
    assert_eq!(network_checksum_2part(&frame[20..], pseudo, 0), 0);
}

// A reply whose total length would not fit the 16-bit field is refused
// rather than built with a wrapped length.
#[test]
fn oversized_echo_payload_is_refused() {
    let mut request = vec![0u8; 65536];
    request[0] = 0x45;
    request[9] = 1;
    request[20] = 8;
    let mut packet = Packet::new(request);
    assert!(handle_ip(&mut packet).is_none());
    // One byte fewer and the reply fits exactly.
    let mut request = vec![0u8; 65535];
    request[0] = 0x45;
    request[9] = 1;
    request[20] = 8;
    let mut packet = Packet::new(request);
    let reply = handle_ip(&mut packet).unwrap();
    assert_eq!(reply.whole().unwrap().len(), 65535);
}

#[test]
fn icmp_set_checksum_round_trips() {
    let mut header = IcmpHeader { type_: IcmpType(8), code: 0, checksum: 0 };
    let payload = b"abcdef";
    header.set_checksum(payload);
    let mut region = header.to_bytes();
    region.extend_from_slice(payload);
    assert_eq!(network_checksum(&region, 0), 0);
}

#[test]
fn build_icmp_reply_prepends_backward() {
    let buffer: &[u8] = &[
        0x45, 0x00, 0x00, 0x73, 0x00, 0x00, 0x40, 0x00, 0x40, 0x01, 0xb8, 0x61, 0xc0, 0xa8, 0x00,
        0x01, 0xc0, 0xa8, 0x00, 0xc7,
    ];
    let mut host_header = IpHeader::from_bytes(buffer);
    host_header.bswap();
    let reply = build_icmp_reply(&host_header, IcmpType(ICMP_ECHO_REPLY), b"xy");
    assert_eq!(reply.l3_offset, Some(REPLY_HEADROOM - 24));
    assert_eq!(reply.l4_offset, Some(REPLY_HEADROOM - 4));
    assert_eq!(reply.data_offset, Some(REPLY_HEADROOM));
    let frame = reply.whole().unwrap();
    assert_eq!(frame.len(), 26);
    assert_eq!(&frame[2..4], &[0x00, 0x1a]);
    assert_eq!(&frame[24..26], b"xy");
    assert_eq!(reply.len(), Some(26));
}

#[test]
fn packet_protocol_field_reads_back() {
    let mut bytes = vec![0u8; 32];
    bytes[0] = 0x45;
    bytes[9] = 17;
    let packet = Packet::new(bytes);
    let header = packet.ip_header().unwrap();
    assert_eq!(header.protocol, IpProtocol(17));
    assert_eq!(header.header_len(), 20);
}
