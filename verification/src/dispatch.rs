//! Protocol dispatch: routes an inbound IPv4 frame by protocol number and
//! ICMP type, and builds the reply packet — an ICMP echo reply or the fixed
//! UDP answer — backward from the payload through the transport header to
//! the network header, with lengths and checksums set.

use crate::checksum::{checksum2_spec, checksum_spec, lemma_swap16_involution};
use crate::icmp::{icmp_bytes, IcmpHeader, IcmpType, ICMP_ECHO_REPLY, ICMP_ECHO_REQUEST};
use crate::ip::{
    ip_bswap, ip_bytes, ip_reply, IpHeader, IpProtocol, PROTOCOL_ICMP, PROTOCOL_UDP,
};
use crate::packet::{
    icmp_header_spec, ip_header_spec, udp_header_spec, Packet, REPLY_HEADROOM,
};
use crate::udp::{
    pseudo_header_bytes, udp_bswap, udp_bytes, udp_reply, UdpHeader,
};
use vstd::prelude::*;

verus! {

/// The serialized network and transport headers of an ICMP reply to a
/// request whose host-order IPv4 header and payload are given: the reply IP
/// header with total length set, swapped to wire order and checksummed,
/// then the ICMP header of the given type with its checksum over header and
/// payload.
pub open spec fn icmp_reply_headers(ip_host: IpHeader, ty: IcmpType, data: Seq<u8>) -> Seq<u8> {
    let ip1 = IpHeader { total_len: (24 + data.len()) as u16, ..ip_reply(ip_host) };
    let ip2 = ip_bswap(ip1);
    let ip3 = IpHeader {
        checksum: checksum_spec(ip_bytes(ip2).take(ip2.spec_header_len() as int), ip2.checksum),
        ..ip2
    };
    let ic = IcmpHeader { type_: ty, code: 0, checksum: 0 };
    let ic2 = IcmpHeader { checksum: checksum_spec(icmp_bytes(ic) + data, 0), ..ic };
    ip_bytes(ip3) + icmp_bytes(ic2)
}

/// The serialized network and transport headers of the UDP reply to a
/// request whose host-order IPv4 and UDP headers and reply payload are
/// given: ports and addresses swapped, identification set to 1, lengths
/// set, both headers swapped to wire order, the UDP checksum over segment
/// and pseudo-header, and the IP header checksum.
pub open spec fn udp_reply_headers(ip_host: IpHeader, udp_host: UdpHeader, data: Seq<u8>) -> Seq<
    u8,
> {
    let ip1 = IpHeader { total_len: (28 + data.len()) as u16, id: 1u16, ..ip_reply(ip_host) };
    let ip2 = ip_bswap(ip1);
    let u1 = UdpHeader { len: (8 + data.len()) as u16, ..udp_reply(udp_host) };
    let u2 = udp_bswap(u1);
    let u3 = UdpHeader {
        checksum: checksum2_spec(
            udp_bytes(u2) + data,
            pseudo_header_bytes(ip2.source, ip2.destination, u2.len),
            u2.checksum,
        ),
        ..u2
    };
    let ip3 = IpHeader {
        checksum: checksum_spec(ip_bytes(ip2).take(ip2.spec_header_len() as int), ip2.checksum),
        ..ip2
    };
    ip_bytes(ip3) + udp_bytes(u3)
}

/// Both checksums of the built ICMP reply validate: over seed zero, the IP
/// checksum computed over the reply's first 20 bytes is zero, and the ICMP
/// checksum computed over the remaining header bytes and the payload is
/// zero.
#[verifier::rlimit(60)]
pub proof fn lemma_icmp_reply_headers_validate(ip_host: IpHeader, ty: IcmpType, data: Seq<u8>)
    ensures
        checksum_spec(icmp_reply_headers(ip_host, ty, data).take(20), 0) == 0,
        checksum_spec(icmp_reply_headers(ip_host, ty, data).skip(20) + data, 0) == 0,
{
    let ip1 = IpHeader { total_len: (24 + data.len()) as u16, ..ip_reply(ip_host) };
    let ip2 = ip_bswap(ip1);
    let ip3 = IpHeader {
        checksum: checksum_spec(ip_bytes(ip2).take(ip2.spec_header_len() as int), ip2.checksum),
        ..ip2
    };
    crate::ip::lemma_ip_set_checksum_validates(ip2);
    let ic = IcmpHeader { type_: ty, code: 0, checksum: 0 };
    let ic2 = IcmpHeader { checksum: checksum_spec(icmp_bytes(ic) + data, 0), ..ic };
    crate::icmp::lemma_icmp_set_checksum_validates(ic, data);
    assert(icmp_reply_headers(ip_host, ty, data).take(20) =~= ip_bytes(ip3));
    assert(icmp_reply_headers(ip_host, ty, data).skip(20) =~= icmp_bytes(ic2));
}

/// Both checksums of the built UDP reply validate: over seed zero, the IP
/// checksum computed over the reply's first 20 bytes is zero, and the UDP
/// checksum computed over the remaining header bytes, the payload and the
/// reply's own pseudo-header is zero.
#[verifier::rlimit(60)]
pub proof fn lemma_udp_reply_headers_validate(
    ip_host: IpHeader,
    udp_host: UdpHeader,
    data: Seq<u8>,
)
    ensures
        checksum_spec(udp_reply_headers(ip_host, udp_host, data).take(20), 0) == 0,
        ({
            let ip2 = ip_bswap(
                IpHeader { total_len: (28 + data.len()) as u16, id: 1u16, ..ip_reply(ip_host) },
            );
            let u2 = udp_bswap(UdpHeader { len: (8 + data.len()) as u16, ..udp_reply(udp_host) });
            checksum2_spec(
                udp_reply_headers(ip_host, udp_host, data).skip(20) + data,
                pseudo_header_bytes(ip2.source, ip2.destination, u2.len),
                0,
            ) == 0
        }),
{
    let ip1 = IpHeader { total_len: (28 + data.len()) as u16, id: 1u16, ..ip_reply(ip_host) };
    let ip2 = ip_bswap(ip1);
    let ip3 = IpHeader {
        checksum: checksum_spec(ip_bytes(ip2).take(ip2.spec_header_len() as int), ip2.checksum),
        ..ip2
    };
    crate::ip::lemma_ip_set_checksum_validates(ip2);
    let u1 = UdpHeader { len: (8 + data.len()) as u16, ..udp_reply(udp_host) };
    let u2 = udp_bswap(u1);
    let u3 = UdpHeader {
        checksum: checksum2_spec(
            udp_bytes(u2) + data,
            pseudo_header_bytes(ip2.source, ip2.destination, u2.len),
            u2.checksum,
        ),
        ..u2
    };
    crate::udp::lemma_udp_set_checksum_validates(u2, data, ip2.source, ip2.destination);
    assert(udp_reply_headers(ip_host, udp_host, data).take(20) =~= ip_bytes(ip3));
    assert(udp_reply_headers(ip_host, udp_host, data).skip(20) =~= udp_bytes(u3));
}

/// Builds the reply packet for an ICMP echo: the payload is copied behind
/// the headroom, the ICMP header of the given type and the reply IP header
/// are prepended, lengths and checksums set.
pub fn build_icmp_reply(ip_host: &IpHeader, ty: IcmpType, data: &[u8]) -> (r: Packet)
    requires
        ip_host.native_endian,
        24 + data@.len() <= 0xFFFF,
    ensures
        r.wf(),
        r.l3_offset == Some((REPLY_HEADROOM - 24) as usize),
        r.l4_offset == Some((REPLY_HEADROOM - 4) as usize),
        r.data_offset == Some(REPLY_HEADROOM),
        r.data@.len() == REPLY_HEADROOM + data@.len(),
        (r.data@.skip(REPLY_HEADROOM as int - 24) == icmp_reply_headers(*ip_host, ty, data@)
            + data@),
{
    let mut reply_ip = ip_host.reply_header();
    reply_ip.total_len = (24 + data.len()) as u16;
    let mut icmp_h = IcmpHeader { type_: ty, code: 0, checksum: 0 };
    icmp_h.set_checksum(data);
    reply_ip.bswap();
    reply_ip.set_checksum();
    let mut reply = Packet::new_from_data(data);
    let ghost d0 = reply.data@;
    let icmp_b = icmp_h.to_bytes();
    reply.fill_l4(icmp_b.as_slice());
    let ghost d1 = reply.data@;
    let ip_b = reply_ip.to_bytes();
    reply.fill_l3(ip_b.as_slice());
    proof {
        assert(d1.skip(REPLY_HEADROOM as int - 4) =~= icmp_b@ + d0.skip(REPLY_HEADROOM as int));
        assert(reply.data@.skip(REPLY_HEADROOM as int - 24) =~= ip_b@ + d1.skip(
            REPLY_HEADROOM as int - 4,
        ));
        assert(reply.data@.skip(REPLY_HEADROOM as int - 24) =~= ip_b@ + icmp_b@ + data@);
        assert(ip_b@ + icmp_b@ + data@ =~= icmp_reply_headers(*ip_host, ty, data@) + data@);
    }
    reply
}

/// Builds the UDP reply packet: the payload is copied behind the headroom,
/// the reply UDP header and the reply IP header are prepended, lengths set,
/// identification set to 1, and both checksums computed in wire order.
pub fn build_udp_reply(ip_host: &IpHeader, udp_host: &UdpHeader, data: &[u8]) -> (r: Packet)
    requires
        ip_host.native_endian,
        28 + data@.len() <= 0xFFFF,
    ensures
        r.wf(),
        r.l3_offset == Some((REPLY_HEADROOM - 28) as usize),
        r.l4_offset == Some((REPLY_HEADROOM - 8) as usize),
        r.data_offset == Some(REPLY_HEADROOM),
        r.data@.len() == REPLY_HEADROOM + data@.len(),
        (r.data@.skip(REPLY_HEADROOM as int - 28) == udp_reply_headers(
            *ip_host,
            *udp_host,
            data@,
        ) + data@),
{
    let mut reply_udp = udp_host.reply_header();
    let mut reply_ip = ip_host.reply_header();
    reply_ip.total_len = (28 + data.len()) as u16;
    reply_ip.id = 1;
    reply_udp.len = (8 + data.len()) as u16;
    reply_udp.bswap();
    reply_ip.bswap();
    let source_ip = reply_ip.source;
    let destination_ip = reply_ip.destination;
    proof {
        lemma_swap16_involution((8 + data@.len()) as u16);
    }
    reply_udp.set_ip_checksum(source_ip, destination_ip, data);
    reply_ip.set_checksum();
    let mut reply = Packet::new_from_data(data);
    let ghost d0 = reply.data@;
    let udp_b = reply_udp.to_bytes();
    reply.fill_l4(udp_b.as_slice());
    let ghost d1 = reply.data@;
    let ip_b = reply_ip.to_bytes();
    reply.fill_l3(ip_b.as_slice());
    proof {
        assert(d1.skip(REPLY_HEADROOM as int - 8) =~= udp_b@ + d0.skip(REPLY_HEADROOM as int));
        assert(reply.data@.skip(REPLY_HEADROOM as int - 28) =~= ip_b@ + d1.skip(
            REPLY_HEADROOM as int - 8,
        ));
        assert(reply.data@.skip(REPLY_HEADROOM as int - 28) =~= ip_b@ + udp_b@ + data@);
        assert(ip_b@ + udp_b@ + data@ =~= udp_reply_headers(*ip_host, *udp_host, data@) + data@);
    }
    reply
}

/// The echo payload an inbound packet carries: everything from 4 bytes past
/// the transport offset (the identifier and sequence words travel with the
/// payload) to the end of the buffer.
pub open spec fn echo_payload(p: Packet) -> Seq<u8> {
    p.data@.skip(p.l4_offset->0 + 4)
}

/// What the reply to an ICMP echo request looks like: a well-formed packet
/// whose frame is the reply headers followed by the request's own payload.
pub open spec fn is_icmp_echo_reply(r: Packet, p: Packet) -> bool {
    let hip = ip_bswap(ip_header_spec(p)->0);
    let payload = echo_payload(p);
    &&& r.wf()
    &&& r.l3_offset == Some((REPLY_HEADROOM - 24) as usize)
    &&& r.data@.len() == REPLY_HEADROOM + payload.len()
    &&& (r.data@.skip(REPLY_HEADROOM as int - 24) == icmp_reply_headers(
        hip,
        IcmpType(ICMP_ECHO_REPLY),
        payload,
    ) + payload)
}

/// The fixed text sent back to any UDP sender.
pub open spec fn reply_text_bytes() -> Seq<u8> {
    seq![
        0x54u8, 0x68, 0x69, 0x73, 0x20, 0x69, 0x73, 0x20, 0x79, 0x6f, 0x75, 0x72, 0x20, 0x72,
        0x65, 0x70, 0x6c, 0x79, 0x21, 0x0d, 0x0a,
    ]
}

/// What the reply to a UDP datagram looks like: a well-formed packet whose
/// frame is the reply headers followed by the fixed reply text.
pub open spec fn is_udp_reply(r: Packet, p: Packet) -> bool {
    let hip = ip_bswap(ip_header_spec(p)->0);
    let hu = udp_bswap(udp_header_spec(p)->0);
    &&& r.wf()
    &&& r.l3_offset == Some((REPLY_HEADROOM - 28) as usize)
    &&& r.data@.len() == REPLY_HEADROOM + reply_text_bytes().len()
    &&& (r.data@.skip(REPLY_HEADROOM as int - 28) == udp_reply_headers(
        hip,
        hu,
        reply_text_bytes(),
    ) + reply_text_bytes())
}

/// The fixed text sent back to any UDP sender.
fn reply_text() -> (r: Vec<u8>)
    ensures
        r@ == reply_text_bytes(),
{
    let mut v: Vec<u8> = Vec::new();
    v.push(0x54);
    v.push(0x68);
    v.push(0x69);
    v.push(0x73);
    v.push(0x20);
    v.push(0x69);
    v.push(0x73);
    v.push(0x20);
    v.push(0x79);
    v.push(0x6f);
    v.push(0x75);
    v.push(0x72);
    v.push(0x20);
    v.push(0x72);
    v.push(0x65);
    v.push(0x70);
    v.push(0x6c);
    v.push(0x79);
    v.push(0x21);
    v.push(0x0d);
    v.push(0x0a);
    proof {
        assert(v@ =~= reply_text_bytes());
    }
    v
}

/// Answers an ICMP echo request: locates the payload 4 bytes past the
/// transport offset and builds the echo reply. Refused only when the
/// payload is too long for the reply's 16-bit total-length field.
pub fn handle_icmp_echo(packet: &mut Packet) -> (r: Option<Packet>)
    requires
        old(packet).wf(),
        old(packet).l4_offset is Some,
        old(packet).l4_offset->0 + 4 <= old(packet).data@.len(),
        ip_header_spec(*old(packet)) is Some,
    ensures
        final(packet).l3_offset == old(packet).l3_offset,
        final(packet).l4_offset == old(packet).l4_offset,
        final(packet).data@ == old(packet).data@,
        final(packet).data_offset == Some((old(packet).l4_offset->0 + 4) as usize),
        final(packet).wf(),
        (r is Some <==> 24 + echo_payload(*old(packet)).len() <= 0xFFFF),
        r is Some ==> is_icmp_echo_reply(r->0, *old(packet)),
{
    let l4 = packet.l4_offset.unwrap();
    let n = packet.data.len();
    proof {
        assert(l4 + 4 <= n);
    }
    packet.data_offset = Some(l4 + 4);
    let ip_wire = packet.ip_header().unwrap();
    let mut hip = ip_wire;
    hip.bswap();
    let payload = packet.data().unwrap();
    if payload.len() > 0xFFFF - 24 {
        return None;
    }
    Some(build_icmp_reply(&hip, IcmpType(ICMP_ECHO_REPLY), payload))
}

/// Routes an inbound ICMP message: an echo request is answered, every other
/// type is dropped.
pub fn handle_icmp(packet: &mut Packet) -> (r: Option<Packet>)
    requires
        old(packet).wf(),
        old(packet).l4_offset is Some,
        ip_header_spec(*old(packet)) is Some,
    ensures
        final(packet).l3_offset == old(packet).l3_offset,
        final(packet).l4_offset == old(packet).l4_offset,
        final(packet).data@ == old(packet).data@,
        final(packet).wf(),
        (r is Some <==> icmp_header_spec(*old(packet)) is Some && icmp_header_spec(
            *old(packet),
        )->0.type_ == IcmpType(ICMP_ECHO_REQUEST) && 24 + echo_payload(*old(packet)).len()
            <= 0xFFFF),
        r is Some ==> is_icmp_echo_reply(r->0, *old(packet)),
{
    let h = match packet.icmp_header() {
        None => {
            return None;
        },
        Some(h) => h,
    };
    if h.type_.0 == ICMP_ECHO_REQUEST {
        handle_icmp_echo(packet)
    } else {
        None
    }
}

/// Answers an inbound UDP datagram with the fixed reply text. Refused only
/// when no UDP header fits at the transport offset.
pub fn handle_udp(packet: &Packet) -> (r: Option<Packet>)
    requires
        packet.wf(),
        packet.l4_offset is Some,
        ip_header_spec(*packet) is Some,
    ensures
        (r is Some <==> udp_header_spec(*packet) is Some),
        r is Some ==> is_udp_reply(r->0, *packet),
{
    let u_wire = match packet.udp_header() {
        None => {
            return None;
        },
        Some(u) => u,
    };
    let mut hu = u_wire;
    hu.bswap();
    let ip_wire = packet.ip_header().unwrap();
    let mut hip = ip_wire;
    hip.bswap();
    let text = reply_text();
    Some(build_udp_reply(&hip, &hu, text.as_slice()))
}

/// The packet with its transport offset located 20 bytes past the network
/// offset, as `handle_ip` leaves it for a header without options.
pub open spec fn located_l4(p: Packet) -> Packet {
    Packet { l4_offset: Some((p.l3_offset->0 + 20) as usize), ..p }
}

/// An inbound frame that is routed to the ICMP echo handler: a parseable
/// IPv4 header without options carrying protocol 1, whose transport region
/// holds an ICMP header of echo-request type.
pub open spec fn dispatches_icmp_echo(p: Packet) -> bool {
    &&& ip_header_spec(p) is Some
    &&& ip_header_spec(p)->0.spec_header_len() == 20
    &&& ip_header_spec(p)->0.protocol == IpProtocol(PROTOCOL_ICMP)
    &&& icmp_header_spec(located_l4(p)) is Some
    &&& icmp_header_spec(located_l4(p))->0.type_ == IcmpType(ICMP_ECHO_REQUEST)
}

/// An inbound frame that is routed to the UDP handler: a parseable IPv4
/// header without options carrying protocol 17, whose transport region
/// holds a UDP header.
pub open spec fn dispatches_udp(p: Packet) -> bool {
    &&& ip_header_spec(p) is Some
    &&& ip_header_spec(p)->0.spec_header_len() == 20
    &&& ip_header_spec(p)->0.protocol == IpProtocol(PROTOCOL_UDP)
    &&& udp_header_spec(located_l4(p)) is Some
}

/// Routes an inbound IPv4 frame: refuses a frame whose network layer does
/// not parse (too short, or not version 4) or whose header declares
/// options, locates the transport layer, and dispatches by protocol number;
/// ICMP echo requests and UDP datagrams are answered with a reply packet,
/// everything else is dropped.
pub fn handle_ip(packet: &mut Packet) -> (r: Option<Packet>)
    requires
        old(packet).wf(),
        old(packet).data_offset is None,
    ensures
        final(packet).l3_offset == old(packet).l3_offset,
        final(packet).data@ == old(packet).data@,
        final(packet).wf(),
        (r is Some <==> (dispatches_icmp_echo(*old(packet)) && 24 + echo_payload(
            located_l4(*old(packet)),
        ).len() <= 0xFFFF) || dispatches_udp(*old(packet))),
        (dispatches_icmp_echo(*old(packet)) && 24 + echo_payload(located_l4(*old(packet))).len()
            <= 0xFFFF && r is Some) ==> is_icmp_echo_reply(r->0, located_l4(*old(packet))),
        dispatches_udp(*old(packet)) && r is Some ==> is_udp_reply(r->0, located_l4(*old(packet))),
{
    let ip = match packet.ip_header() {
        None => {
            return None;
        },
        Some(h) => h,
    };
    if ip.header_len() != 20 {
        return None;
    }
    let l3 = packet.l3_offset.unwrap();
    let n = packet.data.len();
    proof {
        assert(l3 + 20 <= n);
    }
    packet.l4_offset = Some(l3 + 20);
    proof {
        assert(*packet == located_l4(*old(packet)));
    }
    if ip.protocol.0 == PROTOCOL_ICMP {
        handle_icmp(packet)
    } else if ip.protocol.0 == PROTOCOL_UDP {
        handle_udp(packet)
    } else {
        None
    }
}

} // verus!
