//! The 8-byte UDP header, its byte-order conversion, the reply
//! transformation, and the UDP/IP checksum that spans the segment and the
//! derived pseudo-header.

use crate::checksum::{
    checksum2_spec, lemma_stored_checksum2_validates, lemma_swap16_involution,
    network_checksum_2part, swap16, swap_u16,
};
use crate::ip::PROTOCOL_UDP;
use vstd::prelude::*;

verus! {

/// The 8-byte UDP header. Each field holds the value its wire bytes spell
/// low-byte-first; `bswap` toggles all four fields between wire and host
/// order.
#[derive(Debug, Copy, Clone, PartialEq, Eq, Structural)]
pub struct UdpHeader {
    pub source_port: u16,
    pub destination_port: u16,
    pub len: u16,
    pub checksum: u16,
}

/// The 8 wire bytes of a UDP header, each field low byte first.
pub open spec fn udp_bytes(h: UdpHeader) -> Seq<u8> {
    seq![
        (h.source_port % 256) as u8,
        (h.source_port / 256) as u8,
        (h.destination_port % 256) as u8,
        (h.destination_port / 256) as u8,
        (h.len % 256) as u8,
        (h.len / 256) as u8,
        (h.checksum % 256) as u8,
        (h.checksum / 256) as u8,
    ]
}

/// The header spelled by the first 8 bytes of a region.
pub open spec fn udp_parse(b: Seq<u8>) -> UdpHeader {
    UdpHeader {
        source_port: (b[0] + b[1] * 256) as u16,
        destination_port: (b[2] + b[3] * 256) as u16,
        len: (b[4] + b[5] * 256) as u16,
        checksum: (b[6] + b[7] * 256) as u16,
    }
}

/// The header with every field byte-swapped.
pub open spec fn udp_bswap(h: UdpHeader) -> UdpHeader {
    UdpHeader {
        source_port: swap16(h.source_port),
        destination_port: swap16(h.destination_port),
        len: swap16(h.len),
        checksum: swap16(h.checksum),
    }
}

/// The reply to a header: ports swapped, length copied, checksum cleared.
pub open spec fn udp_reply(h: UdpHeader) -> UdpHeader {
    UdpHeader {
        source_port: h.destination_port,
        destination_port: h.source_port,
        len: h.len,
        checksum: 0,
    }
}

/// The 12 bytes of the UDP/IP pseudo-header: both addresses in wire order,
/// a zero byte, the UDP protocol number, and the UDP length field in wire
/// order. It joins the checksum computation and is never transmitted.
pub open spec fn pseudo_header_bytes(source_ip: u32, destination_ip: u32, len: u16) -> Seq<u8> {
    seq![
        (source_ip % 256) as u8,
        (source_ip / 256 % 256) as u8,
        (source_ip / 0x10000 % 256) as u8,
        (source_ip / 0x1000000) as u8,
        (destination_ip % 256) as u8,
        (destination_ip / 256 % 256) as u8,
        (destination_ip / 0x10000 % 256) as u8,
        (destination_ip / 0x1000000) as u8,
        0u8,
        PROTOCOL_UDP,
        (len % 256) as u8,
        (len / 256) as u8,
    ]
}

/// Swapping a header's byte order twice gives the header back, bit for bit.
pub proof fn lemma_udp_bswap_involution(h: UdpHeader)
    ensures
        udp_bswap(udp_bswap(h)) == h,
{
    lemma_swap16_involution(h.source_port);
    lemma_swap16_involution(h.destination_port);
    lemma_swap16_involution(h.len);
    lemma_swap16_involution(h.checksum);
}

/// A header whose checksum field was set from its segment and pseudo-header
/// (the field holding zero during computation) validates: the two-region
/// checksum over the updated segment and the same pseudo-header computes to
/// zero.
pub proof fn lemma_udp_set_checksum_validates(
    h: UdpHeader,
    payload: Seq<u8>,
    source_ip: u32,
    destination_ip: u32,
)
    requires
        h.checksum == 0,
    ensures
        ({
            let b = pseudo_header_bytes(source_ip, destination_ip, h.len);
            let c = checksum2_spec(udp_bytes(h) + payload, b, 0);
            checksum2_spec(udp_bytes(UdpHeader { checksum: c, ..h }) + payload, b, 0) == 0
        }),
{
    let a = udp_bytes(h) + payload;
    let b = pseudo_header_bytes(source_ip, destination_ip, h.len);
    let c = checksum2_spec(a, b, 0);
    lemma_stored_checksum2_validates(a, b, 6);
    assert(udp_bytes(UdpHeader { checksum: c, ..h }) + payload =~= a.update(
        6,
        (c % 256) as u8,
    ).update(7, (c / 256) as u8));
}

impl UdpHeader {
    /// The reply to this header: ports swapped, length copied, checksum
    /// cleared for the builder to fill.
    pub fn reply_header(&self) -> (r: UdpHeader)
        ensures
            r == udp_reply(*self),
            r.source_port == self.destination_port,
            r.destination_port == self.source_port,
    {
        UdpHeader {
            source_port: self.destination_port,
            destination_port: self.source_port,
            len: self.len,
            checksum: 0,
        }
    }

    /// Toggles every field between wire and host order.
    pub fn bswap(&mut self)
        ensures
            *final(self) == udp_bswap(*old(self)),
    {
        self.source_port = swap_u16(self.source_port);
        self.destination_port = swap_u16(self.destination_port);
        self.len = swap_u16(self.len);
        self.checksum = swap_u16(self.checksum);
    }

    /// The 8 wire bytes of the header.
    pub fn to_bytes(&self) -> (r: Vec<u8>)
        ensures
            r@ == udp_bytes(*self),
            r@.len() == 8,
    {
        let mut v: Vec<u8> = Vec::new();
        v.push((self.source_port % 256) as u8);
        v.push((self.source_port / 256) as u8);
        v.push((self.destination_port % 256) as u8);
        v.push((self.destination_port / 256) as u8);
        v.push((self.len % 256) as u8);
        v.push((self.len / 256) as u8);
        v.push((self.checksum % 256) as u8);
        v.push((self.checksum / 256) as u8);
        proof {
            assert(v@ =~= udp_bytes(*self));
        }
        v
    }

    /// The header spelled by the first 8 bytes of a region.
    pub fn from_bytes(b: &[u8]) -> (r: UdpHeader)
        requires
            b@.len() >= 8,
        ensures
            r == udp_parse(b@),
    {
        UdpHeader {
            source_port: b[0] as u16 + (b[1] as u16) * 256,
            destination_port: b[2] as u16 + (b[3] as u16) * 256,
            len: b[4] as u16 + (b[5] as u16) * 256,
            checksum: b[6] as u16 + (b[7] as u16) * 256,
        }
    }

    /// The UDP/IP checksum: the two-region internet checksum over the
    /// header's 8 bytes followed by the payload, then the pseudo-header
    /// built from the addresses and the length field, seeded with the
    /// stored checksum field. The header must be fully in wire order with
    /// its length field spelling exactly the segment length.
    pub fn ip_checksum(&self, source_ip: u32, destination_ip: u32, payload: &[u8]) -> (r: u16)
        requires
            swap16(self.len) == 8 + payload@.len(),
        ensures
            (r == checksum2_spec(
                udp_bytes(*self) + payload@,
                pseudo_header_bytes(source_ip, destination_ip, self.len),
                self.checksum,
            )),
    {
        let mut segment = self.to_bytes();
        let mut i: usize = 0;
        while i < payload.len()
            invariant
                i <= payload@.len(),
                segment@ == udp_bytes(*self) + payload@.take(i as int),
            decreases payload@.len() - i,
        {
            segment.push(payload[i]);
            proof {
                assert(segment@ =~= udp_bytes(*self) + payload@.take(i + 1));
            }
            i = i + 1;
        }
        proof {
            assert(segment@ =~= udp_bytes(*self) + payload@);
        }
        let mut pseudo: Vec<u8> = Vec::new();
        pseudo.push((source_ip % 256) as u8);
        pseudo.push((source_ip / 256 % 256) as u8);
        pseudo.push((source_ip / 0x10000 % 256) as u8);
        pseudo.push((source_ip / 0x1000000) as u8);
        pseudo.push((destination_ip % 256) as u8);
        pseudo.push((destination_ip / 256 % 256) as u8);
        pseudo.push((destination_ip / 0x10000 % 256) as u8);
        pseudo.push((destination_ip / 0x1000000) as u8);
        pseudo.push(0u8);
        pseudo.push(PROTOCOL_UDP);
        pseudo.push((self.len % 256) as u8);
        pseudo.push((self.len / 256) as u8);
        proof {
            assert(pseudo@ =~= pseudo_header_bytes(source_ip, destination_ip, self.len));
        }
        network_checksum_2part(segment.as_slice(), pseudo.as_slice(), self.checksum)
    }

    /// Stores the UDP/IP checksum back into the checksum field.
    pub fn set_ip_checksum(&mut self, source_ip: u32, destination_ip: u32, payload: &[u8])
        requires
            swap16(old(self).len) == 8 + payload@.len(),
        ensures
            *final(self) == (UdpHeader {
                checksum: checksum2_spec(
                    udp_bytes(*old(self)) + payload@,
                    pseudo_header_bytes(source_ip, destination_ip, old(self).len),
                    old(self).checksum,
                ),
                ..*old(self)
            }),
    {
        self.checksum = self.ip_checksum(source_ip, destination_ip, payload);
    }
}

} // verus!
