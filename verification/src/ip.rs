//! The fixed-layout IPv4 header: explicit fields in place of a raw byte
//! overlay, with byte-order conversion tracked by an explicit tag instead of
//! a borrowed header bit, per-header checksum computation, and the reply
//! transformation.

use crate::checksum::{
    checksum_spec, lemma_stored_checksum_validates, lemma_swap16_involution,
    lemma_swap32_involution, network_checksum, swap16, swap32, swap_u16, swap_u32,
};
use vstd::prelude::*;

verus! {

/// The protocol number of ICMP.
pub const PROTOCOL_ICMP: u8 = 1;

/// The protocol number of TCP.
pub const PROTOCOL_TCP: u8 = 6;

/// The protocol number of UDP.
pub const PROTOCOL_UDP: u8 = 17;

/// An IP protocol number.
#[derive(Debug, Copy, Clone, PartialEq, Eq, Structural)]
pub struct IpProtocol(pub u8);

/// A 20-byte IPv4 header (options unsupported) held as explicit fields.
/// Multi-byte fields hold the value their wire bytes spell low-byte-first:
/// in that state `native_endian` is false and `bswap` converts every
/// multi-byte field to host order, toggling the tag. The tag is bookkeeping
/// beside the header and is never written to the wire.
#[derive(Debug, Copy, Clone, PartialEq, Eq, Structural)]
pub struct IpHeader {
    pub version_ihl: u8,
    pub dscp_ecn: u8,
    pub total_len: u16,
    pub id: u16,
    pub flags_frag_offset: u16,
    pub ttl: u8,
    pub protocol: IpProtocol,
    pub checksum: u16,
    pub source: u32,
    pub destination: u32,
    pub native_endian: bool,
}

/// The 20 wire bytes of a header: single bytes as they are, 16-bit fields
/// low byte first, 32-bit fields low byte first.
pub open spec fn ip_bytes(h: IpHeader) -> Seq<u8> {
    seq![
        h.version_ihl,
        h.dscp_ecn,
        (h.total_len % 256) as u8,
        (h.total_len / 256) as u8,
        (h.id % 256) as u8,
        (h.id / 256) as u8,
        (h.flags_frag_offset % 256) as u8,
        (h.flags_frag_offset / 256) as u8,
        h.ttl,
        h.protocol.0,
        (h.checksum % 256) as u8,
        (h.checksum / 256) as u8,
        (h.source % 256) as u8,
        (h.source / 256 % 256) as u8,
        (h.source / 0x10000 % 256) as u8,
        (h.source / 0x1000000) as u8,
        (h.destination % 256) as u8,
        (h.destination / 256 % 256) as u8,
        (h.destination / 0x10000 % 256) as u8,
        (h.destination / 0x1000000) as u8,
    ]
}

/// The header spelled by the first 20 bytes of a region, in wire state.
pub open spec fn ip_parse(b: Seq<u8>) -> IpHeader {
    IpHeader {
        version_ihl: b[0],
        dscp_ecn: b[1],
        total_len: (b[2] + b[3] * 256) as u16,
        id: (b[4] + b[5] * 256) as u16,
        flags_frag_offset: (b[6] + b[7] * 256) as u16,
        ttl: b[8],
        protocol: IpProtocol(b[9]),
        checksum: (b[10] + b[11] * 256) as u16,
        source: (b[12] + b[13] * 256 + b[14] * 0x10000 + b[15] * 0x1000000) as u32,
        destination: (b[16] + b[17] * 256 + b[18] * 0x10000 + b[19] * 0x1000000) as u32,
        native_endian: false,
    }
}

/// The header with every multi-byte field byte-swapped and the tag toggled.
pub open spec fn ip_bswap(h: IpHeader) -> IpHeader {
    IpHeader {
        total_len: swap16(h.total_len),
        id: swap16(h.id),
        flags_frag_offset: swap16(h.flags_frag_offset),
        checksum: swap16(h.checksum),
        source: swap32(h.source),
        destination: swap32(h.destination),
        native_endian: !h.native_endian,
        ..h
    }
}

/// The reply to a header: addresses swapped, TTL decremented (saturating at
/// zero), total length and checksum cleared for the builder to fill,
/// identification, DSCP/ECN, flags and fragment offset preserved, protocol
/// copied.
pub open spec fn ip_reply(h: IpHeader) -> IpHeader {
    IpHeader {
        version_ihl: 0x45,
        dscp_ecn: h.dscp_ecn,
        total_len: 0,
        id: h.id,
        flags_frag_offset: h.flags_frag_offset,
        ttl: if h.ttl == 0 {
            0
        } else {
            (h.ttl - 1) as u8
        },
        protocol: h.protocol,
        checksum: 0,
        source: h.destination,
        destination: h.source,
        native_endian: h.native_endian,
    }
}

/// Swapping a header's byte order twice gives the header back, bit for bit.
pub proof fn lemma_ip_bswap_involution(h: IpHeader)
    ensures
        ip_bswap(ip_bswap(h)) == h,
{
    lemma_swap16_involution(h.total_len);
    lemma_swap16_involution(h.id);
    lemma_swap16_involution(h.flags_frag_offset);
    lemma_swap16_involution(h.checksum);
    lemma_swap32_involution(h.source);
    lemma_swap32_involution(h.destination);
}

/// A header without options whose checksum field was set from its own bytes
/// (the field holding zero during computation) validates: the checksum over
/// its wire bytes with seed zero computes to zero. Together with the
/// checksum engine's corruption law, any single corrupted byte then makes
/// that computation nonzero again.
pub proof fn lemma_ip_set_checksum_validates(h: IpHeader)
    requires
        h.checksum == 0,
        h.spec_header_len() == 20,
    ensures
        ({
            let c = checksum_spec(ip_bytes(h).take(h.spec_header_len() as int), 0);
            checksum_spec(ip_bytes(IpHeader { checksum: c, ..h }), 0) == 0
        }),
{
    let b = ip_bytes(h);
    let c = checksum_spec(b.take(h.spec_header_len() as int), 0);
    assert(b.take(h.spec_header_len() as int) =~= b);
    lemma_stored_checksum_validates(b, 10);
    assert(ip_bytes(IpHeader { checksum: c, ..h }) =~= b.update(10, (c % 256) as u8).update(
        11,
        (c / 256) as u8,
    ));
}

impl IpHeader {
    /// The version nibble.
    pub open spec fn spec_version(self) -> u8 {
        self.version_ihl / 16
    }

    /// The header length in bytes: the low nibble counts 4-byte words.
    pub open spec fn spec_header_len(self) -> u8 {
        ((self.version_ihl % 16) * 4) as u8
    }

    /// The version nibble; safe to read in either byte-order state.
    pub fn version(&self) -> (r: u8)
        ensures
            r == self.spec_version(),
    {
        self.version_ihl / 16
    }

    /// The header length in bytes; safe to read in either byte-order state.
    pub fn header_len(&self) -> (r: u8)
        ensures
            r == self.spec_header_len(),
    {
        (self.version_ihl % 16) * 4
    }

    /// Whether the multi-byte fields are currently in host order.
    pub fn is_native_endian(&self) -> (r: bool)
        ensures
            r == self.native_endian,
    {
        self.native_endian
    }

    /// The reserved flag bit; the header must be in host order.
    pub fn reserved_bit(&self) -> (r: bool)
        requires
            self.native_endian,
        ensures
            r == (self.flags_frag_offset & 0x8000u16 != 0),
    {
        self.flags_frag_offset & 0x8000 != 0
    }

    /// The don't-fragment bit; the header must be in host order.
    pub fn df_bit(&self) -> (r: bool)
        requires
            self.native_endian,
        ensures
            r == (self.flags_frag_offset & 0x4000u16 != 0),
    {
        self.flags_frag_offset & 0x4000 != 0
    }

    /// The more-fragments bit; the header must be in host order.
    pub fn mf_bit(&self) -> (r: bool)
        requires
            self.native_endian,
        ensures
            r == (self.flags_frag_offset & 0x2000u16 != 0),
    {
        self.flags_frag_offset & 0x2000 != 0
    }

    /// The fragment offset in bytes (the 13-bit field counts 8-byte units);
    /// the header must be in host order.
    pub fn frag_offset(&self) -> (r: usize)
        requires
            self.native_endian,
        ensures
            r == (self.flags_frag_offset & 0x1FFF) as usize * 8,
    {
        (self.flags_frag_offset & 0x1FFF) as usize * 8
    }

    /// Toggles every multi-byte field between wire and host order and flips
    /// the order tag.
    pub fn bswap(&mut self)
        ensures
            *final(self) == ip_bswap(*old(self)),
    {
        self.total_len = swap_u16(self.total_len);
        self.id = swap_u16(self.id);
        self.flags_frag_offset = swap_u16(self.flags_frag_offset);
        self.checksum = swap_u16(self.checksum);
        self.source = swap_u32(self.source);
        self.destination = swap_u32(self.destination);
        self.native_endian = !self.native_endian;
    }

    /// The 20 wire bytes of the header.
    pub fn to_bytes(&self) -> (r: Vec<u8>)
        ensures
            r@ == ip_bytes(*self),
            r@.len() == 20,
    {
        let mut v: Vec<u8> = Vec::new();
        v.push(self.version_ihl);
        v.push(self.dscp_ecn);
        v.push((self.total_len % 256) as u8);
        v.push((self.total_len / 256) as u8);
        v.push((self.id % 256) as u8);
        v.push((self.id / 256) as u8);
        v.push((self.flags_frag_offset % 256) as u8);
        v.push((self.flags_frag_offset / 256) as u8);
        v.push(self.ttl);
        v.push(self.protocol.0);
        v.push((self.checksum % 256) as u8);
        v.push((self.checksum / 256) as u8);
        v.push((self.source % 256) as u8);
        v.push((self.source / 256 % 256) as u8);
        v.push((self.source / 0x10000 % 256) as u8);
        v.push((self.source / 0x1000000) as u8);
        v.push((self.destination % 256) as u8);
        v.push((self.destination / 256 % 256) as u8);
        v.push((self.destination / 0x10000 % 256) as u8);
        v.push((self.destination / 0x1000000) as u8);
        proof {
            assert(v@ =~= ip_bytes(*self));
        }
        v
    }

    /// The header spelled by the first 20 bytes of a region, in wire state.
    pub fn from_bytes(b: &[u8]) -> (r: IpHeader)
        requires
            b@.len() >= 20,
        ensures
            r == ip_parse(b@),
    {
        IpHeader {
            version_ihl: b[0],
            dscp_ecn: b[1],
            total_len: b[2] as u16 + (b[3] as u16) * 256,
            id: b[4] as u16 + (b[5] as u16) * 256,
            flags_frag_offset: b[6] as u16 + (b[7] as u16) * 256,
            ttl: b[8],
            protocol: IpProtocol(b[9]),
            checksum: b[10] as u16 + (b[11] as u16) * 256,
            source: b[12] as u32 + (b[13] as u32) * 256 + (b[14] as u32) * 0x10000 + (b[15]
                as u32) * 0x1000000,
            destination: b[16] as u32 + (b[17] as u32) * 256 + (b[18] as u32) * 0x10000 + (b[19]
                as u32) * 0x1000000,
            native_endian: false,
        }
    }

    /// The internet checksum over the header's own `header_len()` bytes,
    /// seeded with the stored checksum field so that the field's own word
    /// cancels out of the sum; the header must be in wire order.
    pub fn checksum(&self) -> (r: u16)
        requires
            !self.native_endian,
            self.spec_header_len() <= 20,
        ensures
            (r == checksum_spec(
                ip_bytes(*self).take(self.spec_header_len() as int),
                self.checksum,
            )),
    {
        let bytes = self.to_bytes();
        let hl = self.header_len() as usize;
        let region = vstd::slice::slice_subrange(bytes.as_slice(), 0, hl);
        network_checksum(region, self.checksum)
    }

    /// Stores the computed checksum back into the checksum field.
    pub fn set_checksum(&mut self)
        requires
            !old(self).native_endian,
            old(self).spec_header_len() <= 20,
        ensures
            *final(self) == (IpHeader {
                checksum: checksum_spec(
                    ip_bytes(*old(self)).take(old(self).spec_header_len() as int),
                    old(self).checksum,
                ),
                ..*old(self)
            }),
    {
        self.checksum = self.checksum();
    }

    /// The reply to this header: addresses swapped, TTL decremented
    /// (saturating at zero), total length and checksum cleared,
    /// identification, DSCP/ECN and fragment fields preserved, protocol
    /// copied.
    pub fn reply_header(&self) -> (r: IpHeader)
        ensures
            r == ip_reply(*self),
            r.source == self.destination,
            r.destination == self.source,
            self.ttl > 0 ==> r.ttl == self.ttl - 1,
            self.ttl == 0 ==> r.ttl == 0,
    {
        IpHeader {
            version_ihl: 0x45,
            dscp_ecn: self.dscp_ecn,
            total_len: 0,
            id: self.id,
            flags_frag_offset: self.flags_frag_offset,
            ttl: if self.ttl == 0 {
                0
            } else {
                self.ttl - 1
            },
            protocol: self.protocol,
            checksum: 0,
            source: self.destination,
            destination: self.source,
            native_endian: self.native_endian,
        }
    }
}

} // verus!
