//! The minimal 4-byte ICMP header: type, code and checksum. The checksum
//! spans the header and the message bytes that follow it, so the checksum
//! routines take the payload explicitly.

use crate::checksum::{checksum_spec, lemma_stored_checksum_validates, network_checksum};
use vstd::prelude::*;

verus! {

/// The ICMP message type of an echo reply.
pub const ICMP_ECHO_REPLY: u8 = 0;

/// The ICMP message type of a destination-unreachable report.
pub const ICMP_DESTINATION_UNREACHABLE: u8 = 3;

/// The ICMP message type of a source quench.
pub const ICMP_SOURCE_QUENCH: u8 = 4;

/// The ICMP message type of a redirect.
pub const ICMP_REDIRECT_MESSAGE: u8 = 5;

/// The ICMP message type of an echo request.
pub const ICMP_ECHO_REQUEST: u8 = 8;

/// The ICMP message type of a router advertisement.
pub const ICMP_ROUTER_ADVERTISEMENT: u8 = 9;

/// The ICMP message type of a router solicitation.
pub const ICMP_ROUTER_SOLICITATION: u8 = 10;

/// The ICMP message type of a time-exceeded report.
pub const ICMP_TIME_EXCEEDED: u8 = 11;

/// The ICMP message type of a bad-IP-header report.
pub const ICMP_BAD_IP_HEADER: u8 = 12;

/// An ICMP message type.
#[derive(Debug, Copy, Clone, PartialEq, Eq, Structural)]
pub struct IcmpType(pub u8);

/// The minimal ICMP header. For echo messages the 4-byte identifier and
/// sequence field is treated as an opaque payload prefix, not a named field.
/// The checksum field holds the value its wire bytes spell low-byte-first.
#[derive(Debug, Copy, Clone, PartialEq, Eq, Structural)]
pub struct IcmpHeader {
    pub type_: IcmpType,
    pub code: u8,
    pub checksum: u16,
}

/// The 4 wire bytes of an ICMP header.
pub open spec fn icmp_bytes(h: IcmpHeader) -> Seq<u8> {
    seq![h.type_.0, h.code, (h.checksum % 256) as u8, (h.checksum / 256) as u8]
}

/// The header spelled by the first 4 bytes of a region.
pub open spec fn icmp_parse(b: Seq<u8>) -> IcmpHeader {
    IcmpHeader { type_: IcmpType(b[0]), code: b[1], checksum: (b[2] + b[3] * 256) as u16 }
}

/// A header whose checksum field was set from its own bytes and the payload
/// (the field holding zero during computation) validates: the checksum over
/// header and payload with seed zero computes to zero.
pub proof fn lemma_icmp_set_checksum_validates(h: IcmpHeader, payload: Seq<u8>)
    requires
        h.checksum == 0,
    ensures
        ({
            let c = checksum_spec(icmp_bytes(h) + payload, 0);
            checksum_spec(icmp_bytes(IcmpHeader { checksum: c, ..h }) + payload, 0) == 0
        }),
{
    let b = icmp_bytes(h) + payload;
    let c = checksum_spec(b, 0);
    lemma_stored_checksum_validates(b, 2);
    assert(icmp_bytes(IcmpHeader { checksum: c, ..h }) + payload =~= b.update(
        2,
        (c % 256) as u8,
    ).update(3, (c / 256) as u8));
}

impl IcmpHeader {
    /// The 4 wire bytes of the header.
    pub fn to_bytes(&self) -> (r: Vec<u8>)
        ensures
            r@ == icmp_bytes(*self),
            r@.len() == 4,
    {
        let mut v: Vec<u8> = Vec::new();
        v.push(self.type_.0);
        v.push(self.code);
        v.push((self.checksum % 256) as u8);
        v.push((self.checksum / 256) as u8);
        proof {
            assert(v@ =~= icmp_bytes(*self));
        }
        v
    }

    /// The header spelled by the first 4 bytes of a region.
    pub fn from_bytes(b: &[u8]) -> (r: IcmpHeader)
        requires
            b@.len() >= 4,
        ensures
            r == icmp_parse(b@),
    {
        IcmpHeader {
            type_: IcmpType(b[0]),
            code: b[1],
            checksum: b[2] as u16 + (b[3] as u16) * 256,
        }
    }

    /// The internet checksum over the header's 4 bytes followed by the
    /// message payload, seeded with the stored checksum field so that the
    /// field's own word cancels out of the sum.
    pub fn checksum(&self, payload: &[u8]) -> (r: u16)
        ensures
            r == checksum_spec(icmp_bytes(*self) + payload@, self.checksum),
    {
        let mut region = self.to_bytes();
        let mut i: usize = 0;
        while i < payload.len()
            invariant
                i <= payload@.len(),
                region@ == icmp_bytes(*self) + payload@.take(i as int),
            decreases payload@.len() - i,
        {
            region.push(payload[i]);
            proof {
                assert(region@ =~= icmp_bytes(*self) + payload@.take(i + 1));
            }
            i = i + 1;
        }
        proof {
            assert(region@ =~= icmp_bytes(*self) + payload@);
        }
        network_checksum(region.as_slice(), self.checksum)
    }

    /// Stores the checksum computed over the header and the payload back
    /// into the checksum field.
    pub fn set_checksum(&mut self, payload: &[u8])
        ensures
            *final(self) == (IcmpHeader {
                checksum: checksum_spec(
                    icmp_bytes(*old(self)) + payload@,
                    old(self).checksum,
                ),
                ..*old(self)
            }),
    {
        self.checksum = self.checksum(payload);
    }
}

} // verus!
