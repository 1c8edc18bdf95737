//! The packet buffer: one owned byte buffer and three optional offsets into
//! it (network-layer start, transport-layer start, payload start). An
//! inbound frame anchors the network layer at offset zero; an outbound
//! buffer is allocated with leading headroom so that transport and network
//! headers can be written backward before the payload.

use crate::icmp::{icmp_parse, IcmpHeader};
use crate::ip::{ip_parse, IpHeader};
use crate::udp::{udp_parse, UdpHeader};
use vstd::prelude::*;
use vstd::slice::slice_subrange;

verus! {

/// The leading free space of a reply buffer, generously larger than the
/// largest transport-plus-network header combination written backward into
/// it (an IPv4 header and a UDP or ICMP header).
pub const REPLY_HEADROOM: usize = 128;

/// A read-only snapshot of a buffer with all three layer offsets located.
pub struct PacketView<'a> {
    pub l3_offset: usize,
    pub l4_offset: usize,
    pub data_offset: usize,
    pub data: &'a [u8],
}

/// An owned byte buffer and three optional offsets into it: network-layer
/// start, transport-layer start, payload start. An unset offset means that
/// layer has not been located or written yet.
pub struct Packet {
    pub l3_offset: Option<usize>,
    pub l4_offset: Option<usize>,
    pub data_offset: Option<usize>,
    pub data: Vec<u8>,
}

/// The IPv4 header parsed at the network offset: refused when that offset
/// is unset, when fewer than 20 bytes remain there, or when the version
/// nibble is not 4.
pub open spec fn ip_header_spec(p: Packet) -> Option<IpHeader> {
    let h = ip_parse(p.data@.skip(p.l3_offset->0 as int));
    if p.l3_offset is Some && p.l3_offset->0 + 20 <= p.data@.len() && h.spec_version() == 4 {
        Some(h)
    } else {
        None
    }
}

/// The ICMP header parsed at the transport offset: refused when that offset
/// is unset or fewer than 4 bytes remain there.
pub open spec fn icmp_header_spec(p: Packet) -> Option<IcmpHeader> {
    if p.l4_offset is Some && p.l4_offset->0 + 4 <= p.data@.len() {
        Some(icmp_parse(p.data@.skip(p.l4_offset->0 as int)))
    } else {
        None
    }
}

/// The UDP header parsed at the transport offset: refused when that offset
/// is unset or fewer than 8 bytes remain there.
pub open spec fn udp_header_spec(p: Packet) -> Option<UdpHeader> {
    if p.l4_offset is Some && p.l4_offset->0 + 8 <= p.data@.len() {
        Some(udp_parse(p.data@.skip(p.l4_offset->0 as int)))
    } else {
        None
    }
}

/// Copies `src` into `dst` starting at `start`, leaving the rest unchanged.
fn copy_into(dst: &mut Vec<u8>, start: usize, src: &[u8])
    requires
        start + src@.len() <= old(dst)@.len(),
    ensures
        final(dst)@.len() == old(dst)@.len(),
        (final(dst)@ == old(dst)@.take(start as int) + src@ + old(dst)@.skip(
            start + src@.len(),
        )),
{
    let dlen = dst.len();
    let mut i: usize = 0;
    while i < src.len()
        invariant
            i <= src@.len(),
            start + src@.len() <= dlen,
            dst@.len() == dlen,
            dst@.len() == old(dst)@.len(),
            forall|j: int| 0 <= j < start ==> dst@[j] == old(dst)@[j],
            forall|j: int| 0 <= j < i ==> dst@[start + j] == src@[j],
            forall|j: int| start + src@.len() <= j < dst@.len() ==> dst@[j] == old(dst)@[j],
        decreases src@.len() - i,
    {
        dst[start + i] = src[i];
        i = i + 1;
    }
    proof {
        assert(dst@ =~= old(dst)@.take(start as int) + src@ + old(dst)@.skip(
            start + src@.len(),
        ));
    }
}

impl Packet {
    /// Offsets, where present, lie within the buffer and never decrease
    /// from network to transport to payload.
    pub open spec fn wf(self) -> bool {
        &&& (self.l3_offset is Some ==> self.l3_offset->0 <= self.data@.len())
        &&& (self.l4_offset is Some ==> self.l4_offset->0 <= self.data@.len())
        &&& (self.data_offset is Some ==> self.data_offset->0 <= self.data@.len())
        &&& (self.l3_offset is Some && self.l4_offset is Some ==> self.l3_offset->0
            <= self.l4_offset->0)
        &&& (self.l4_offset is Some && self.data_offset is Some ==> self.l4_offset->0
            <= self.data_offset->0)
        &&& (self.l3_offset is Some && self.data_offset is Some ==> self.l3_offset->0
            <= self.data_offset->0)
    }

    /// Wraps a received frame: the network layer starts at offset zero, the
    /// other layers are not yet located.
    pub fn new(data: Vec<u8>) -> (r: Packet)
        ensures
            r.data@ == data@,
            r.l3_offset == Some(0usize),
            r.l4_offset is None,
            r.data_offset is None,
            r.wf(),
    {
        Packet { data, l3_offset: Some(0), l4_offset: None, data_offset: None }
    }

    /// Allocates a reply buffer: `REPLY_HEADROOM` zero bytes of leading
    /// free space, then a copy of the payload; only the payload offset is
    /// set.
    pub fn new_from_data(data: &[u8]) -> (r: Packet)
        ensures
            r.l3_offset is None,
            r.l4_offset is None,
            r.data_offset == Some(REPLY_HEADROOM),
            r.data@.len() == REPLY_HEADROOM + data@.len(),
            r.data@.skip(REPLY_HEADROOM as int) == data@,
            forall|j: int| 0 <= j < REPLY_HEADROOM ==> r.data@[j] == 0,
            r.wf(),
    {
        let mut buf: Vec<u8> = Vec::new();
        let mut i: usize = 0;
        while i < REPLY_HEADROOM
            invariant
                buf@.len() == i,
                i <= REPLY_HEADROOM,
                forall|j: int| 0 <= j < i ==> buf@[j] == 0,
            decreases REPLY_HEADROOM - i,
        {
            buf.push(0);
            i = i + 1;
        }
        let mut k: usize = 0;
        while k < data.len()
            invariant
                k <= data@.len(),
                buf@.len() == REPLY_HEADROOM + k,
                forall|j: int| 0 <= j < REPLY_HEADROOM ==> buf@[j] == 0,
                forall|j: int| 0 <= j < k ==> buf@[REPLY_HEADROOM + j] == data@[j],
            decreases data@.len() - k,
        {
            buf.push(data[k]);
            k = k + 1;
        }
        let r = Packet {
            l3_offset: None,
            l4_offset: None,
            data_offset: Some(REPLY_HEADROOM),
            data: buf,
        };
        proof {
            assert(r.data@.skip(REPLY_HEADROOM as int) =~= data@);
        }
        r
    }

    /// Copies a serialized transport header into the headroom immediately
    /// before the payload and records its start as the transport offset.
    /// The payload offset must be set and leave room for the header, and
    /// the network layer must not have been filled yet: it is written
    /// afterwards, further toward the front.
    pub fn fill_l4(&mut self, header: &[u8])
        requires
            old(self).wf(),
            old(self).l3_offset is None,
            old(self).data_offset is Some,
            header@.len() <= old(self).data_offset->0,
        ensures
            final(self).wf(),
            final(self).l3_offset == old(self).l3_offset,
            final(self).data_offset == old(self).data_offset,
            final(self).l4_offset == Some((old(self).data_offset->0 - header@.len()) as usize),
            final(self).data@.len() == old(self).data@.len(),
            (final(self).data@ == old(self).data@.take(
                old(self).data_offset->0 - header@.len(),
            ) + header@ + old(self).data@.skip(old(self).data_offset->0 as int)),
    {
        let d = self.data_offset.unwrap();
        let start = d - header.len();
        copy_into(&mut self.data, start, header);
        self.l4_offset = Some(start);
    }

    /// Copies a serialized network header into the headroom immediately
    /// before the transport header and records its start as the network
    /// offset. The transport offset must be set and leave room for the
    /// header.
    pub fn fill_l3(&mut self, header: &[u8])
        requires
            old(self).wf(),
            old(self).l4_offset is Some,
            header@.len() <= old(self).l4_offset->0,
        ensures
            final(self).wf(),
            final(self).l4_offset == old(self).l4_offset,
            final(self).data_offset == old(self).data_offset,
            final(self).l3_offset == Some((old(self).l4_offset->0 - header@.len()) as usize),
            final(self).data@.len() == old(self).data@.len(),
            (final(self).data@ == old(self).data@.take(
                old(self).l4_offset->0 - header@.len(),
            ) + header@ + old(self).data@.skip(old(self).l4_offset->0 as int)),
    {
        let d = self.l4_offset.unwrap();
        let start = d - header.len();
        copy_into(&mut self.data, start, header);
        self.l3_offset = Some(start);
    }

    /// Parses the IPv4 header at the network offset; refuses a buffer with
    /// fewer than 20 bytes there or one whose version nibble is not 4,
    /// rather than reading out of bounds.
    pub fn ip_header(&self) -> (r: Option<IpHeader>)
        requires
            self.wf(),
        ensures
            r == ip_header_spec(*self),
    {
        match self.l3_offset {
            None => None,
            Some(off) => {
                if self.data.len() - off < 20 {
                    None
                } else {
                    let h = IpHeader::from_bytes(
                        slice_subrange(self.data.as_slice(), off, self.data.len()),
                    );
                    if h.version() != 4 {
                        None
                    } else {
                        Some(h)
                    }
                }
            },
        }
    }

    /// Parses the ICMP header at the transport offset; refuses a buffer
    /// with fewer than 4 bytes there.
    pub fn icmp_header(&self) -> (r: Option<IcmpHeader>)
        requires
            self.wf(),
        ensures
            r == icmp_header_spec(*self),
    {
        match self.l4_offset {
            None => None,
            Some(off) => {
                if self.data.len() - off < 4 {
                    None
                } else {
                    Some(
                        IcmpHeader::from_bytes(
                            slice_subrange(self.data.as_slice(), off, self.data.len()),
                        ),
                    )
                }
            },
        }
    }

    /// Parses the UDP header at the transport offset; refuses a buffer with
    /// fewer than 8 bytes there.
    pub fn udp_header(&self) -> (r: Option<UdpHeader>)
        requires
            self.wf(),
        ensures
            r == udp_header_spec(*self),
    {
        match self.l4_offset {
            None => None,
            Some(off) => {
                if self.data.len() - off < 8 {
                    None
                } else {
                    Some(
                        UdpHeader::from_bytes(
                            slice_subrange(self.data.as_slice(), off, self.data.len()),
                        ),
                    )
                }
            },
        }
    }

    /// The payload: the bytes from the payload offset to the end of the
    /// buffer, or nothing while that offset is unset.
    pub fn data(&self) -> (r: Option<&[u8]>)
        requires
            self.wf(),
        ensures
            r is Some <==> self.data_offset is Some,
            r is Some ==> r->0@ == self.data@.skip(self.data_offset->0 as int),
    {
        match self.data_offset {
            None => None,
            Some(off) => Some(slice_subrange(self.data.as_slice(), off, self.data.len())),
        }
    }

    /// The transmittable frame: the bytes from the network offset to the
    /// end of the buffer, or nothing while that offset is unset.
    pub fn whole(&self) -> (r: Option<&[u8]>)
        requires
            self.wf(),
        ensures
            r is Some <==> self.l3_offset is Some,
            r is Some ==> r->0@ == self.data@.skip(self.l3_offset->0 as int),
    {
        match self.l3_offset {
            None => None,
            Some(off) => Some(slice_subrange(self.data.as_slice(), off, self.data.len())),
        }
    }

    /// The frame length: the bytes from the network offset to the end of
    /// the buffer, or nothing while that offset is unset.
    pub fn len(&self) -> (r: Option<usize>)
        requires
            self.wf(),
        ensures
            r is Some <==> self.l3_offset is Some,
            r is Some ==> r->0 == self.data@.len() - self.l3_offset->0,
    {
        match self.l3_offset {
            None => None,
            Some(off) => Some(self.data.len() - off),
        }
    }
}

/// Once all three offsets are present in a well-formed packet they never
/// decrease from network to transport to payload, and all lie within the
/// buffer — in particular after `fill_l4` and then `fill_l3`.
pub proof fn lemma_offsets_monotonic(p: Packet)
    requires
        p.wf(),
        p.l3_offset is Some,
        p.l4_offset is Some,
        p.data_offset is Some,
    ensures
        p.l3_offset->0 <= p.l4_offset->0,
        p.l4_offset->0 <= p.data_offset->0,
        p.data_offset->0 <= p.data@.len(),
{
}

} // verus!
