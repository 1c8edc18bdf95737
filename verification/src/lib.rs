//! A minimal IPv4 packet toolkit: an internet-checksum engine, fixed-layout
//! IPv4, ICMP and UDP header types with byte-order bookkeeping, a packet
//! buffer that supports backward construction of reply packets, and the
//! dispatch rules that build an ICMP echo or UDP reply from an inbound frame.

pub mod checksum;
pub mod dispatch;
pub mod icmp;
pub mod ip;
pub mod packet;
pub mod udp;
