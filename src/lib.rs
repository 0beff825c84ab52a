//! A small network stack for a pre-boot firmware environment: Ethernet
//! framing, ARP resolution, IP routing and ICMP echo, together with the
//! decisions of the cooperative scheduler that drives them.

pub mod arp;
pub mod asyn;
pub mod demux;
pub mod ethernet;
pub mod icmp;
pub mod ip;
pub mod wire;
