//! The ARP layer: message layout, the address cache, and the decisions that
//! learn mappings, answer requests for this host and ask for unknown ones.

mod packet;
mod service;

pub use packet::{
    arp_start, hardware_type_of, operation_of, HardwareType, Operation, Packet, MESSAGE_LEN,
};
pub use service::{
    arp_frame, asks_for, cache_key, is_ipv4_over_ethernet, learn, lemma_learned_mapping_resolves, resolve,
    sender_hardware, sender_protocol, Service,
};
