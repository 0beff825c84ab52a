//! The IP layer: addresses, the Internet checksum, packet layout, and the
//! service that checks inbound packets and routes outbound ones.

mod address;
mod checksum;
mod packet;
mod service;

pub use packet::{fresh_ip_frame, ip_start, protocol_of, Packet, Protocol};

pub use address::{address_number, and_bytes, Address};

pub use checksum::{checksum, compute_checksum};
pub use checksum::{
    fold_carries, internet_checksum, lemma_filled_checksum_is_valid, lemma_refill_is_stable,
    sum_words, with_checksum, word_at, word_sum,
};
pub use service::{header_valid, next_hop, Service, Socket};
