//! The ICMP layer: message layout, echo replies, and the ping sockets that
//! send echo requests and collect the matching replies.

mod kind;
mod packet;
mod service;

pub use kind::{icmp_type_of, Type, ECHO_HEADER_LEN};
pub use packet::Packet;
pub use service::{
    data_fits, echo_message, echo_reply, echo_request, is_reply_to, message_valid, reply_key, Handled, Service,
    Socket,
};
