//! Packet traits: small typed values keyed by an integer in `0..=63`, in two
//! wire layouts, a sparse bitmap-indexed blob and a list of fixed 16-byte records.
mod native;
mod pkt_traits;
mod so_pkt_traits;
mod tcp_syn_headers;
mod tcp_syn_traits;

pub use pkt_traits::{Error, PktTraits, TraitKey, TraitValue, HEADER_SIZE, MAX_KEY};
pub use so_pkt_traits::{SCM_PKT_TRAITS, SO_PKT_TRAITS, SO_RCV_PKT_TRAITS};
pub use tcp_syn_headers::{TcpSavedSyn, TcpSaveSyn};
pub use tcp_syn_traits::{
    build_set, decode_query_response, decode_records, encode_records, validate_set_buffer,
    PktTrait, TcpSaveSynTraits, TcpSynTraits, TcpSynTraitsSet, EIO, RECORD_SIZE,
    TCP_SAVE_SYN_TRAITS, TCP_SYN_TRAITS,
};
