//! Socket-level options that deliver a packet's traits with the packet.
use vstd::prelude::*;

verus! {

/// Level-`SOL_SOCKET` option that turns the delivery of traits on or off.
pub const SO_RCV_PKT_TRAITS: i32 = 82;

/// Level-`SOL_SOCKET` option of packet traits.
pub const SO_PKT_TRAITS: i32 = 83;

/// Type of the control message that carries a packet's sparse trait blob.
pub const SCM_PKT_TRAITS: i32 = SO_PKT_TRAITS;

} // verus!
