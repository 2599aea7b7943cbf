//! Verified core of a station-mode wireless link: credential checking, IPv4
//! text configuration, the connection-supervisor state machine, address
//! acquisition, and a managed socket session. Hardware drivers and the
//! executor live outside; this crate holds the decisions and proves them.

use vstd::prelude::*;

pub mod acquisition;
pub mod credentials;
pub mod errors;
pub mod ipv4;
pub mod music;
pub mod radio;
pub mod session;
pub mod supervisor;

verus! {

/// Combine two 32-bit random draws into the 64-bit seed the network stack
/// is created with: the first draw fills the low half, the second the high.
pub fn net_seed(lo: u32, hi: u32) -> (seed: u64)
    ensures
        seed == lo + hi * 0x1_0000_0000u64,
{
    proof {
        assert(lo as u64 | ((hi as u64) << 32) == lo as u64 + (hi as u64) * 0x1_0000_0000u64)
            by (bit_vector);
    }
    lo as u64 | ((hi as u64) << 32)
}

} // verus!
