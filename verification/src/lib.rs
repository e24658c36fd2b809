//! Batch preparation for ed25519 signature verification on an FPGA.
//!
//! Serialized transactions arrive in [`packet::Packet`]s. The library finds where the signatures,
//! the public keys and the signed message of each transaction stand, lays them out in the flat
//! arrays that the device reads ([`batch::Batch`]), and turns what the device reports back into
//! one verdict per packet.

use vstd::prelude::*;

pub mod batch;
pub mod byte_laws;
pub mod laws;
pub mod outside;
pub mod packet;
pub mod wire;

pub use batch::ed25519_verify_fpga_batch;

verus! {

/// Whether this build can hand batches to the device.
pub fn is_available() -> (available: bool)
    ensures
        available,
{
    true
}

} // verus!
