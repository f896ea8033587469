//! Verified core of a shielded-transaction wallet backend.
//!
//! The library covers the decision and accounting logic of three wallet
//! operations: transaction ingestion (commitment-accumulator growth and
//! witness-capture positions), spent-note filtering (nullifier matching),
//! and transaction assembly (note selection with fixed-fee and change
//! accounting, and destination routing), together with the hexadecimal
//! codec used to round-trip the accumulator, witnesses and nullifiers
//! across the call boundary.
//!
//! The shielded cryptographic primitives themselves — commitment-tree
//! hashing, incremental-witness algebra, nullifier derivation, proof
//! generation, and address/transaction binary codecs — are external
//! collaborators: the host layer performs those calls and hands this
//! library plain values (byte vectors, counts, decode outcomes).

use vstd::prelude::*;

pub mod builder;
pub mod hexcodec;
pub mod scan;
pub mod spend;

verus! {

/// Fixed fee charged on every built transaction, in the smallest currency
/// unit. The fee is a constant for every transaction, never a function of
/// its size or of the number of spends and outputs.
pub const FIXED_FEE: u64 = 2365000;

/// Leaf capacity of the commitment accumulator: a depth-32 append-only
/// tree holds at most 2^32 commitments. Appending beyond this is fatal.
pub const TREE_CAPACITY: u64 = 4294967296;

/// Network profile selector: each network carries its own address
/// prefixes, passed explicitly rather than threaded as a boolean flag.
#[derive(Clone, Copy, Debug, PartialEq, Eq, Structural)]
pub enum Network {
    Main,
    Test,
}

/// Error taxonomy of the wallet core. Every error aborts the whole
/// operation; there is no partial success.
#[derive(Clone, Copy, Debug, PartialEq, Eq, Structural)]
pub enum ShieldError {
    /// Malformed hex, binary accumulator/transaction/witness, or key.
    Decode,
    /// The commitment accumulator is at capacity.
    TreeFull,
    /// A membership path could not be resolved (accumulator empty or
    /// witness position unresolvable): caller state corruption.
    MissingPath,
    /// Selected notes cannot cover the requested amount plus the fee.
    InsufficientBalance,
    /// The destination matches neither the shielded nor the transparent
    /// encoding of the active network.
    BadAddress,
    /// Proof generation failed for structural reasons.
    Proving,
}

/// A decrypted shielded output owned by the wallet: its monetary value,
/// the recipient diversified address, and the opaque randomness needed to
/// later derive its nullifier and spend it. Immutable once decrypted.
#[derive(Clone, Copy, Debug, PartialEq, Eq)]
pub struct Note {
    /// Monetary value in the smallest currency unit.
    pub value: u64,
    /// Raw encoding of the recipient diversified payment address
    /// (11-byte diversifier followed by the 32-byte transmission key).
    pub recipient: [u8; 43],
    /// Opaque note randomness, fixed at 32 bytes by the protocol.
    pub rseed: [u8; 32],
}

} // verus!
