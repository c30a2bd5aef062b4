//! Deterministic, type-aware RLP encoding of Ethereum transactions and
//! Keccak-256 hash verification.
//!
//! A `TransactionRecord` is encoded per its transaction type (legacy,
//! EIP-2930, EIP-1559) into the canonical Recursive Length Prefix byte
//! format, hashed with Keccak-256, and compared against a caller-supplied
//! claimed hash. Every encoding and comparison step is verified; the
//! Keccak permutation itself is called through a trusted wrapper.

pub mod decode;
pub mod encode;
pub mod hash;
pub mod rlp;
pub mod tx;
pub mod verify;

use vstd::prelude::*;

verus! {

} // verus!
