//! The plain values the registry works with, and its limits.

use vstd::prelude::*;

verus! {

/// Identifies an account. A document is stored under the account that
/// controls it, so this is also what identifies a document.
pub type AccountId = u64;

/// Identifies a chain on which an identity may have an address.
pub type ChainId = u32;

/// The height of the ledger.
pub type BlockNumber = u64;

/// How many entries of each kind a document may hold.
#[derive(Clone, Copy, Debug, PartialEq, Eq, Structural)]
pub struct Config {
    pub max_linked_chains: u32,
    pub max_public_keys: u32,
    pub max_services: u32,
}

impl Config {
    /// Every limit is positive.
    pub open spec fn valid(&self) -> bool {
        &&& self.max_linked_chains > 0
        &&& self.max_public_keys > 0
        &&& self.max_services > 0
    }

    /// The limits given, unless one of them is zero.
    pub fn new(max_linked_chains: u32, max_public_keys: u32, max_services: u32) -> (config: Option<
        Config,
    >)
        ensures
            config == if max_linked_chains > 0 && max_public_keys > 0 && max_services > 0 {
                Some(Config { max_linked_chains, max_public_keys, max_services })
            } else {
                None
            },
    {
        if max_linked_chains > 0 && max_public_keys > 0 && max_services > 0 {
            Some(Config { max_linked_chains, max_public_keys, max_services })
        } else {
            None
        }
    }

    /// Whether every limit is positive.
    pub fn is_valid(&self) -> (ok: bool)
        ensures
            ok == self.valid(),
    {
        self.max_linked_chains > 0 && self.max_public_keys > 0 && self.max_services > 0
    }
}

} // verus!
