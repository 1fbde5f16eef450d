//! Provider identifiers, caller-supplied provider references, and the
//! error taxonomy of the registry.

use vstd::prelude::*;

verus! {

/// A 256-bit address held as four 64-bit words, most significant first.
/// Stands for the 32-byte addresses that name deployed units and accounts.
#[derive(Clone, Copy, PartialEq, Eq, Hash, Debug, Structural)]
pub struct HashAddr {
    pub w0: u64,
    pub w1: u64,
    pub w2: u64,
    pub w3: u64,
}

/// Opaque identifier of a deployed provider unit: a content-addressed
/// package hash. Equality is structural.
#[derive(Clone, Copy, PartialEq, Eq, Hash, Debug, Structural)]
pub struct ProviderId {
    pub hash: HashAddr,
}

/// Opaque reference to the account a query asks about. The registry and
/// the aggregation engine only forward it to providers, never read it.
#[derive(Clone, Copy, PartialEq, Eq, Hash, Debug, Structural)]
pub struct AccountId {
    pub hash: HashAddr,
}

/// A caller-supplied reference to a provider. Only the hash-addressed
/// form resolves to a [`ProviderId`]; every other shape is rejected
/// with [`RegistryError::InvalidProviderReference`].
#[derive(Clone, Copy, PartialEq, Eq, Hash, Debug, Structural)]
pub enum ProviderReference {
    /// A content/hash-addressed unit identifier: the only accepted form.
    Hash(HashAddr),
    /// An account-addressed reference: rejected.
    Account(HashAddr),
    /// An unforgeable-reference shape: rejected.
    Uref(HashAddr),
    /// Any other addressing shape, carrying nothing the registry reads: rejected.
    Other,
}

/// The registry's error taxonomy.
#[derive(Clone, Copy, PartialEq, Eq, Debug, Structural)]
pub enum RegistryError {
    /// A caller supplied a provider reference not in the hash-addressed form.
    InvalidProviderReference,
    /// A delegated provider decision call aborted; the query as a whole fails.
    ProviderInvocationFailure,
}

/// The provider identifier a reference stands for, if it is in the
/// required hash-addressed form.
pub open spec fn resolved_id(reference: ProviderReference) -> Option<ProviderId> {
    match reference {
        ProviderReference::Hash(h) => Some(ProviderId { hash: h }),
        _ => None,
    }
}

impl ProviderReference {
    /// Resolves the reference to the provider it names, rejecting any
    /// shape other than a hash-addressed unit identifier.
    pub fn resolve(&self) -> (r: Result<ProviderId, RegistryError>)
        ensures
            match r {
                Ok(id) => resolved_id(*self) == Some(id),
                Err(e) => resolved_id(*self) is None && e == RegistryError::InvalidProviderReference,
            },
    {
        match self {
            ProviderReference::Hash(h) => Ok(ProviderId { hash: *h }),
            _ => Err(RegistryError::InvalidProviderReference),
        }
    }
}

} // verus!
