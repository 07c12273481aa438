//! Identities of chains, applications, blobs and token holders.

use vstd::prelude::*;

verus! {

/// A 256-bit content hash, held as four 64-bit words.
#[derive(Debug, Clone, Copy, PartialEq, Eq, Structural)]
pub struct CryptoHash {
    pub w0: u64,
    pub w1: u64,
    pub w2: u64,
    pub w3: u64,
}

/// The identifier of a chain.
#[derive(Debug, Clone, Copy, PartialEq, Eq, Structural)]
pub struct ChainId {
    pub hash: CryptoHash,
}

/// The identifier of an application.
#[derive(Debug, Clone, Copy, PartialEq, Eq, Structural)]
pub struct ApplicationId {
    pub hash: CryptoHash,
}

/// A reference to an immutable payload held by the blob store.
#[derive(Debug, Clone, Copy, PartialEq, Eq, Structural)]
pub struct DataBlobHash {
    pub hash: CryptoHash,
}

/// Who may act on a token: a user, by signing, or an application, by calling.
#[derive(Debug, Clone, Copy, PartialEq, Eq, Structural)]
pub enum AccountOwner {
    User(CryptoHash),
    Application(ApplicationId),
}

/// Where a token resides and who controls it there.
#[derive(Debug, Clone, Copy, PartialEq, Eq, Structural)]
pub struct Account {
    pub chain_id: ChainId,
    pub owner: AccountOwner,
}

} // verus!
