//! Token records and their identifiers.

use vstd::prelude::*;
use crate::identity::{AccountOwner, DataBlobHash};

verus! {

/// A token's identifier: the digest computed once, when the token is minted.
#[derive(Debug, Clone)]
pub struct TokenId {
    pub id: Vec<u8>,
}

impl View for TokenId {
    type V = Seq<u8>;

    open spec fn view(&self) -> Seq<u8> {
        self.id@
    }
}

/// Compares two byte vectors element by element.
pub fn bytes_equal(a: &Vec<u8>, b: &Vec<u8>) -> (r: bool)
    ensures
        r == (a@ == b@),
{
    if a.len() != b.len() {
        return false;
    }
    let mut i: usize = 0;
    while i < a.len()
        invariant
            a@.len() == b@.len(),
            i <= a@.len(),
            a@.subrange(0, i as int) == b@.subrange(0, i as int),
        decreases a@.len() - i,
    {
        if a[i] != b[i] {
            assert(a@[i as int] != b@[i as int]);
            return false;
        }
        assert(a@.subrange(0, i + 1) == a@.subrange(0, i as int).push(a@[i as int]));
        assert(b@.subrange(0, i + 1) == b@.subrange(0, i as int).push(b@[i as int]));
        i = i + 1;
    }
    assert(a@ == a@.subrange(0, a@.len() as int));
    assert(b@ == b@.subrange(0, b@.len() as int));
    true
}

/// Copies a byte vector.
pub fn copy_bytes(a: &Vec<u8>) -> (r: Vec<u8>)
    ensures
        r@ == a@,
{
    let mut r: Vec<u8> = Vec::new();
    let mut i: usize = 0;
    while i < a.len()
        invariant
            i <= a@.len(),
            r@ == a@.subrange(0, i as int),
        decreases a@.len() - i,
    {
        r.push(a[i]);
        assert(a@.subrange(0, i + 1) == a@.subrange(0, i as int).push(a@[i as int]));
        i = i + 1;
    }
    assert(a@ == a@.subrange(0, a@.len() as int));
    r
}

impl TokenId {
    /// A second identifier with the same bytes.
    pub fn duplicate(&self) -> (r: TokenId)
        ensures
            r@ == self@,
    {
        TokenId { id: copy_bytes(&self.id) }
    }
}

impl PartialEq for TokenId {
    fn eq(&self, other: &TokenId) -> (r: bool) {
        bytes_equal(&self.id, &other.id)
    }
}

impl vstd::std_specs::cmp::PartialEqSpecImpl for TokenId {
    open spec fn obeys_eq_spec() -> bool {
        true
    }

    open spec fn eq_spec(&self, other: &TokenId) -> bool {
        self.id@ == other.id@
    }
}

impl Eq for TokenId {}

/// Whether a token is offered for sale or has been sold.
#[derive(Debug, Clone, Copy, PartialEq, Eq, Structural)]
pub enum NftStatus {
    Sold,
    OnSale,
}

/// A token record.
#[derive(Debug, Clone)]
pub struct Nft {
    pub token_id: TokenId,
    pub owner: AccountOwner,
    pub name: String,
    pub minter: AccountOwner,
    pub blob_hash: DataBlobHash,
    /// Symbol of the foreign asset the token is priced in.
    pub token: String,
    /// The price, written as a decimal amount.
    pub price: String,
    /// The token's identifier on a foreign chain.
    pub id: u64,
    pub chain_minter: String,
    pub chain_owner: String,
    pub description: String,
    pub status: NftStatus,
}

/// Marks the interface of this application for its runtime.
pub struct NonFungibleTokenAbi;

} // verus!

verus! {

/// Why an operation or a message was refused. A refused call changes nothing.
#[derive(Debug, Clone, Copy, PartialEq, Eq, Structural)]
pub enum NftError {
    /// The claimed owner is not the signer or calling application.
    NotAuthenticated,
    /// No token with the given identifier is held on this chain.
    TokenNotFound,
    /// The referenced payload is not in the blob store.
    BlobNotFound,
    /// A field of a new token has no canonical encoding.
    EncodingFailed,
    /// The mint counter has reached its largest value.
    MintCounterExhausted,
}

} // verus!
