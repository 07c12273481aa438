//! A token record as it is shown to readers, with its payload attached.

use vstd::prelude::*;
use crate::identity::{AccountOwner, DataBlobHash};
use crate::token::{Nft, NftStatus, TokenId};

verus! {

/// A token record with its identifier written as text and its payload.
#[derive(Debug)]
pub struct NftOutput {
    pub token_id: String,
    pub owner: AccountOwner,
    pub name: String,
    pub minter: AccountOwner,
    pub payload: Vec<u8>,
    pub token: String,
    pub price: String,
    pub id: u64,
    pub chain_minter: String,
    pub chain_owner: String,
    pub description: String,
    pub blob_hash: DataBlobHash,
    pub status: NftStatus,
}

/// Whether `out` shows the record `nft` with the given identifier text and payload.
pub open spec fn shows(out: NftOutput, token_id: Seq<char>, nft: Nft, payload: Seq<u8>) -> bool {
    &&& out.token_id@ == token_id
    &&& out.owner == nft.owner
    &&& out.name == nft.name
    &&& out.minter == nft.minter
    &&& out.payload@ == payload
    &&& out.token == nft.token
    &&& out.price == nft.price
    &&& out.id == nft.id
    &&& out.chain_minter == nft.chain_minter
    &&& out.chain_owner == nft.chain_owner
    &&& out.description == nft.description
    &&& out.blob_hash == nft.blob_hash
    &&& out.status == nft.status
}

/// Base64 text of bytes, standard alphabet, without padding.
pub uninterp spec fn base64_no_pad_of(bytes: Seq<u8>) -> Seq<char>;

/// Relies on base64's `STANDARD_NO_PAD` engine (`Engine::encode`): the bytes in
/// the standard alphabet, without padding.
#[verifier::external_body]
fn encode_no_pad(bytes: &Vec<u8>) -> (r: String)
    ensures
        r@ == base64_no_pad_of(bytes@),
{
    base64::Engine::encode(&base64::engine::general_purpose::STANDARD_NO_PAD, bytes)
}

#[verifier::external_type_specification]
#[verifier::external_body]
pub struct ExDecodeError(base64::DecodeError);

/// Relies on base64's `STANDARD_NO_PAD` engine (`Engine::decode`): decoding
/// accepts exactly the unpadded encodings, with no stray trailing bits, so what
/// it returns encodes back to the text, and it fails only on text that encodes
/// no bytes at all.
#[verifier::external_body]
fn decode_no_pad(text: &String) -> (r: Result<Vec<u8>, base64::DecodeError>)
    ensures
        match r {
            Ok(b) => base64_no_pad_of(b@) == text@,
            Err(_) => forall|b: Seq<u8>| #[trigger] base64_no_pad_of(b) != text@,
        },
{
    base64::Engine::decode(&base64::engine::general_purpose::STANDARD_NO_PAD, text)
}

/// The token identifier written by `text` in unpadded base64, if it writes one.
pub fn token_id_from_text(text: &String) -> (r: Option<TokenId>)
    ensures
        match r {
            Some(t) => base64_no_pad_of(t@) == text@,
            None => forall|b: Seq<u8>| #[trigger] base64_no_pad_of(b) != text@,
        },
{
    match decode_no_pad(text) {
        Ok(id) => Some(TokenId { id }),
        Err(_) => None,
    }
}

impl NftOutput {
    /// Shows a record, its identifier in unpadded base64.
    pub fn new(nft: Nft, payload: Vec<u8>) -> (r: Self)
        ensures
            shows(r, base64_no_pad_of(nft.token_id@), nft, payload@),
    {
        let token_id = encode_no_pad(&nft.token_id.id);
        Self::new_with_token_id(token_id, nft, payload)
    }

    /// Shows a record under an identifier text given by the caller.
    pub fn new_with_token_id(token_id: String, nft: Nft, payload: Vec<u8>) -> (r: Self)
        ensures
            shows(r, token_id@, nft, payload@),
    {
        NftOutput {
            token_id,
            owner: nft.owner,
            name: nft.name,
            minter: nft.minter,
            payload,
            token: nft.token,
            price: nft.price,
            id: nft.id,
            chain_minter: nft.chain_minter,
            chain_owner: nft.chain_owner,
            description: nft.description,
            blob_hash: nft.blob_hash,
            status: nft.status,
        }
    }
}

} // verus!
