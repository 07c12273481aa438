//! Derivation of a token's identifier from the facts known when it is minted.

use vstd::prelude::*;
use vstd::utf8::encode_utf8;
use vstd::arithmetic::div_mod::lemma_breakdown;
use vstd::arithmetic::power::{lemma_pow_positive, pow};
use crate::identity::{AccountOwner, ApplicationId, ChainId, CryptoHash, DataBlobHash};
use crate::token::{Nft, NftError, TokenId};

verus! {

#[verifier::external_type_specification]
#[verifier::external_body]
pub struct ExBcsError(bcs::Error);

/// The longest byte sequence that the canonical encoding accepts.
pub const MAX_SEQUENCE_LENGTH: usize = 0x7fff_ffff;

/// The lowest `k` bytes of `v`, least significant first.
pub open spec fn le_bytes(v: nat, k: nat) -> Seq<u8>
    decreases k,
{
    if k == 0 {
        seq![]
    } else {
        seq![(v % 256) as u8] + le_bytes(v / 256, (k - 1) as nat)
    }
}

/// `n` in unsigned LEB128: seven bits per byte, least significant group first,
/// the high bit set on every byte but the last.
pub open spec fn uleb128(n: nat) -> Seq<u8>
    decreases n,
{
    if n < 128 {
        seq![n as u8]
    } else {
        seq![(n % 128 + 128) as u8] + uleb128(n / 128)
    }
}

/// Canonical encoding of a 64-bit integer.
pub open spec fn bcs_u64(v: u64) -> Seq<u8> {
    le_bytes(v as nat, 8)
}

/// Canonical encoding of a string: its byte length, then its UTF-8 bytes.
pub open spec fn bcs_str(s: Seq<char>) -> Seq<u8> {
    uleb128(encode_utf8(s).len()) + encode_utf8(s)
}

/// Whether a string is short enough to be encoded.
pub open spec fn str_encodable(s: Seq<char>) -> bool {
    encode_utf8(s).len() <= MAX_SEQUENCE_LENGTH
}

/// A hash's encoding: its four words in order.
pub open spec fn hash_bytes(h: CryptoHash) -> Seq<u8> {
    bcs_u64(h.w0) + bcs_u64(h.w1) + bcs_u64(h.w2) + bcs_u64(h.w3)
}

/// An owner's encoding: a tag for the variant, then the identity's hash.
pub open spec fn owner_bytes(o: AccountOwner) -> Seq<u8> {
    match o {
        AccountOwner::User(h) => seq![0u8] + hash_bytes(h),
        AccountOwner::Application(a) => seq![1u8] + hash_bytes(a.hash),
    }
}

/// The bytes that are hashed into a token's identifier, in their order.
pub open spec fn token_id_preimage(
    chain_id: ChainId,
    application_id: ApplicationId,
    name: Seq<char>,
    minter: AccountOwner,
    blob_hash: DataBlobHash,
    num_minted_nfts: u64,
    token: Seq<char>,
    price: Seq<char>,
    id: u64,
    chain_minter: Seq<char>,
    chain_owner: Seq<char>,
) -> Seq<u8> {
    hash_bytes(chain_id.hash) + hash_bytes(application_id.hash) + encode_utf8(name) + bcs_u64(
        encode_utf8(name).len() as u64,
    ) + owner_bytes(minter) + hash_bytes(blob_hash.hash) + bcs_u64(num_minted_nfts) + bcs_str(
        token,
    ) + bcs_u64(id) + bcs_str(price) + bcs_str(chain_owner) + bcs_str(chain_minter)
}

/// Whether every string field of a new token can be encoded.
pub open spec fn mint_fields_encodable(
    token: Seq<char>,
    price: Seq<char>,
    chain_minter: Seq<char>,
    chain_owner: Seq<char>,
) -> bool {
    &&& str_encodable(token)
    &&& str_encodable(price)
    &&& str_encodable(chain_minter)
    &&& str_encodable(chain_owner)
}

/// The SHA3-256 digest of a byte sequence.
pub uninterp spec fn sha3_256_of(data: Seq<u8>) -> Seq<u8>;

/// Relies on bcs::to_bytes: a `u64` is written as its eight little-endian
/// bytes into a vector, which cannot fail.
#[verifier::external_body]
fn u64_to_bcs(v: u64) -> (r: Result<Vec<u8>, bcs::Error>)
    ensures
        match r {
            Ok(b) => b@ == bcs_u64(v),
            Err(_) => false,
        },
{
    bcs::to_bytes(&v)
}

/// Relies on bcs::to_bytes: a string is written as its byte length in ULEB128
/// and then its UTF-8 bytes; it fails exactly when that length exceeds
/// `bcs::MAX_SEQUENCE_LENGTH`.
#[verifier::external_body]
fn str_to_bcs(s: &String) -> (r: Result<Vec<u8>, bcs::Error>)
    ensures
        match r {
            Ok(b) => str_encodable(s@) && b@ == bcs_str(s@),
            Err(_) => !str_encodable(s@),
        },
{
    bcs::to_bytes(s)
}

/// Relies on sha3::Sha3_256 through digest::Digest::digest: the SHA3-256
/// digest of the bytes, 32 bytes long.
#[verifier::external_body]
fn sha3_256(data: &Vec<u8>) -> (r: Vec<u8>)
    ensures
        r@ == sha3_256_of(data@),
        r@.len() == 32,
{
    <sha3::Sha3_256 as sha3::Digest>::digest(data).to_vec()
}

/// The UTF-8 bytes of a string.
fn str_bytes(s: &String) -> (r: Vec<u8>)
    ensures
        r@ == encode_utf8(s@),
{
    let b: &[u8] = s.as_str().as_bytes();
    let mut r: Vec<u8> = Vec::new();
    let mut i: usize = 0;
    while i < b.len()
        invariant
            i <= b@.len(),
            r@ == b@.subrange(0, i as int),
        decreases b@.len() - i,
    {
        r.push(b[i]);
        assert(b@.subrange(0, i + 1) == b@.subrange(0, i as int).push(b@[i as int]));
        i = i + 1;
    }
    assert(b@ == b@.subrange(0, b@.len() as int));
    r
}

/// The encoding of a 64-bit integer.
fn u64_bytes(v: u64) -> (r: Vec<u8>)
    ensures
        r@ == bcs_u64(v),
{
    match u64_to_bcs(v) {
        Ok(b) => b,
        Err(_) => Vec::new(),
    }
}

/// The encoding of a hash.
fn crypto_hash_bytes(h: &CryptoHash) -> (r: Vec<u8>)
    ensures
        r@ == hash_bytes(*h),
{
    let mut r = u64_bytes(h.w0);
    let mut b1 = u64_bytes(h.w1);
    let mut b2 = u64_bytes(h.w2);
    let mut b3 = u64_bytes(h.w3);
    r.append(&mut b1);
    r.append(&mut b2);
    r.append(&mut b3);
    r
}

/// The encoding of an owner.
fn account_owner_bytes(o: &AccountOwner) -> (r: Vec<u8>)
    ensures
        r@ == owner_bytes(*o),
{
    let (tag, h) = match o {
        AccountOwner::User(h) => (0u8, *h),
        AccountOwner::Application(a) => (1u8, a.hash),
    };
    let mut r: Vec<u8> = Vec::new();
    r.push(tag);
    let mut hb = crypto_hash_bytes(&h);
    r.append(&mut hb);
    r
}

impl Nft {
    /// Derives the identifier of a token about to be minted: the SHA3-256 digest
    /// of the canonical encoding of the mint facts. It fails only when a string
    /// field is too long to be encoded.
    pub fn create_token_id(
        chain_id: &ChainId,
        application_id: &ApplicationId,
        name: &String,
        minter: &AccountOwner,
        blob_hash: &DataBlobHash,
        num_minted_nfts: u64,
        token: &String,
        price: String,
        id: u64,
        chain_minter: &String,
        chain_owner: &String,
    ) -> (r: Result<TokenId, NftError>)
        ensures
            match r {
                Ok(t) => mint_fields_encodable(token@, price@, chain_minter@, chain_owner@)
                    && t@ == sha3_256_of(
                    token_id_preimage(
                        *chain_id,
                        *application_id,
                        name@,
                        *minter,
                        *blob_hash,
                        num_minted_nfts,
                        token@,
                        price@,
                        id,
                        chain_minter@,
                        chain_owner@,
                    ),
                ),
                Err(e) => !mint_fields_encodable(token@, price@, chain_minter@, chain_owner@)
                    && e == NftError::EncodingFailed,
            },
    {
        let mut token_b = match str_to_bcs(token) {
            Ok(b) => b,
            Err(_) => return Err(NftError::EncodingFailed),
        };
        let mut price_b = match str_to_bcs(&price) {
            Ok(b) => b,
            Err(_) => return Err(NftError::EncodingFailed),
        };
        let mut chain_owner_b = match str_to_bcs(chain_owner) {
            Ok(b) => b,
            Err(_) => return Err(NftError::EncodingFailed),
        };
        let mut chain_minter_b = match str_to_bcs(chain_minter) {
            Ok(b) => b,
            Err(_) => return Err(NftError::EncodingFailed),
        };
        let mut data = crypto_hash_bytes(&chain_id.hash);
        let mut app_b = crypto_hash_bytes(&application_id.hash);
        let mut name_b = str_bytes(name);
        let mut name_len_b = u64_bytes(name_b.len() as u64);
        let mut minter_b = account_owner_bytes(minter);
        let mut blob_b = crypto_hash_bytes(&blob_hash.hash);
        let mut counter_b = u64_bytes(num_minted_nfts);
        let mut id_b = u64_bytes(id);
        data.append(&mut app_b);
        data.append(&mut name_b);
        data.append(&mut name_len_b);
        data.append(&mut minter_b);
        data.append(&mut blob_b);
        data.append(&mut counter_b);
        data.append(&mut token_b);
        data.append(&mut id_b);
        data.append(&mut price_b);
        data.append(&mut chain_owner_b);
        data.append(&mut chain_minter_b);
        Ok(TokenId { id: sha3_256(&data) })
    }
}

/// The same mint facts, the counter included, always give the same identifier.
pub proof fn lemma_token_id_deterministic(
    chain_id: ChainId,
    application_id: ApplicationId,
    name: Seq<char>,
    minter: AccountOwner,
    blob_hash: DataBlobHash,
    num_minted_nfts: u64,
    token: Seq<char>,
    price: Seq<char>,
    id: u64,
    chain_minter: Seq<char>,
    chain_owner: Seq<char>,
    t1: Seq<u8>,
    t2: Seq<u8>,
)
    requires
        t1 == sha3_256_of(
            token_id_preimage(
                chain_id,
                application_id,
                name,
                minter,
                blob_hash,
                num_minted_nfts,
                token,
                price,
                id,
                chain_minter,
                chain_owner,
            ),
        ),
        t2 == sha3_256_of(
            token_id_preimage(
                chain_id,
                application_id,
                name,
                minter,
                blob_hash,
                num_minted_nfts,
                token,
                price,
                id,
                chain_minter,
                chain_owner,
            ),
        ),
    ensures
        t1 == t2,
{
}

/// The number whose little-endian bytes these are.
spec fn from_le(s: Seq<u8>) -> nat
    decreases s.len(),
{
    if s.len() == 0 {
        0
    } else {
        s[0] as nat + 256 * from_le(s.drop_first())
    }
}

proof fn lemma_le_bytes_value(v: nat, k: nat)
    ensures
        le_bytes(v, k).len() == k,
        from_le(le_bytes(v, k)) == v % (pow(256, k) as nat),
    decreases k,
{
    reveal(pow);
    if k > 0 {
        let k1 = (k - 1) as nat;
        lemma_le_bytes_value(v / 256, k1);
        lemma_pow_positive(256, k1);
        let s = le_bytes(v, k);
        assert(s.drop_first() =~= le_bytes(v / 256, k1));
        lemma_breakdown(v as int, 256, pow(256, k1));
        assert(pow(256, k) == 256 * pow(256, k1));
        assert(s[0] as nat == v % 256);
        assert(from_le(s) == v % 256 + 256 * ((v / 256) % (pow(256, k1) as nat)));
    }
}

/// Mint facts that differ only in the counter are hashed from different bytes:
/// the counter salts the identifier.
pub proof fn lemma_preimage_separates_counters(
    chain_id: ChainId,
    application_id: ApplicationId,
    name: Seq<char>,
    minter: AccountOwner,
    blob_hash: DataBlobHash,
    c1: u64,
    c2: u64,
    token: Seq<char>,
    price: Seq<char>,
    id: u64,
    chain_minter: Seq<char>,
    chain_owner: Seq<char>,
)
    requires
        c1 != c2,
    ensures
        token_id_preimage(
            chain_id,
            application_id,
            name,
            minter,
            blob_hash,
            c1,
            token,
            price,
            id,
            chain_minter,
            chain_owner,
        ) != token_id_preimage(
            chain_id,
            application_id,
            name,
            minter,
            blob_hash,
            c2,
            token,
            price,
            id,
            chain_minter,
            chain_owner,
        ),
{
    let p1 = token_id_preimage(
        chain_id,
        application_id,
        name,
        minter,
        blob_hash,
        c1,
        token,
        price,
        id,
        chain_minter,
        chain_owner,
    );
    let p2 = token_id_preimage(
        chain_id,
        application_id,
        name,
        minter,
        blob_hash,
        c2,
        token,
        price,
        id,
        chain_minter,
        chain_owner,
    );
    let x = hash_bytes(chain_id.hash) + hash_bytes(application_id.hash) + encode_utf8(name) + bcs_u64(
        encode_utf8(name).len() as u64,
    ) + owner_bytes(minter) + hash_bytes(blob_hash.hash);
    lemma_le_bytes_value(c1 as nat, 8);
    lemma_le_bytes_value(c2 as nat, 8);
    let l = x.len() as int;
    assert(p1.subrange(l, l + 8) =~= bcs_u64(c1));
    assert(p2.subrange(l, l + 8) =~= bcs_u64(c2));
    reveal_with_fuel(pow, 9);
    assert(pow(256, 8) == 0x1_0000_0000_0000_0000);
    if p1 == p2 {
        assert(from_le(bcs_u64(c1)) == from_le(bcs_u64(c2)));
        assert(c1 as nat % 0x1_0000_0000_0000_0000 == c1);
        assert(c2 as nat % 0x1_0000_0000_0000_0000 == c2);
    }
}

} // verus!
