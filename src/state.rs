//! The ledger of one chain: the token records it holds and its mint counter.
//!
//! The records are the single source of truth. The index of tokens by owner and
//! the lookup by external identifier are computed from them, so neither can
//! disagree with the records.

use vstd::prelude::*;
use crate::identity::AccountOwner;
use crate::token::{Nft, NftError, NftStatus, TokenId};

verus! {

/// The application state on one chain.
pub struct NonFungibleTokenState {
    nfts: Vec<Nft>,
    num_minted_nfts: u64,
}

/// A record after it is listed for sale: offered, with a new chain owner.
pub open spec fn listed(n: Nft, chain_owner: String) -> Nft {
    Nft { status: NftStatus::OnSale, chain_owner: chain_owner, ..n }
}

spec fn holds_at(s: Seq<Nft>, t: Seq<u8>, i: int) -> bool {
    0 <= i < s.len() && s[i].token_id@ == t
}

spec fn index_of(s: Seq<Nft>, t: Seq<u8>) -> int {
    choose|i: int| holds_at(s, t, i)
}

spec fn unique_ids(s: Seq<Nft>) -> bool {
    forall|i: int, j: int| 0 <= i < s.len() && 0 <= j < s.len() && i != j ==> s[i].token_id@ != s[j].token_id@
}

spec fn owned_before(s: Seq<Nft>, owner: AccountOwner, t: Seq<u8>, n: int) -> bool {
    exists|k: int| 0 <= k < n && holds_at(s, t, k) && s[k].owner == owner
}

spec fn listed_in(r: Seq<TokenId>, t: Seq<u8>) -> bool {
    exists|j: int| 0 <= j < r.len() && r[j]@ == t
}

spec fn records_of(s: Seq<Nft>) -> Map<Seq<u8>, Nft> {
    Map::new(|t: Seq<u8>| exists|i: int| holds_at(s, t, i), |t: Seq<u8>| s[index_of(s, t)])
}

proof fn lemma_records_at(s: Seq<Nft>, i: int)
    requires
        unique_ids(s),
        0 <= i < s.len(),
    ensures
        records_of(s).contains_key(s[i].token_id@),
        records_of(s)[s[i].token_id@] == s[i],
{
    let t = s[i].token_id@;
    assert(holds_at(s, t, i));
    let j = index_of(s, t);
    assert(holds_at(s, t, j));
}

proof fn lemma_records_eq(s: Seq<Nft>, m: Map<Seq<u8>, Nft>)
    requires
        unique_ids(s),
        forall|i: int|
            0 <= i < s.len() ==> m.contains_key(#[trigger] s[i].token_id@) && m[s[i].token_id@]
                == s[i],
        forall|k: Seq<u8>| #[trigger] m.contains_key(k) ==> exists|i: int| holds_at(s, k, i),
    ensures
        records_of(s) == m,
{
    assert forall|k: Seq<u8>| records_of(s).contains_key(k) implies #[trigger] m.contains_key(k)
        && m[k] == records_of(s)[k] by {
        let i = index_of(s, k);
        assert(holds_at(s, k, i));
        lemma_records_at(s, i);
    }
    assert(records_of(s) =~= m);
}

proof fn lemma_push(s: Seq<Nft>, n: Nft)
    requires
        unique_ids(s),
        !records_of(s).contains_key(n.token_id@),
    ensures
        unique_ids(s.push(n)),
        records_of(s.push(n)) == records_of(s).insert(n.token_id@, n),
{
    let s2 = s.push(n);
    let m = records_of(s).insert(n.token_id@, n);
    assert forall|i: int| 0 <= i < s.len() implies s[i].token_id@ != n.token_id@ by {
        assert(holds_at(s, s[i].token_id@, i));
    }
    assert forall|i: int| 0 <= i < s2.len() implies m.contains_key(#[trigger] s2[i].token_id@)
        && m[s2[i].token_id@] == s2[i] by {
        if i < s.len() {
            lemma_records_at(s, i);
        }
    }
    assert forall|k: Seq<u8>| #[trigger] m.contains_key(k) implies exists|i: int| holds_at(s2, k, i) by {
        if k == n.token_id@ {
            assert(holds_at(s2, k, s.len() as int));
        } else {
            let i = index_of(s, k);
            assert(holds_at(s, k, i));
            assert(holds_at(s2, k, i));
        }
    }
    lemma_records_eq(s2, m);
}

proof fn lemma_update(s: Seq<Nft>, i: int, n: Nft)
    requires
        unique_ids(s),
        0 <= i < s.len(),
        n.token_id@ == s[i].token_id@,
    ensures
        unique_ids(s.update(i, n)),
        records_of(s.update(i, n)) == records_of(s).insert(n.token_id@, n),
{
    let s2 = s.update(i, n);
    let m = records_of(s).insert(n.token_id@, n);
    assert forall|j: int| 0 <= j < s2.len() implies m.contains_key(#[trigger] s2[j].token_id@)
        && m[s2[j].token_id@] == s2[j] by {
        if j != i {
            lemma_records_at(s, j);
        }
    }
    assert forall|k: Seq<u8>| #[trigger] m.contains_key(k) implies exists|j: int| holds_at(s2, k, j) by {
        if k == n.token_id@ {
            assert(holds_at(s2, k, i));
        } else {
            let j = index_of(s, k);
            assert(holds_at(s, k, j));
            assert(holds_at(s2, k, j));
        }
    }
    lemma_records_eq(s2, m);
}

proof fn lemma_remove(s: Seq<Nft>, i: int)
    requires
        unique_ids(s),
        0 <= i < s.len(),
    ensures
        unique_ids(s.remove(i)),
        records_of(s.remove(i)) == records_of(s).remove(s[i].token_id@),
{
    let t = s[i].token_id@;
    let s2 = s.remove(i);
    let m = records_of(s).remove(t);
    assert forall|a: int, b: int|
        0 <= a < s2.len() && 0 <= b < s2.len() && a != b implies s2[a].token_id@
        != s2[b].token_id@ by {
        let a1 = if a < i { a } else { a + 1 };
        let b1 = if b < i { b } else { b + 1 };
        assert(s2[a] == s[a1]);
        assert(s2[b] == s[b1]);
    }
    assert forall|j: int| 0 <= j < s2.len() implies m.contains_key(#[trigger] s2[j].token_id@)
        && m[s2[j].token_id@] == s2[j] by {
        let j1 = if j < i { j } else { j + 1 };
        assert(s2[j] == s[j1]);
        lemma_records_at(s, j1);
    }
    assert forall|k: Seq<u8>| #[trigger] m.contains_key(k) implies exists|j: int| holds_at(s2, k, j) by {
        let j = index_of(s, k);
        assert(holds_at(s, k, j));
        assert(j != i);
        if j < i {
            assert(holds_at(s2, k, j));
        } else {
            assert(s2[j - 1] == s[j]);
            assert(holds_at(s2, k, j - 1));
        }
    }
    lemma_records_eq(s2, m);
}

proof fn lemma_dom_len(s: Seq<Nft>)
    requires
        unique_ids(s),
    ensures
        records_of(s).dom().finite(),
        records_of(s).dom().len() == s.len(),
    decreases s.len(),
{
    if s.len() == 0 {
        assert(records_of(s).dom() =~= Set::<Seq<u8>>::empty());
    } else {
        let p = s.drop_last();
        assert(unique_ids(p));
        lemma_dom_len(p);
        assert(!records_of(p).contains_key(s.last().token_id@)) by {
            if records_of(p).contains_key(s.last().token_id@) {
                let k = index_of(p, s.last().token_id@);
                assert(holds_at(p, s.last().token_id@, k));
                assert(s[k].token_id@ == s[s.len() - 1].token_id@);
            }
        }
        lemma_push(p, s.last());
        assert(p.push(s.last()) =~= s);
        assert(records_of(s).dom() =~= records_of(p).dom().insert(s.last().token_id@));
    }
}

impl NonFungibleTokenState {
    /// No two records share an identifier.
    pub closed spec fn wf(self) -> bool {
        unique_ids(self.nfts@)
    }

    /// The records held on this chain, by token identifier.
    pub closed spec fn records(self) -> Map<Seq<u8>, Nft> {
        records_of(self.nfts@)
    }

    /// How many tokens this chain has minted.
    pub closed spec fn minted(self) -> u64 {
        self.num_minted_nfts
    }

    /// The identifiers of the tokens that `owner` holds on this chain.
    pub open spec fn owned_set(self, owner: AccountOwner) -> Set<Seq<u8>> {
        Set::new(|t: Seq<u8>| self.records().contains_key(t) && self.records()[t].owner == owner)
    }

    proof fn lemma_index(self, i: int)
        requires
            self.wf(),
            0 <= i < self.nfts@.len(),
        ensures
            self.records().contains_key(self.nfts@[i].token_id@),
            self.records()[self.nfts@[i].token_id@] == self.nfts@[i],
    {
        let t = self.nfts@[i].token_id@;
        assert(holds_at(self.nfts@, t, i));
        let j = index_of(self.nfts@, t);
        assert(holds_at(self.nfts@, t, j));
    }

    /// Each record is held under its own identifier.
    pub proof fn lemma_keys(self, t: Seq<u8>)
        requires
            self.wf(),
            self.records().contains_key(t),
        ensures
            self.records()[t].token_id@ == t,
    {
        let i = index_of(self.nfts@, t);
        assert(holds_at(self.nfts@, t, i));
    }

    /// An empty ledger that has minted nothing.
    pub fn new() -> (r: Self)
        ensures
            r.wf(),
            r.records() == Map::<Seq<u8>, Nft>::empty(),
            r.minted() == 0,
    {
        let r = NonFungibleTokenState { nfts: Vec::new(), num_minted_nfts: 0 };
        assert(r.records() =~= Map::<Seq<u8>, Nft>::empty());
        r
    }

    /// How many tokens this chain has minted.
    pub fn num_minted_nfts(&self) -> (r: u64)
        ensures
            r == self.minted(),
    {
        self.num_minted_nfts
    }

    /// Counts one more mint.
    pub fn increment_minted(&mut self) -> (r: Result<(), NftError>)
        requires
            old(self).wf(),
        ensures
            final(self).wf(),
            final(self).records() == old(self).records(),
            match r {
                Ok(_) => old(self).minted() < u64::MAX && final(self).minted() == old(self).minted()
                    + 1,
                Err(e) => old(self).minted() == u64::MAX && e == NftError::MintCounterExhausted
                    && final(self).minted() == old(self).minted(),
            },
    {
        if self.num_minted_nfts == u64::MAX {
            return Err(NftError::MintCounterExhausted);
        }
        self.num_minted_nfts = self.num_minted_nfts + 1;
        Ok(())
    }

    fn find(&self, token_id: &TokenId) -> (r: Option<usize>)
        requires
            self.wf(),
        ensures
            match r {
                Some(i) => holds_at(self.nfts@, token_id@, i as int),
                None => !self.records().contains_key(token_id@),
            },
    {
        let mut i: usize = 0;
        while i < self.nfts.len()
            invariant
                i <= self.nfts@.len(),
                forall|j: int| 0 <= j < i ==> self.nfts@[j].token_id@ != token_id@,
            decreases self.nfts@.len() - i,
        {
            if self.nfts[i].token_id == *token_id {
                return Some(i);
            }
            i = i + 1;
        }
        None
    }

    /// The record of a token held on this chain, if there is one.
    pub fn get_nft(&self, token_id: &TokenId) -> (r: Option<&Nft>)
        requires
            self.wf(),
        ensures
            match r {
                Some(n) => self.records().contains_key(token_id@) && *n == self.records()[token_id@],
                None => !self.records().contains_key(token_id@),
            },
    {
        match self.find(token_id) {
            Some(i) => {
                proof {
                    self.lemma_index(i as int);
                }
                Some(&self.nfts[i])
            },
            None => None,
        }
    }

    /// Stores a record under its identifier, replacing any record held there.
    pub fn add_nft(&mut self, nft: Nft)
        requires
            old(self).wf(),
        ensures
            final(self).wf(),
            final(self).records() == old(self).records().insert(nft.token_id@, nft),
            final(self).minted() == old(self).minted(),
    {
        match self.find(&nft.token_id) {
            Some(i) => {
                proof {
                    lemma_update(self.nfts@, i as int, nft);
                }
                self.nfts[i] = nft;
            },
            None => {
                proof {
                    lemma_push(self.nfts@, nft);
                }
                self.nfts.push(nft);
            },
        }
    }

    /// Takes a token's record out of the ledger, if it is held here.
    pub fn remove_nft(&mut self, token_id: &TokenId) -> (r: Option<Nft>)
        requires
            old(self).wf(),
        ensures
            final(self).wf(),
            final(self).minted() == old(self).minted(),
            match r {
                Some(n) => old(self).records().contains_key(token_id@) && n == old(self).records()[token_id@]
                    && n.token_id@ == token_id@
                    && final(self).records() == old(self).records().remove(token_id@),
                None => !old(self).records().contains_key(token_id@) && *final(self) == *old(self),
            },
    {
        match self.find(token_id) {
            Some(i) => {
                proof {
                    lemma_records_at(self.nfts@, i as int);
                    lemma_remove(self.nfts@, i as int);
                }
                Some(self.nfts.remove(i))
            },
            None => None,
        }
    }

    /// Offers a token for sale again and records its new chain owner. Nothing
    /// else of the record changes.
    pub fn list_nft_for_sale(&mut self, token_id: &TokenId, chain_owner: String) -> (r: Result<
        (),
        NftError,
    >)
        requires
            old(self).wf(),
        ensures
            final(self).wf(),
            final(self).minted() == old(self).minted(),
            match r {
                Ok(_) => old(self).records().contains_key(token_id@) && final(self).records()
                    == old(self).records().insert(
                    token_id@,
                    listed(old(self).records()[token_id@], chain_owner),
                ),
                Err(e) => !old(self).records().contains_key(token_id@) && e == NftError::TokenNotFound
                    && *final(self) == *old(self),
            },
    {
        match self.find(token_id) {
            Some(i) => {
                let mut n = self.nfts.remove(i);
                proof {
                    lemma_records_at(old(self).nfts@, i as int);
                }
                n.status = NftStatus::OnSale;
                n.chain_owner = chain_owner;
                proof {
                    lemma_update(old(self).nfts@, i as int, n);
                }
                self.nfts.insert(i, n);
                assert(self.nfts@ =~= old(self).nfts@.update(i as int, n));
                Ok(())
            },
            None => Err(NftError::TokenNotFound),
        }
    }

    /// The identifiers of the tokens that `owner` holds on this chain, each once.
    pub fn owned_token_ids(&self, owner: &AccountOwner) -> (r: Vec<TokenId>)
        requires
            self.wf(),
        ensures
            forall|t: Seq<u8>|
                self.owned_set(*owner).contains(t) <==> exists|j: int|
                    0 <= j < r@.len() && #[trigger] r@[j]@ == t,
            forall|a: int, b: int| 0 <= a < b < r@.len() ==> r@[a]@ != r@[b]@,
    {
        let mut r: Vec<TokenId> = Vec::new();
        let mut i: usize = 0;
        while i < self.nfts.len()
            invariant
                self.wf(),
                i <= self.nfts@.len(),
                forall|t: Seq<u8>|
                    #![trigger owned_before(self.nfts@, *owner, t, i as int)]
                    #![trigger listed_in(r@, t)]
                    owned_before(self.nfts@, *owner, t, i as int) <==> listed_in(r@, t),
                forall|a: int, b: int| 0 <= a < b < r@.len() ==> r@[a]@ != r@[b]@,
            decreases self.nfts@.len() - i,
        {
            if self.nfts[i].owner == *owner {
                let t = self.nfts[i].token_id.duplicate();
                proof {
                    assert forall|j: int| 0 <= j < r@.len() implies r@[j]@ != t@ by {
                        if r@[j]@ == t@ {
                            assert(listed_in(r@, t@));
                            assert(owned_before(self.nfts@, *owner, t@, i as int));
                            let k = choose|k: int| 0 <= k < i && holds_at(self.nfts@, t@, k) && self.nfts@[k].owner == *owner;
                            assert(holds_at(self.nfts@, t@, i as int));
                        }
                    }
                }
                let ghost r0 = r@;
                r.push(t);
                proof {
                    assert(holds_at(self.nfts@, t@, i as int));
                    assert(r@[r@.len() - 1]@ == t@);
                    assert forall|u: Seq<u8>| owned_before(self.nfts@, *owner, u, i + 1) <==> listed_in(r@, u) by {
                        if owned_before(self.nfts@, *owner, u, i + 1) && u != t@ {
                            let k = choose|k: int| 0 <= k < i + 1 && holds_at(self.nfts@, u, k) && self.nfts@[k].owner == *owner;
                            assert(k != i);
                            assert(owned_before(self.nfts@, *owner, u, i as int));
                            let j = choose|j: int| 0 <= j < r0.len() && r0[j]@ == u;
                            assert(r@[j] == r0[j]);
                        }
                        if listed_in(r@, u) && u != t@ {
                            let j = choose|j: int| 0 <= j < r@.len() && r@[j]@ == u;
                            assert(r@[j] == r0[j]);
                            assert(listed_in(r0, u));
                        }
                    }
                }
            } else {
                proof {
                    assert forall|u: Seq<u8>| owned_before(self.nfts@, *owner, u, i + 1) <==> listed_in(r@, u) by {
                        if owned_before(self.nfts@, *owner, u, i + 1) {
                            let k = choose|k: int| 0 <= k < i + 1 && holds_at(self.nfts@, u, k) && self.nfts@[k].owner == *owner;
                            assert(k != i);
                            assert(owned_before(self.nfts@, *owner, u, i as int));
                        }
                    }
                }
            }
            i = i + 1;
        }
        proof {
            assert forall|t: Seq<u8>| self.owned_set(*owner).contains(t) <==> (exists|j: int|
                0 <= j < r@.len() && #[trigger] r@[j]@ == t) by {
                if self.owned_set(*owner).contains(t) {
                    let k = index_of(self.nfts@, t);
                    assert(holds_at(self.nfts@, t, k));
                    lemma_records_at(self.nfts@, k);
                    assert(owned_before(self.nfts@, *owner, t, self.nfts@.len() as int));
                    assert(listed_in(r@, t));
                }
                if listed_in(r@, t) {
                    assert(owned_before(self.nfts@, *owner, t, self.nfts@.len() as int));
                    let k = choose|k: int| 0 <= k < self.nfts@.len() && holds_at(self.nfts@, t, k) && self.nfts@[k].owner == *owner;
                    lemma_records_at(self.nfts@, k);
                }
            }
        }
        r
    }

    /// The identifiers of all tokens held on this chain, each once.
    pub fn token_ids(&self) -> (r: Vec<TokenId>)
        requires
            self.wf(),
        ensures
            forall|t: Seq<u8>|
                self.records().contains_key(t) <==> exists|j: int|
                    0 <= j < r@.len() && #[trigger] r@[j]@ == t,
            r@.len() == self.records().dom().len(),
    {
        let mut r: Vec<TokenId> = Vec::new();
        let mut i: usize = 0;
        while i < self.nfts.len()
            invariant
                self.wf(),
                i <= self.nfts@.len(),
                r@.len() == i,
                forall|j: int| 0 <= j < i ==> #[trigger] r@[j]@ == self.nfts@[j].token_id@,
            decreases self.nfts@.len() - i,
        {
            r.push(self.nfts[i].token_id.duplicate());
            i = i + 1;
        }
        proof {
            assert forall|t: Seq<u8>| self.records().contains_key(t) <==> exists|j: int|
                0 <= j < r@.len() && #[trigger] r@[j]@ == t by {
                if self.records().contains_key(t) {
                    let k = index_of(self.nfts@, t);
                    assert(holds_at(self.nfts@, t, k));
                    assert(r@[k]@ == t);
                }
                if exists|j: int| 0 <= j < r@.len() && #[trigger] r@[j]@ == t {
                    let j = choose|j: int| 0 <= j < r@.len() && #[trigger] r@[j]@ == t;
                    assert(holds_at(self.nfts@, t, j));
                }
            }
            lemma_dom_len(self.nfts@);
        }
        r
    }

    /// A token held here whose external identifier is `id`, if there is one.
    pub fn token_id_by_external_id(&self, id: u64) -> (r: Option<TokenId>)
        requires
            self.wf(),
        ensures
            match r {
                Some(t) => self.records().contains_key(t@) && self.records()[t@].id == id,
                None => forall|t: Seq<u8>| #[trigger] self.records().contains_key(t) ==> self.records()[t].id != id,
            },
    {
        let mut i: usize = 0;
        while i < self.nfts.len()
            invariant
                self.wf(),
                i <= self.nfts@.len(),
                forall|k: int| 0 <= k < i ==> #[trigger] self.nfts@[k].id != id,
            decreases self.nfts@.len() - i,
        {
            if self.nfts[i].id == id {
                proof {
                    lemma_records_at(self.nfts@, i as int);
                }
                return Some(self.nfts[i].token_id.duplicate());
            }
            i = i + 1;
        }
        proof {
            assert forall|t: Seq<u8>| #[trigger] self.records().contains_key(t) implies self.records()[t].id != id by {
                let k = index_of(self.nfts@, t);
                assert(holds_at(self.nfts@, t, k));
            }
        }
        None
    }
}

/// Every token held on a chain is indexed under its own owner and under no
/// other, and the index names only tokens that are held.
pub proof fn lemma_owner_index_exclusive(st: NonFungibleTokenState, t: Seq<u8>, o: AccountOwner)
    requires
        st.wf(),
    ensures
        st.owned_set(o).contains(t) ==> st.records().contains_key(t),
        st.records().contains_key(t) ==> (st.owned_set(o).contains(t) <==> o
            == st.records()[t].owner),
{
}

} // verus!
