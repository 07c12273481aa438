//! The token lifecycle: mint, list for sale, transfer and claim, and the
//! handling of the messages that carry tokens and claims between chains.
//!
//! Each operation or message runs to completion against the ledger and returns
//! the effects that the runtime must carry out: messages to other chains and
//! calls to the exchange application. A refused operation changes nothing.

use vstd::prelude::*;
use crate::derive_id::{mint_fields_encodable, sha3_256_of, token_id_preimage};
use crate::identity::{Account, AccountOwner, ApplicationId, ChainId, CryptoHash, DataBlobHash};
use crate::state::{listed, NonFungibleTokenState};
use crate::token::{Nft, NftError, NftStatus, TokenId};

verus! {

/// An operation submitted to this chain.
pub enum Operation {
    /// Mints a token.
    Mint {
        minter: AccountOwner,
        name: String,
        blob_hash: DataBlobHash,
        token: String,
        price: String,
        id: u64,
        chain_minter: String,
        chain_owner: String,
        description: String,
    },
    /// Moves a token held here to a (possibly remote) account, and asks the
    /// exchange application for a swap.
    Transfer {
        source_owner: AccountOwner,
        token_id: TokenId,
        target_account: Account,
        chain_owner: String,
        buy_from_token: String,
        to_token: String,
        amount: String,
    },
    /// Like `Transfer`, but the token may be held on another chain, which is
    /// then asked to send it.
    Claim { source_account: Account, token_id: TokenId, target_account: Account },
    /// Offers a token for sale again.
    ListNftForSale { token_id: TokenId, chain_owner: String },
}

/// A message between two chains of this application.
pub enum Message {
    /// Carries a token to `target_account`; when it bounces, the token returns
    /// to its previous owner.
    Transfer { nft: Nft, target_account: Account },
    /// Asks the chain that holds a token to send it to `target_account`.
    Claim { source_account: Account, token_id: TokenId, target_account: Account },
}

/// A swap request for the exchange application.
pub struct SwapRequest {
    pub from_token: String,
    pub to_token: String,
    pub amount: String,
    pub destination_address: String,
}

/// Something the runtime must do once an operation or message has run.
pub enum Effect {
    /// Call the exchange application, without waiting for its answer.
    CallSwap(SwapRequest),
    /// Send a message that comes back as a bounce if it cannot be applied.
    SendTracked { destination: ChainId, message: Message },
    /// Send a message that carries the signer's authentication.
    SendAuthenticated { destination: ChainId, message: Message },
}

/// What the runtime knows about the operation or message being executed.
pub struct ExecutionContext {
    pub chain_id: ChainId,
    pub application_id: ApplicationId,
    /// The user who signed the block, if any.
    pub authenticated_signer: Option<CryptoHash>,
    /// The application that made the call, if any.
    pub authenticated_caller_id: Option<ApplicationId>,
    /// Whether the payload named by the operation is in the blob store.
    pub data_blob_exists: bool,
    /// Whether the message being executed is returning as a bounce.
    pub message_is_bouncing: bool,
}

/// Whether `owner` is the signer or the calling application.
pub open spec fn authenticates(ctx: ExecutionContext, owner: AccountOwner) -> bool {
    match owner {
        AccountOwner::User(h) => ctx.authenticated_signer == Some(h),
        AccountOwner::Application(a) => ctx.authenticated_caller_id == Some(a),
    }
}

/// A record once it has left its owner.
pub open spec fn sold(n: Nft) -> Nft {
    Nft { status: NftStatus::Sold, ..n }
}

/// A record with a new owner.
pub open spec fn handed_to(n: Nft, owner: AccountOwner) -> Nft {
    Nft { owner: owner, ..n }
}

/// The records after `n`, held here, is moved to `target`: kept with its new
/// owner when `target` is on this chain, gone otherwise.
pub open spec fn after_transfer(
    records: Map<Seq<u8>, Nft>,
    n: Nft,
    target: Account,
    here: ChainId,
) -> Map<Seq<u8>, Nft> {
    if target.chain_id == here {
        records.insert(n.token_id@, handed_to(sold(n), target.owner))
    } else {
        records.remove(n.token_id@)
    }
}

/// The messages sent when `n` is moved to `target`.
pub open spec fn transfer_effects(n: Nft, target: Account, here: ChainId) -> Seq<Effect> {
    if target.chain_id == here {
        seq![]
    } else {
        seq![
            Effect::SendTracked {
                destination: target.chain_id,
                message: Message::Transfer { nft: sold(n), target_account: target },
            },
        ]
    }
}

/// The records after a Transfer message carrying `n` is received: `n` goes to
/// the target owner, or stays with its owner when the message bounced.
pub open spec fn after_receive(
    records: Map<Seq<u8>, Nft>,
    n: Nft,
    target: Account,
    bouncing: bool,
) -> Map<Seq<u8>, Nft> {
    records.insert(n.token_id@, if bouncing { n } else { handed_to(n, target.owner) })
}

/// The record made by a mint.
pub open spec fn minted_record(
    n: Nft,
    token_id: Seq<u8>,
    minter: AccountOwner,
    name: String,
    blob_hash: DataBlobHash,
    token: String,
    price: String,
    id: u64,
    chain_minter: String,
    chain_owner: String,
    description: String,
) -> bool {
    &&& n.token_id@ == token_id
    &&& n.owner == minter
    &&& n.minter == minter
    &&& n.name == name
    &&& n.blob_hash == blob_hash
    &&& n.token == token
    &&& n.price == price
    &&& n.id == id
    &&& n.chain_minter == chain_minter
    &&& n.chain_owner == chain_owner
    &&& n.description == description
    &&& n.status == NftStatus::OnSale
}

/// The identifier a mint derives from its facts and the counter before it.
pub open spec fn mint_token_id(
    ctx: ExecutionContext,
    num_minted_nfts: u64,
    minter: AccountOwner,
    name: String,
    blob_hash: DataBlobHash,
    token: String,
    price: String,
    id: u64,
    chain_minter: String,
    chain_owner: String,
) -> Seq<u8> {
    sha3_256_of(
        token_id_preimage(
            ctx.chain_id,
            ctx.application_id,
            name@,
            minter,
            blob_hash,
            num_minted_nfts,
            token@,
            price@,
            id,
            chain_minter@,
            chain_owner@,
        ),
    )
}

/// The swap asked for by a Transfer operation.
pub open spec fn swap_effect(
    buy_from_token: String,
    to_token: String,
    amount: String,
    chain_owner: String,
) -> Effect {
    Effect::CallSwap(
        SwapRequest {
            from_token: buy_from_token,
            to_token: to_token,
            amount: amount,
            destination_address: chain_owner,
        },
    )
}

/// The error of an authenticated hand-over of `token_id` on behalf of `claimant`,
/// if it is refused.
pub open spec fn hand_over_error(
    records: Map<Seq<u8>, Nft>,
    ctx: ExecutionContext,
    claimant: AccountOwner,
    token_id: Seq<u8>,
) -> Option<NftError> {
    if !authenticates(ctx, claimant) {
        Some(NftError::NotAuthenticated)
    } else if !records.contains_key(token_id) {
        Some(NftError::TokenNotFound)
    } else if !authenticates(ctx, records[token_id].owner) {
        Some(NftError::NotAuthenticated)
    } else {
        None
    }
}

/// A result without its effects.
pub open spec fn without_effects(r: Result<Vec<Effect>, NftError>) -> Result<(), NftError> {
    match r {
        Ok(_) => Ok(()),
        Err(e) => Err(e),
    }
}

/// What a mint does: on success the new record stands under its derived
/// identifier and the counter has grown by one; a refusal changes nothing.
pub open spec fn mint_outcome(
    pre: NonFungibleTokenContract,
    post: NonFungibleTokenContract,
    ctx: ExecutionContext,
    owner: AccountOwner,
    name: String,
    blob_hash: DataBlobHash,
    token: String,
    price: String,
    id: u64,
    chain_minter: String,
    chain_owner: String,
    description: String,
    r: Result<(), NftError>,
) -> bool {
    &&& match r {
        Ok(_) => {
            let t = mint_token_id(
                ctx,
                pre.ledger().minted(),
                owner,
                name,
                blob_hash,
                token,
                price,
                id,
                chain_minter,
                chain_owner,
            );
            &&& ctx.data_blob_exists
            &&& mint_fields_encodable(token@, price@, chain_minter@, chain_owner@)
            &&& post.records().contains_key(t)
            &&& minted_record(
                post.records()[t],
                t,
                owner,
                name,
                blob_hash,
                token,
                price,
                id,
                chain_minter,
                chain_owner,
                description,
            )
            &&& post.records().remove(t) == pre.records().remove(t)
            &&& post.ledger().minted() == pre.ledger().minted() + 1
        },
        Err(e) => post == pre && if !ctx.data_blob_exists {
            e == NftError::BlobNotFound
        } else if !mint_fields_encodable(token@, price@, chain_minter@, chain_owner@) {
            e == NftError::EncodingFailed
        } else {
            e == NftError::MintCounterExhausted && pre.ledger().minted() == u64::MAX
        }
    }
}

/// What a Transfer operation does: the authenticated hand-over of the token,
/// with its new chain owner, preceded by the swap request.
pub open spec fn transfer_outcome(
    pre: NonFungibleTokenContract,
    post: NonFungibleTokenContract,
    ctx: ExecutionContext,
    source_owner: AccountOwner,
    token_id: TokenId,
    target_account: Account,
    chain_owner: String,
    buy_from_token: String,
    to_token: String,
    amount: String,
    r: Result<Vec<Effect>, NftError>,
) -> bool {
    &&& match r {
        Ok(effects) => {
            let n = Nft { chain_owner: chain_owner, ..pre.records()[token_id@] };
            &&& hand_over_error(pre.records(), ctx, source_owner, token_id@).is_none()
            &&& post.records() == after_transfer(
                pre.records(),
                n,
                target_account,
                ctx.chain_id,
            )
            &&& effects@ == seq![swap_effect(buy_from_token, to_token, amount, chain_owner)]
                + transfer_effects(n, target_account, ctx.chain_id)
            &&& post.ledger().minted() == pre.ledger().minted()
        },
        Err(e) => hand_over_error(pre.records(), ctx, source_owner, token_id@) == Some(
            e,
        ) && post == pre
    }
}

/// What a Claim operation does: a hand-over when the token is held here, an
/// authenticated Claim message to its chain otherwise.
pub open spec fn claim_outcome(
    pre: NonFungibleTokenContract,
    post: NonFungibleTokenContract,
    ctx: ExecutionContext,
    source_account: Account,
    token_id: TokenId,
    target_account: Account,
    r: Result<Vec<Effect>, NftError>,
) -> bool {
    &&& source_account.chain_id == ctx.chain_id ==> match r {
        Ok(effects) => {
            let n = pre.records()[token_id@];
            &&& hand_over_error(
                pre.records(),
                ctx,
                source_account.owner,
                token_id@,
            ).is_none()
            &&& post.records() == after_transfer(
                pre.records(),
                n,
                target_account,
                ctx.chain_id,
            )
            &&& effects@ == transfer_effects(n, target_account, ctx.chain_id)
            &&& post.ledger().minted() == pre.ledger().minted()
        },
        Err(e) => hand_over_error(
            pre.records(),
            ctx,
            source_account.owner,
            token_id@,
        ) == Some(e) && post == pre
    }
    &&& source_account.chain_id != ctx.chain_id ==> post == pre && match r {
        Ok(effects) => authenticates(ctx, source_account.owner) && effects@ == seq![
            Effect::SendAuthenticated {
                destination: source_account.chain_id,
                message: Message::Claim { source_account, token_id, target_account },
            },
        ],
        Err(e) => !authenticates(ctx, source_account.owner) && e
            == NftError::NotAuthenticated
    }
}

/// What listing a token for sale does: the record is listed, nothing else
/// changes.
pub open spec fn list_outcome(
    pre: NonFungibleTokenContract,
    post: NonFungibleTokenContract,
    token_id: TokenId, chain_owner: String, r: Result<(), NftError>,
) -> bool {
    &&& post.ledger().minted() == pre.ledger().minted()
    &&& match r {
        Ok(_) => pre.records().contains_key(token_id@) && post.records()
            == pre.records().insert(
            token_id@,
            listed(pre.records()[token_id@], chain_owner),
        ),
        Err(e) => !pre.records().contains_key(token_id@) && e == NftError::TokenNotFound
            && post == pre
    }
}

/// What receiving a message does: a Transfer stores the carried token, for its
/// target owner unless the message bounced; a Claim hands the token over as a
/// local claim does.
pub open spec fn message_outcome(
    pre: NonFungibleTokenContract,
    post: NonFungibleTokenContract,
    ctx: ExecutionContext,
    message: Message,
    r: Result<Vec<Effect>, NftError>,
) -> bool {
    &&& post.ledger().minted() == pre.ledger().minted()
    &&& match message {
        Message::Transfer { nft, target_account } => r matches Ok(effects) && effects@.len()
            == 0 && post.records() == after_receive(
            pre.records(),
            nft,
            target_account,
            ctx.message_is_bouncing,
        ),
        Message::Claim { source_account, token_id, target_account } => match r {
            Ok(effects) => {
                let n = pre.records()[token_id@];
                &&& hand_over_error(
                    pre.records(),
                    ctx,
                    source_account.owner,
                    token_id@,
                ).is_none()
                &&& post.records() == after_transfer(
                    pre.records(),
                    n,
                    target_account,
                    ctx.chain_id,
                )
                &&& effects@ == transfer_effects(n, target_account, ctx.chain_id)
            },
            Err(e) => hand_over_error(
                pre.records(),
                ctx,
                source_account.owner,
                token_id@,
            ) == Some(e) && post == pre,
        },
    }
}

/// The application on one chain: its ledger.
pub struct NonFungibleTokenContract {
    state: NonFungibleTokenState,
}

impl NonFungibleTokenContract {
    /// The ledger this application keeps on its chain.
    pub closed spec fn ledger(self) -> NonFungibleTokenState {
        self.state
    }

    /// The token records held on this chain.
    pub open spec fn records(self) -> Map<Seq<u8>, Nft> {
        self.ledger().records()
    }

    /// The ledger is well formed.
    pub open spec fn wf(self) -> bool {
        self.ledger().wf()
    }

    /// A fresh application: no tokens, nothing minted.
    pub fn instantiate() -> (r: Self)
        ensures
            r.wf(),
            r.records() == Map::<Seq<u8>, Nft>::empty(),
            r.ledger().minted() == 0,
    {
        NonFungibleTokenContract { state: NonFungibleTokenState::new() }
    }

    /// The ledger, for reading.
    pub fn state(&self) -> (r: &NonFungibleTokenState)
        ensures
            *r == self.ledger(),
    {
        &self.state
    }

    /// Succeeds exactly when `owner` is the signer or the calling application.
    pub fn check_account_authentication(ctx: &ExecutionContext, owner: &AccountOwner) -> (r: Result<
        (),
        NftError,
    >)
        ensures
            r is Ok <==> authenticates(*ctx, *owner),
            r matches Err(e) ==> e == NftError::NotAuthenticated,
    {
        let ok = match owner {
            AccountOwner::User(h) => match ctx.authenticated_signer {
                Some(s) => s == *h,
                None => false,
            },
            AccountOwner::Application(a) => match ctx.authenticated_caller_id {
                Some(c) => c == *a,
                None => false,
            },
        };
        if ok {
            Ok(())
        } else {
            Err(NftError::NotAuthenticated)
        }
    }

    /// Moves a record that has been taken out of the ledger to `target_account`:
    /// back into the ledger with its new owner when the target is on this chain,
    /// or into a tracked Transfer message otherwise. Either way it is now sold.
    fn transfer(&mut self, ctx: &ExecutionContext, nft: Nft, target_account: Account) -> (r: Vec<
        Effect,
    >)
        requires
            old(self).wf(),
            !old(self).records().contains_key(nft.token_id@),
        ensures
            final(self).wf(),
            final(self).ledger().minted() == old(self).ledger().minted(),
            final(self).records() == after_transfer(
                old(self).records().insert(nft.token_id@, nft),
                nft,
                target_account,
                ctx.chain_id,
            ),
            r@ == transfer_effects(nft, target_account, ctx.chain_id),
    {
        let ghost n0 = nft;
        let mut nft = nft;
        nft.status = NftStatus::Sold;
        let mut effects: Vec<Effect> = Vec::new();
        if target_account.chain_id == ctx.chain_id {
            nft.owner = target_account.owner;
            self.state.add_nft(nft);
            assert(final(self).records() =~= after_transfer(
                old(self).records().insert(n0.token_id@, n0),
                n0,
                target_account,
                ctx.chain_id,
            ));
        } else {
            let destination = target_account.chain_id;
            effects.push(
                Effect::SendTracked {
                    destination,
                    message: Message::Transfer { nft, target_account },
                },
            );
            assert(self.records() =~= old(self).records().insert(n0.token_id@, n0).remove(
                n0.token_id@,
            ));
        }
        assert(effects@ =~= transfer_effects(n0, target_account, ctx.chain_id));
        effects
    }

    /// Takes a token out of the ledger on behalf of `claimant`, who must be
    /// authenticated, as must the token's owner.
    fn take_authenticated(
        &mut self,
        ctx: &ExecutionContext,
        claimant: &AccountOwner,
        token_id: &TokenId,
    ) -> (r: Result<Nft, NftError>)
        requires
            old(self).wf(),
        ensures
            final(self).wf(),
            match r {
                Ok(n) => hand_over_error(old(self).records(), *ctx, *claimant, token_id@).is_none()
                    && n == old(self).records()[token_id@] && n.token_id@ == token_id@ && final(self).records()
                    == old(self).records().remove(token_id@) && final(self).ledger().minted()
                    == old(self).ledger().minted(),
                Err(e) => hand_over_error(old(self).records(), *ctx, *claimant, token_id@) == Some(e)
                    && *final(self) == *old(self),
            },
    {
        Self::check_account_authentication(ctx, claimant)?;
        let owner = match self.state.get_nft(token_id) {
            Some(n) => n.owner,
            None => return Err(NftError::TokenNotFound),
        };
        Self::check_account_authentication(ctx, &owner)?;
        match self.state.remove_nft(token_id) {
            Some(n) => Ok(n),
            None => Err(NftError::TokenNotFound),
        }
    }

    /// Mints a token for `owner`. Its identifier is derived from the mint facts
    /// and the counter, which then grows by one. The payload must exist.
    pub fn mint(
        &mut self,
        ctx: &ExecutionContext,
        owner: AccountOwner,
        name: String,
        blob_hash: DataBlobHash,
        token: String,
        price: String,
        id: u64,
        chain_minter: String,
        chain_owner: String,
        description: String,
    ) -> (r: Result<(), NftError>)
        requires
            old(self).wf(),
        ensures
            final(self).wf(),
            mint_outcome(
                *old(self),
                *final(self),
                *ctx,
                owner,
                name,
                blob_hash,
                token,
                price,
                id,
                chain_minter,
                chain_owner,
                description,
                r,
            ),
    {
        if !ctx.data_blob_exists {
            return Err(NftError::BlobNotFound);
        }
        let counter = self.state.num_minted_nfts();
        let token_id = Nft::create_token_id(
            &ctx.chain_id,
            &ctx.application_id,
            &name,
            &owner,
            &blob_hash,
            counter,
            &token,
            price.clone(),
            id,
            &chain_minter,
            &chain_owner,
        )?;
        if counter == u64::MAX {
            return Err(NftError::MintCounterExhausted);
        }
        let ghost t = token_id@;
        let nft = Nft {
            token_id,
            owner,
            name,
            minter: owner,
            blob_hash,
            token,
            price,
            id,
            chain_minter,
            chain_owner,
            description,
            status: NftStatus::OnSale,
        };
        self.state.add_nft(nft);
        let _ = self.state.increment_minted();
        assert(final(self).records().remove(t) =~= old(self).records().remove(t));
        Ok(())
    }

    /// Moves a token held here to `target_account` on behalf of `source_owner`,
    /// after recording `chain_owner` on it, and asks the exchange application to
    /// swap `amount` of `buy_from_token` into `to_token` for `chain_owner`.
    pub fn transfer_nft(
        &mut self,
        ctx: &ExecutionContext,
        source_owner: AccountOwner,
        token_id: TokenId,
        target_account: Account,
        chain_owner: String,
        buy_from_token: String,
        to_token: String,
        amount: String,
    ) -> (r: Result<Vec<Effect>, NftError>)
        requires
            old(self).wf(),
        ensures
            final(self).wf(),
            transfer_outcome(
                *old(self),
                *final(self),
                *ctx,
                source_owner,
                token_id,
                target_account,
                chain_owner,
                buy_from_token,
                to_token,
                amount,
                r,
            ),
    {
        let mut nft = self.take_authenticated(ctx, &source_owner, &token_id)?;
        let ghost taken = *self;
        nft.chain_owner = chain_owner.clone();
        let swap = Effect::CallSwap(
            SwapRequest {
                from_token: buy_from_token,
                to_token,
                amount,
                destination_address: chain_owner,
            },
        );
        let mut effects: Vec<Effect> = Vec::new();
        effects.push(swap);
        let ghost n = nft;
        let mut sent = self.transfer(ctx, nft, target_account);
        effects.append(&mut sent);
        assert(after_transfer(taken.records().insert(n.token_id@, n), n, target_account, ctx.chain_id)
            =~= after_transfer(old(self).records(), n, target_account, ctx.chain_id));
        Ok(effects)
    }

    /// Moves a token held here to `target_account` on behalf of `claimant`.
    fn hand_over(
        &mut self,
        ctx: &ExecutionContext,
        claimant: &AccountOwner,
        token_id: &TokenId,
        target_account: Account,
    ) -> (r: Result<Vec<Effect>, NftError>)
        requires
            old(self).wf(),
        ensures
            final(self).wf(),
            match r {
                Ok(effects) => {
                    let n = old(self).records()[token_id@];
                    &&& hand_over_error(old(self).records(), *ctx, *claimant, token_id@).is_none()
                    &&& final(self).records() == after_transfer(
                        old(self).records(),
                        n,
                        target_account,
                        ctx.chain_id,
                    )
                    &&& effects@ == transfer_effects(n, target_account, ctx.chain_id)
                    &&& final(self).ledger().minted() == old(self).ledger().minted()
                },
                Err(e) => hand_over_error(old(self).records(), *ctx, *claimant, token_id@) == Some(e)
                    && *final(self) == *old(self),
            },
    {
        let nft = self.take_authenticated(ctx, claimant, token_id)?;
        let ghost taken = *self;
        let ghost n = nft;
        let effects = self.transfer(ctx, nft, target_account);
        assert(taken.records().insert(n.token_id@, n) =~= old(self).records());
        Ok(effects)
    }

    /// Claims a token for `target_account`. When `source_account` is on this
    /// chain the token is handed over at once; otherwise its chain is sent an
    /// authenticated Claim message. The source owner must be authenticated.
    pub fn claim(
        &mut self,
        ctx: &ExecutionContext,
        source_account: Account,
        token_id: TokenId,
        target_account: Account,
    ) -> (r: Result<Vec<Effect>, NftError>)
        requires
            old(self).wf(),
        ensures
            final(self).wf(),
            claim_outcome(
                *old(self),
                *final(self),
                *ctx,
                source_account,
                token_id,
                target_account,
                r,
            ),
    {
        if source_account.chain_id == ctx.chain_id {
            self.hand_over(ctx, &source_account.owner, &token_id, target_account)
        } else {
            Self::check_account_authentication(ctx, &source_account.owner)?;
            Ok(Self::remote_claim(source_account, token_id, target_account))
        }
    }

    /// The authenticated Claim message for a token held on another chain.
    fn remote_claim(source_account: Account, token_id: TokenId, target_account: Account) -> (r: Vec<
        Effect,
    >)
        ensures
            r@ == seq![
                Effect::SendAuthenticated {
                    destination: source_account.chain_id,
                    message: Message::Claim { source_account, token_id, target_account },
                },
            ],
    {
        let destination = source_account.chain_id;
        let mut effects: Vec<Effect> = Vec::new();
        effects.push(
            Effect::SendAuthenticated {
                destination,
                message: Message::Claim { source_account, token_id, target_account },
            },
        );
        assert(effects@ =~= seq![
            Effect::SendAuthenticated {
                destination: source_account.chain_id,
                message: Message::Claim { source_account, token_id, target_account },
            },
        ]);
        effects
    }

    /// Offers a token held here for sale again, with a new chain owner.
    pub fn list_nft_for_sale(&mut self, token_id: TokenId, chain_owner: String) -> (r: Result<
        (),
        NftError,
    >)
        requires
            old(self).wf(),
        ensures
            final(self).wf(),
            list_outcome(*old(self), *final(self), token_id, chain_owner, r),
    {
        self.state.list_nft_for_sale(&token_id, chain_owner)
    }

    /// Receives a message from another chain (or, bouncing, from this one).
    /// A Transfer stores the carried token, for its target owner unless the
    /// message bounced. A Claim hands the token over on behalf of the source
    /// owner, as a local claim does.
    pub fn execute_message(&mut self, ctx: &ExecutionContext, message: Message) -> (r: Result<
        Vec<Effect>,
        NftError,
    >)
        requires
            old(self).wf(),
        ensures
            final(self).wf(),
            message_outcome(*old(self), *final(self), *ctx, message, r),
    {
        match message {
            Message::Transfer { nft, target_account } => {
                let mut nft = nft;
                if !ctx.message_is_bouncing {
                    nft.owner = target_account.owner;
                }
                self.state.add_nft(nft);
                Ok(Vec::new())
            },
            Message::Claim { source_account, token_id, target_account } => {
                self.hand_over(ctx, &source_account.owner, &token_id, target_account)
            },
        }
    }

    /// Executes an operation submitted to this chain.
    pub fn execute_operation(&mut self, ctx: &ExecutionContext, operation: Operation) -> (r: Result<
        Vec<Effect>,
        NftError,
    >)
        requires
            old(self).wf(),
        ensures
            final(self).wf(),
            match operation {
                Operation::Mint {
                    minter,
                    name,
                    blob_hash,
                    token,
                    price,
                    id,
                    chain_minter,
                    chain_owner,
                    description,
                } => mint_outcome(
                    *old(self),
                    *final(self),
                    *ctx,
                    minter,
                    name,
                    blob_hash,
                    token,
                    price,
                    id,
                    chain_minter,
                    chain_owner,
                    description,
                    without_effects(r),
                ) && (r matches Ok(effects) ==> effects@.len() == 0),
                Operation::Transfer {
                    source_owner,
                    token_id,
                    target_account,
                    chain_owner,
                    buy_from_token,
                    to_token,
                    amount,
                } => transfer_outcome(
                    *old(self),
                    *final(self),
                    *ctx,
                    source_owner,
                    token_id,
                    target_account,
                    chain_owner,
                    buy_from_token,
                    to_token,
                    amount,
                    r,
                ),
                Operation::Claim { source_account, token_id, target_account } => claim_outcome(
                    *old(self),
                    *final(self),
                    *ctx,
                    source_account,
                    token_id,
                    target_account,
                    r,
                ),
                Operation::ListNftForSale { token_id, chain_owner } => list_outcome(
                    *old(self),
                    *final(self),
                    token_id,
                    chain_owner,
                    without_effects(r),
                ) && (r matches Ok(effects) ==> effects@.len() == 0),
            },
    {
        match operation {
            Operation::Mint {
                minter,
                name,
                blob_hash,
                token,
                price,
                id,
                chain_minter,
                chain_owner,
                description,
            } => {
                self.mint(
                    ctx,
                    minter,
                    name,
                    blob_hash,
                    token,
                    price,
                    id,
                    chain_minter,
                    chain_owner,
                    description,
                )?;
                Ok(Vec::new())
            },
            Operation::Transfer {
                source_owner,
                token_id,
                target_account,
                chain_owner,
                buy_from_token,
                to_token,
                amount,
            } => self.transfer_nft(
                ctx,
                source_owner,
                token_id,
                target_account,
                chain_owner,
                buy_from_token,
                to_token,
                amount,
            ),
            Operation::Claim { source_account, token_id, target_account } => {
                self.claim(ctx, source_account, token_id, target_account)
            },
            Operation::ListNftForSale { token_id, chain_owner } => {
                self.list_nft_for_sale(token_id, chain_owner)?;
                Ok(Vec::new())
            },
        }
    }
}

/// Listing a token for sale a second time with the same chain owner succeeds
/// and leaves the records as the first listing left them.
pub proof fn lemma_list_idempotent(
    pre: NonFungibleTokenContract,
    once: NonFungibleTokenContract,
    twice: NonFungibleTokenContract,
    token_id: TokenId,
    chain_owner: String,
    r: Result<(), NftError>,
)
    requires
        list_outcome(pre, once, token_id, chain_owner, Ok(())),
        list_outcome(once, twice, token_id, chain_owner, r),
    ensures
        r is Ok,
        twice.records() == once.records(),
{
    assert(once.records().contains_key(token_id@));
    assert(twice.records() =~= once.records());
}

/// A token sent by a Transfer operation to another chain leaves the records of
/// its chain at once and travels in exactly one message. When that message is
/// applied at its destination, where the token was not held, the token is held
/// there once, by the target owner, and nothing else changes there.
pub proof fn lemma_transfer_conserves(
    pre: NonFungibleTokenContract,
    sent: NonFungibleTokenContract,
    ctx: ExecutionContext,
    source_owner: AccountOwner,
    token_id: TokenId,
    target_account: Account,
    chain_owner: String,
    buy_from_token: String,
    to_token: String,
    amount: String,
    effects: Vec<Effect>,
    dest_pre: NonFungibleTokenContract,
    dest_post: NonFungibleTokenContract,
    dest_ctx: ExecutionContext,
    message: Message,
    r: Result<Vec<Effect>, NftError>,
)
    requires
        pre.wf(),
        transfer_outcome(
            pre,
            sent,
            ctx,
            source_owner,
            token_id,
            target_account,
            chain_owner,
            buy_from_token,
            to_token,
            amount,
            Ok(effects),
        ),
        target_account.chain_id != ctx.chain_id,
        !dest_pre.records().contains_key(token_id@),
        dest_ctx.chain_id == target_account.chain_id,
        !dest_ctx.message_is_bouncing,
        effects@[1] == (Effect::SendTracked { destination: dest_ctx.chain_id, message: message }),
        message_outcome(dest_pre, dest_post, dest_ctx, message, r),
    ensures
        pre.records().contains_key(token_id@),
        !sent.records().contains_key(token_id@),
        effects@.len() == 2,
        effects@[1] is SendTracked,
        dest_post.records().contains_key(token_id@),
        dest_post.records()[token_id@].owner == target_account.owner,
        dest_post.records().remove(token_id@) == dest_pre.records().remove(token_id@),
{
    let n = Nft { chain_owner: chain_owner, ..pre.records()[token_id@] };
    assert(effects@ == seq![swap_effect(buy_from_token, to_token, amount, chain_owner)]
        + transfer_effects(n, target_account, ctx.chain_id));
    assert(effects@[1] == transfer_effects(n, target_account, ctx.chain_id)[0]);
    assert(n.token_id@ == token_id@) by {
        pre.ledger().lemma_keys(token_id@);
    }
    assert(dest_post.records().remove(token_id@) =~= dest_pre.records().remove(token_id@));
}

/// A Transfer message that leaves for another chain and comes back as a bounce
/// returns the token to its chain of origin, held by the owner it had before it
/// left and indexed under that owner, whatever happened there meanwhile.
pub proof fn lemma_bounce_restores(
    pre: NonFungibleTokenContract,
    sent: NonFungibleTokenContract,
    ctx: ExecutionContext,
    source_owner: AccountOwner,
    token_id: TokenId,
    target_account: Account,
    chain_owner: String,
    buy_from_token: String,
    to_token: String,
    amount: String,
    effects: Vec<Effect>,
    mid: NonFungibleTokenContract,
    back: NonFungibleTokenContract,
    back_ctx: ExecutionContext,
    destination: ChainId,
    message: Message,
    r: Result<Vec<Effect>, NftError>,
)
    requires
        pre.wf(),
        transfer_outcome(
            pre,
            sent,
            ctx,
            source_owner,
            token_id,
            target_account,
            chain_owner,
            buy_from_token,
            to_token,
            amount,
            Ok(effects),
        ),
        target_account.chain_id != ctx.chain_id,
        back_ctx.chain_id == ctx.chain_id,
        back_ctx.message_is_bouncing,
        effects@[1] == (Effect::SendTracked { destination: destination, message: message }),
        mid.wf(),
        message_outcome(mid, back, back_ctx, message, r),
    ensures
        back.records().contains_key(token_id@),
        back.records()[token_id@].owner == pre.records()[token_id@].owner,
        back.ledger().owned_set(pre.records()[token_id@].owner).contains(token_id@),
{
    let n = Nft { chain_owner: chain_owner, ..pre.records()[token_id@] };
    assert(effects@ == seq![swap_effect(buy_from_token, to_token, amount, chain_owner)]
        + transfer_effects(n, target_account, ctx.chain_id));
    assert(effects@[1] == transfer_effects(n, target_account, ctx.chain_id)[0]);
    assert(n.token_id@ == token_id@) by {
        pre.ledger().lemma_keys(token_id@);
    }
}

} // verus!
