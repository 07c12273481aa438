use non_fungible::contract::{Effect, ExecutionContext, Message, NonFungibleTokenContract, Operation};
use non_fungible::identity::{Account, AccountOwner, ApplicationId, ChainId, CryptoHash, DataBlobHash};
use non_fungible::output::{token_id_from_text, NftOutput};
use non_fungible::state::NonFungibleTokenState;
use non_fungible::token::{Nft, NftError, NftStatus, TokenId};

fn hash(w0: u64) -> CryptoHash {
    CryptoHash { w0, w1: 0, w2: 0, w3: 0 }
}

fn chain(n: u64) -> ChainId {
    ChainId { hash: hash(100 + n) }
}

fn user(n: u64) -> AccountOwner {
    AccountOwner::User(hash(n))
}

fn app_id() -> ApplicationId {
    ApplicationId { hash: hash(500) }
}

fn ctx(chain_id: ChainId, signer: Option<u64>) -> ExecutionContext {
    ExecutionContext {
        chain_id,
        application_id: app_id(),
        authenticated_signer: signer.map(hash),
        authenticated_caller_id: None,
        data_blob_exists: true,
        message_is_bouncing: false,
    }
}

fn mint_op(minter: AccountOwner, name: &str, id: u64) -> Operation {
    Operation::Mint {
        minter,
        name: name.to_string(),
        blob_hash: DataBlobHash { hash: hash(42) },
        token: "ETH".to_string(),
        price: "0.05".to_string(),
        id,
        chain_minter: "minter-addr".to_string(),
        chain_owner: "owner-addr".to_string(),
        description: "a token".to_string(),
    }
}

fn transfer_op(source: AccountOwner, token_id: &TokenId, target: Account) -> Operation {
    Operation::Transfer {
        source_owner: source,
        token_id: token_id.duplicate(),
        target_account: target,
        chain_owner: "new-owner".to_string(),
        buy_from_token: "ETH".to_string(),
        to_token: "SOL".to_string(),
        amount: "1".to_string(),
    }
}

fn owned(state: &NonFungibleTokenState, owner: AccountOwner) -> Vec<Vec<u8>> {
    state.owned_token_ids(&owner).into_iter().map(|t| t.id).collect()
}

fn only_token(c: &NonFungibleTokenContract, owner: AccountOwner) -> TokenId {
    let ids = c.state().owned_token_ids(&owner);
    assert_eq!(ids.len(), 1);
    ids[0].duplicate()
}

#[test]
fn mint_transfer_and_bounce_scenario() {
    let origin = chain(1);
    let remote = chain(2);
    let mut a = NonFungibleTokenContract::instantiate();
    let mut b = NonFungibleTokenContract::instantiate();

    let effects = a.execute_operation(&ctx(origin, None), mint_op(user(1), "A", 7)).unwrap();
    assert!(effects.is_empty());
    let t = only_token(&a, user(1));
    assert_eq!(a.state().get_nft(&t).unwrap().status, NftStatus::OnSale);
    assert_eq!(owned(a.state(), user(1)), vec![t.id.clone()]);
    assert_eq!(a.state().token_id_by_external_id(7), Some(t.duplicate()));
    assert_eq!(a.state().num_minted_nfts(), 1);

    let local = Account { chain_id: origin, owner: user(2) };
    let effects = a.execute_operation(&ctx(origin, Some(1)), transfer_op(user(1), &t, local)).unwrap();
    assert_eq!(effects.len(), 1);
    assert!(matches!(effects[0], Effect::CallSwap(_)));
    assert_eq!(a.state().get_nft(&t).unwrap().owner, user(2));
    assert!(owned(a.state(), user(1)).is_empty());
    assert_eq!(owned(a.state(), user(2)), vec![t.id.clone()]);

    let far = Account { chain_id: remote, owner: user(3) };
    let mut effects = a.execute_operation(&ctx(origin, Some(2)), transfer_op(user(2), &t, far)).unwrap();
    assert!(a.state().get_nft(&t).is_none());
    assert!(owned(a.state(), user(2)).is_empty());
    assert_eq!(effects.len(), 2);
    let sent = effects.pop().unwrap();
    let (destination, message) = match sent {
        Effect::SendTracked { destination, message } => (destination, message),
        _ => panic!("expected a tracked message"),
    };
    assert_eq!(destination, remote);
    let nft = match &message {
        Message::Transfer { nft, .. } => nft,
        _ => panic!("expected a Transfer message"),
    };
    assert_eq!(nft.owner, user(2));
    assert_eq!(nft.status, NftStatus::Sold);
    let bounced = match &message {
        Message::Transfer { nft, target_account } => Message::Transfer {
            nft: copy_nft(nft),
            target_account: *target_account,
        },
        _ => unreachable!(),
    };

    let out = b.execute_message(&ctx(remote, None), message).unwrap();
    assert!(out.is_empty());
    assert_eq!(b.state().get_nft(&t).unwrap().owner, user(3));
    assert_eq!(owned(b.state(), user(3)), vec![t.id.clone()]);

    let mut back = ctx(origin, None);
    back.message_is_bouncing = true;
    a.execute_message(&back, bounced).unwrap();
    let restored = a.state().get_nft(&t).unwrap();
    assert_eq!(restored.owner, user(2));
    assert_eq!(restored.status, NftStatus::Sold);
    assert_eq!(owned(a.state(), user(2)), vec![t.id.clone()]);
}

fn copy_nft(n: &Nft) -> Nft {
    Nft {
        token_id: n.token_id.duplicate(),
        owner: n.owner,
        name: n.name.clone(),
        minter: n.minter,
        blob_hash: n.blob_hash,
        token: n.token.clone(),
        price: n.price.clone(),
        id: n.id,
        chain_minter: n.chain_minter.clone(),
        chain_owner: n.chain_owner.clone(),
        description: n.description.clone(),
        status: n.status,
    }
}

fn sample_id(counter: u64) -> TokenId {
    Nft::create_token_id(
        &ChainId { hash: CryptoHash { w0: 1, w1: 2, w2: 3, w3: 4 } },
        &ApplicationId { hash: CryptoHash { w0: 5, w1: 6, w2: 7, w3: 8 } },
        &"Art".to_string(),
        &AccountOwner::User(hash(9)),
        &DataBlobHash { hash: hash(10) },
        counter,
        &"ETH".to_string(),
        "0.05".to_string(),
        7,
        &"bob".to_string(),
        &"alice".to_string(),
    )
    .unwrap()
}

#[test]
fn token_id_is_sha3_of_the_mint_facts() {
    let t = sample_id(0);
    assert_eq!(
        t.id,
        vec![
            205, 170, 239, 82, 77, 71, 62, 158, 197, 94, 213, 22, 193, 36, 232, 192, 224, 219, 6,
            41, 140, 79, 212, 210, 18, 195, 170, 213, 14, 156, 57, 225
        ]
    );
}

#[test]
fn token_id_is_deterministic_and_salted_by_counter() {
    assert_eq!(sample_id(3), sample_id(3));
    assert_ne!(sample_id(3), sample_id(4));
}

#[test]
fn output_shows_id_in_unpadded_base64() {
    let mut c = NonFungibleTokenContract::instantiate();
    c.execute_operation(&ctx(chain(1), None), mint_op(user(1), "A", 1)).unwrap();
    let t = only_token(&c, user(1));
    let mut c2 = NonFungibleTokenContract::instantiate();
    c2.execute_operation(&ctx(chain(1), None), mint_op(user(1), "A", 1)).unwrap();
    let _ = c2;
    let nft = copy_nft(c.state().get_nft(&t).unwrap());
    let out = NftOutput::new(nft, vec![1, 2]);
    assert_eq!(out.payload, vec![1, 2]);
    assert_eq!(out.id, 1);
    assert_eq!(out.token_id.len(), 43);
    assert!(!out.token_id.ends_with('='));

    let fixed = Nft { token_id: TokenId { id: vec![1, 2, 3, 4] }, ..copy_nft(c.state().get_nft(&t).unwrap()) };
    let out = NftOutput::new(fixed, vec![]);
    assert_eq!(out.token_id, "AQIDBA");
}

#[test]
fn sample_id_in_base64() {
    let nft = Nft {
        token_id: sample_id(0),
        owner: user(1),
        name: "Art".to_string(),
        minter: user(1),
        blob_hash: DataBlobHash { hash: hash(10) },
        token: "ETH".to_string(),
        price: "0.05".to_string(),
        id: 7,
        chain_minter: "bob".to_string(),
        chain_owner: "alice".to_string(),
        description: String::new(),
        status: NftStatus::OnSale,
    };
    let out = NftOutput::new_with_token_id("given".to_string(), copy_nft(&nft), vec![9]);
    assert_eq!(out.token_id, "given");
    assert_eq!(out.name, "Art");
    let out = NftOutput::new(nft, vec![9]);
    assert_eq!(out.token_id, "zarvUk1HPp7FXtUWwSTowODbBimMT9TSEsOq1Q6cOeE");
}

#[test]
fn listing_twice_equals_listing_once() {
    let mut c = NonFungibleTokenContract::instantiate();
    c.execute_operation(&ctx(chain(1), None), mint_op(user(1), "A", 1)).unwrap();
    let t = only_token(&c, user(1));
    let local = Account { chain_id: chain(1), owner: user(2) };
    c.execute_operation(&ctx(chain(1), Some(1)), transfer_op(user(1), &t, local)).unwrap();
    assert_eq!(c.state().get_nft(&t).unwrap().status, NftStatus::Sold);
    let list = |tid: &TokenId| Operation::ListNftForSale { token_id: tid.duplicate(), chain_owner: "carol".to_string() };
    c.execute_operation(&ctx(chain(1), None), list(&t)).unwrap();
    let once = copy_nft(c.state().get_nft(&t).unwrap());
    c.execute_operation(&ctx(chain(1), None), list(&t)).unwrap();
    let twice = c.state().get_nft(&t).unwrap();
    assert_eq!(once.status, NftStatus::OnSale);
    assert_eq!(once.chain_owner, "carol");
    assert_eq!(twice.status, once.status);
    assert_eq!(twice.chain_owner, once.chain_owner);
    assert_eq!(twice.owner, once.owner);
    assert_eq!(twice.name, once.name);
}

#[test]
fn owner_index_is_exclusive() {
    let mut c = NonFungibleTokenContract::instantiate();
    c.execute_operation(&ctx(chain(1), None), mint_op(user(1), "A", 1)).unwrap();
    c.execute_operation(&ctx(chain(1), None), mint_op(user(1), "B", 2)).unwrap();
    c.execute_operation(&ctx(chain(1), None), mint_op(user(2), "C", 3)).unwrap();
    assert_eq!(c.state().num_minted_nfts(), 3);
    let ones = owned(c.state(), user(1));
    let twos = owned(c.state(), user(2));
    assert_eq!(ones.len(), 2);
    assert_eq!(twos.len(), 1);
    assert!(!ones.contains(&twos[0]));
    assert_ne!(ones[0], ones[1]);
    let t = TokenId { id: twos[0].clone() };
    assert_eq!(c.state().get_nft(&t).unwrap().owner, user(2));
    assert!(owned(c.state(), user(3)).is_empty());
}

#[test]
fn same_facts_with_a_new_counter_mint_distinct_tokens() {
    let mut c = NonFungibleTokenContract::instantiate();
    c.execute_operation(&ctx(chain(1), None), mint_op(user(1), "A", 1)).unwrap();
    c.execute_operation(&ctx(chain(1), None), mint_op(user(1), "A", 1)).unwrap();
    let ids = owned(c.state(), user(1));
    assert_eq!(ids.len(), 2);
    assert_ne!(ids[0], ids[1]);
    assert!(ids.iter().all(|id| id.len() == 32));
}

#[test]
fn mint_without_blob_is_refused() {
    let mut c = NonFungibleTokenContract::instantiate();
    let mut k = ctx(chain(1), None);
    k.data_blob_exists = false;
    assert_eq!(c.execute_operation(&k, mint_op(user(1), "A", 1)).err(), Some(NftError::BlobNotFound));
    assert_eq!(c.state().num_minted_nfts(), 0);
    assert!(owned(c.state(), user(1)).is_empty());
    assert_eq!(c.state().token_id_by_external_id(1), None);
}

#[test]
fn transfer_by_stranger_is_refused() {
    let mut c = NonFungibleTokenContract::instantiate();
    c.execute_operation(&ctx(chain(1), None), mint_op(user(1), "A", 1)).unwrap();
    let t = only_token(&c, user(1));
    let target = Account { chain_id: chain(1), owner: user(2) };
    let r = c.execute_operation(&ctx(chain(1), Some(2)), transfer_op(user(1), &t, target));
    assert_eq!(r.err(), Some(NftError::NotAuthenticated));
    let r = c.execute_operation(&ctx(chain(1), Some(2)), transfer_op(user(2), &t, target));
    assert_eq!(r.err(), Some(NftError::NotAuthenticated));
    let r = c.execute_operation(&ctx(chain(1), None), transfer_op(user(1), &t, target));
    assert_eq!(r.err(), Some(NftError::NotAuthenticated));
    assert_eq!(c.state().get_nft(&t).unwrap().owner, user(1));
}

#[test]
fn application_owner_authenticates_by_caller() {
    let mut c = NonFungibleTokenContract::instantiate();
    let owner = AccountOwner::Application(app_id());
    c.execute_operation(&ctx(chain(1), None), mint_op(owner, "A", 1)).unwrap();
    let t = only_token(&c, owner);
    let target = Account { chain_id: chain(1), owner: user(2) };
    let mut k = ctx(chain(1), Some(9));
    let r = c.execute_operation(&k, transfer_op(owner, &t, target));
    assert_eq!(r.err(), Some(NftError::NotAuthenticated));
    k.authenticated_caller_id = Some(app_id());
    c.execute_operation(&k, transfer_op(owner, &t, target)).unwrap();
    assert_eq!(c.state().get_nft(&t).unwrap().owner, user(2));
}

#[test]
fn unknown_token_is_refused() {
    let mut c = NonFungibleTokenContract::instantiate();
    let t = TokenId { id: vec![1, 2, 3] };
    let target = Account { chain_id: chain(1), owner: user(2) };
    let r = c.execute_operation(&ctx(chain(1), Some(1)), transfer_op(user(1), &t, target));
    assert_eq!(r.err(), Some(NftError::TokenNotFound));
    let r = c.execute_operation(
        &ctx(chain(1), None),
        Operation::ListNftForSale { token_id: t.duplicate(), chain_owner: "x".to_string() },
    );
    assert_eq!(r.err(), Some(NftError::TokenNotFound));
}

#[test]
fn local_claim_hands_over_and_remote_claim_sends_message() {
    let mut c = NonFungibleTokenContract::instantiate();
    c.execute_operation(&ctx(chain(1), None), mint_op(user(1), "A", 1)).unwrap();
    let t = only_token(&c, user(1));
    let source = Account { chain_id: chain(1), owner: user(1) };
    let target = Account { chain_id: chain(1), owner: user(2) };
    let claim = |s: Account| Operation::Claim { source_account: s, token_id: t.duplicate(), target_account: target };
    let r = c.execute_operation(&ctx(chain(1), Some(2)), claim(source));
    assert_eq!(r.err(), Some(NftError::NotAuthenticated));
    let effects = c.execute_operation(&ctx(chain(1), Some(1)), claim(source)).unwrap();
    assert!(effects.is_empty());
    assert_eq!(c.state().get_nft(&t).unwrap().owner, user(2));

    let remote_source = Account { chain_id: chain(2), owner: user(1) };
    let effects = c.execute_operation(&ctx(chain(1), Some(1)), claim(remote_source)).unwrap();
    assert_eq!(effects.len(), 1);
    match &effects[0] {
        Effect::SendAuthenticated { destination, message: Message::Claim { source_account, token_id, target_account } } => {
            assert_eq!(*destination, chain(2));
            assert_eq!(*source_account, remote_source);
            assert_eq!(*token_id, t);
            assert_eq!(*target_account, target);
        }
        _ => panic!("expected an authenticated Claim message"),
    }
    assert_eq!(c.state().get_nft(&t).unwrap().owner, user(2));
}

#[test]
fn claim_message_sends_token_back_to_claimant_chain() {
    let mut c = NonFungibleTokenContract::instantiate();
    c.execute_operation(&ctx(chain(1), None), mint_op(user(1), "A", 1)).unwrap();
    let t = only_token(&c, user(1));
    let source = Account { chain_id: chain(1), owner: user(1) };
    let target = Account { chain_id: chain(2), owner: user(1) };
    let msg = || Message::Claim { source_account: source, token_id: t.duplicate(), target_account: target };
    assert_eq!(c.execute_message(&ctx(chain(1), None), msg()).err(), Some(NftError::NotAuthenticated));
    let effects = c.execute_message(&ctx(chain(1), Some(1)), msg()).unwrap();
    assert_eq!(effects.len(), 1);
    assert!(matches!(effects[0], Effect::SendTracked { destination, .. } if destination == chain(2)));
    assert!(c.state().get_nft(&t).is_none());
}

#[test]
fn swap_request_carries_transfer_fields() {
    let mut c = NonFungibleTokenContract::instantiate();
    c.execute_operation(&ctx(chain(1), None), mint_op(user(1), "A", 1)).unwrap();
    let t = only_token(&c, user(1));
    let target = Account { chain_id: chain(1), owner: user(2) };
    let effects = c.execute_operation(&ctx(chain(1), Some(1)), transfer_op(user(1), &t, target)).unwrap();
    match &effects[0] {
        Effect::CallSwap(s) => {
            assert_eq!(s.from_token, "ETH");
            assert_eq!(s.to_token, "SOL");
            assert_eq!(s.amount, "1");
            assert_eq!(s.destination_address, "new-owner");
        }
        _ => panic!("expected a swap request"),
    }
    let n = c.state().get_nft(&t).unwrap();
    assert_eq!(n.chain_owner, "new-owner");
    assert_eq!(n.status, NftStatus::Sold);
}

#[test]
fn empty_ledger_holds_nothing() {
    let s = NonFungibleTokenState::new();
    assert_eq!(s.num_minted_nfts(), 0);
    assert!(s.get_nft(&TokenId { id: vec![] }).is_none());
    assert!(s.owned_token_ids(&user(1)).is_empty());
}

#[test]
fn token_id_text_round_trip() {
    let t = token_id_from_text(&"AQIDBA".to_string()).unwrap();
    assert_eq!(t.id, vec![1, 2, 3, 4]);
    assert!(token_id_from_text(&"AQIDBA==".to_string()).is_none());
    assert!(token_id_from_text(&"AQIDBB".to_string()).is_none());
    assert!(token_id_from_text(&"!!".to_string()).is_none());
    let back = NftOutput::new(
        Nft {
            token_id: t,
            owner: user(1),
            name: String::new(),
            minter: user(1),
            blob_hash: DataBlobHash { hash: hash(1) },
            token: String::new(),
            price: String::new(),
            id: 0,
            chain_minter: String::new(),
            chain_owner: String::new(),
            description: String::new(),
            status: NftStatus::Sold,
        },
        vec![],
    );
    assert_eq!(back.token_id, "AQIDBA");
}

#[test]
fn token_ids_lists_every_held_token_once() {
    let mut c = NonFungibleTokenContract::instantiate();
    c.execute_operation(&ctx(chain(1), None), mint_op(user(1), "A", 1)).unwrap();
    c.execute_operation(&ctx(chain(1), None), mint_op(user(2), "B", 2)).unwrap();
    let all = c.state().token_ids();
    assert_eq!(all.len(), 2);
    assert_ne!(all[0], all[1]);
    let t = c.state().token_id_by_external_id(2).unwrap();
    assert!(all.contains(&t));
    assert_eq!(c.state().get_nft(&t).unwrap().name, "B");
}
