use nft_registry::registry::Contract;
use nft_registry::types::{ContractMetadata, MintError, RefundTransfer, TokenMetadata};

fn titled(t: &str) -> TokenMetadata {
    TokenMetadata::new_titled(String::from(t))
}

fn fresh(price: u64) -> Contract {
    Contract::new_default_meta(String::from("registry.test"), price)
}

#[test]
fn purchase_mint_exact_deposit_no_refund() {
    let mut c = fresh(10);
    let id = String::from("tok-1");
    let owner = String::from("alice");
    let meta = titled("x");
    let required = c.required_mint_cost(&id, &owner, &meta);
    let before = c.snapshot();
    let r = c
        .nft_mint_purchase(id.clone(), owner.clone(), Some(meta), Some(owner.clone()), required)
        .unwrap();
    let (token, refund) = r;
    assert_eq!(token.token_id, "tok-1");
    assert_eq!(token.owner_id, "alice");
    assert_eq!(token.metadata.unwrap().title.unwrap(), "x");
    assert_eq!(token.approved_account_ids.unwrap().len(), 0);
    // surplus is zero, which is below the dust threshold: nothing dispatched
    assert!(refund.is_none());
    assert_eq!(c.owner_of(&id).unwrap(), "alice");
    // the meter moved by exactly the measured delta
    let after = c.snapshot();
    assert_eq!(c.cost_of(after - before), required);
}

#[test]
fn duplicate_purchase_rejected_without_mutation() {
    let mut c = fresh(10);
    let id = String::from("tok-1");
    let owner = String::from("alice");
    let required = c.required_mint_cost(&id, &owner, &titled("x"));
    c.nft_mint_purchase(id.clone(), owner.clone(), Some(titled("x")), Some(owner.clone()), required)
        .unwrap();
    let usage = c.snapshot();
    let again = c.nft_mint_purchase(
        id.clone(),
        owner.clone(),
        Some(titled("x")),
        Some(owner.clone()),
        required,
    );
    assert_eq!(again.unwrap_err(), MintError::DuplicateToken);
    assert_eq!(c.snapshot(), usage);
    assert_eq!(c.owner_of(&id).unwrap(), "alice");
    assert_eq!(c.metadata_of(&id).unwrap().title.unwrap(), "x");
}

#[test]
fn missing_metadata_rejected_without_mutation() {
    let mut c = fresh(10);
    let id = String::from("tok-1");
    let r = c.nft_mint_purchase(
        id.clone(),
        String::from("alice"),
        None,
        Some(String::from("alice")),
        1_000_000,
    );
    assert_eq!(r.unwrap_err(), MintError::MissingMetadata);
    assert!(!c.contains_token(&id));
    assert_eq!(c.snapshot(), 0);
}

#[test]
fn insufficient_deposit_carries_required_amount() {
    let mut c = fresh(7);
    let id = String::from("tok-1");
    let owner = String::from("alice");
    let meta = titled("x");
    let required = c.required_mint_cost(&id, &owner, &meta);
    let r = c.nft_mint_purchase(
        id.clone(),
        owner.clone(),
        Some(meta),
        Some(owner.clone()),
        required - 1,
    );
    assert_eq!(r.unwrap_err(), MintError::InsufficientDeposit(required));
    assert!(!c.contains_token(&id));
    assert_eq!(c.snapshot(), 0);
}

#[test]
fn surplus_above_dust_is_refunded_exactly() {
    let mut c = fresh(7);
    let id = String::from("tok-1");
    let owner = String::from("alice");
    let payer = String::from("bob");
    let meta = titled("x");
    let required = c.required_mint_cost(&id, &owner, &meta);
    let (_, refund) = c
        .nft_mint_purchase(id, owner, Some(meta), Some(payer), required + 100)
        .unwrap();
    assert_eq!(
        refund.unwrap(),
        RefundTransfer { target: String::from("bob"), amount: 100 }
    );
}

#[test]
fn surplus_at_dust_threshold_is_skipped() {
    let mut c = fresh(7);
    let id = String::from("tok-1");
    let owner = String::from("alice");
    let meta = titled("x");
    let required = c.required_mint_cost(&id, &owner, &meta);
    let (_, refund) = c
        .nft_mint_purchase(id, owner, Some(meta), Some(String::from("bob")), required + 1)
        .unwrap();
    assert!(refund.is_none());
}

#[test]
fn no_refund_target_skips_payment_validation() {
    let mut c = fresh(1_000_000);
    let id = String::from("tok-1");
    let (token, refund) = c
        .nft_mint_purchase(id.clone(), String::from("alice"), Some(titled("x")), None, 0)
        .unwrap();
    assert!(refund.is_none());
    assert_eq!(token.owner_id, "alice");
    assert_eq!(c.owner_of(&id).unwrap(), "alice");
    assert_eq!(c.metadata_of(&id).unwrap().title.unwrap(), "x");
}

#[test]
fn token_ids_are_never_reissued() {
    let mut c = fresh(1);
    let id = String::from("game-7");
    c.nft_mint(id.clone(), String::from("alice"), titled("one")).unwrap();
    let by_mint = c.nft_mint(id.clone(), String::from("bob"), titled("two"));
    assert_eq!(by_mint.unwrap_err(), MintError::DuplicateToken);
    let by_purchase = c.nft_mint_purchase(id.clone(), String::from("bob"), Some(titled("two")), None, 0);
    assert_eq!(by_purchase.unwrap_err(), MintError::DuplicateToken);
    // the first assignment is untouched
    assert_eq!(c.owner_of(&id).unwrap(), "alice");
    assert_eq!(c.metadata_of(&id).unwrap().title.unwrap(), "one");
    c.nft_mint(String::from("game-8"), String::from("bob"), titled("two")).unwrap();
    assert_eq!(c.owner_of(&String::from("game-8")).unwrap(), "bob");
}

#[test]
fn indices_stay_consistent_across_owners() {
    let mut c = fresh(1);
    c.nft_mint(String::from("a1"), String::from("alice"), titled("a1")).unwrap();
    c.nft_mint(String::from("a2"), String::from("alice"), titled("a2")).unwrap();
    c.nft_mint(String::from("b1"), String::from("bob"), titled("b1")).unwrap();
    let alice_set = c.tokens_by_owner.get(&String::from("alice")).unwrap();
    let bob_set = c.tokens_by_owner.get(&String::from("bob")).unwrap();
    assert!(alice_set.contains(&String::from("a1")));
    assert!(alice_set.contains(&String::from("a2")));
    assert!(!alice_set.contains(&String::from("b1")));
    assert!(bob_set.contains(&String::from("b1")));
    assert_eq!(alice_set.len(), 2);
    assert_eq!(bob_set.len(), 1);
    for id in ["a1", "a2", "b1"] {
        assert!(c.contains_token(&String::from(id)));
        assert!(c.metadata_of(&String::from(id)).is_some());
    }
}

#[test]
fn approval_ids_strictly_increase_across_revocations() {
    let mut c = fresh(1);
    let id = String::from("tok-1");
    c.nft_mint(id.clone(), String::from("alice"), titled("x")).unwrap();
    let n1 = c.issue_approval(&id, String::from("market.a")).unwrap();
    assert_eq!(n1, 1);
    let n2 = c.issue_approval(&id, String::from("market.b")).unwrap();
    assert_eq!(n2, 2);
    // revoking hands back the number and never rewinds the counter
    assert_eq!(c.revoke_approval(&id, &String::from("market.a")), Some(1));
    assert_eq!(c.approval_of(&id, &String::from("market.a")), None);
    let n3 = c.issue_approval(&id, String::from("market.a")).unwrap();
    assert_eq!(n3, 3);
    assert_eq!(c.approval_of(&id, &String::from("market.a")), Some(3));
    assert_eq!(c.approval_of(&id, &String::from("market.b")), Some(2));
    // each token counts on its own
    let other = String::from("tok-2");
    c.nft_mint(other.clone(), String::from("alice"), titled("y")).unwrap();
    assert_eq!(c.issue_approval(&other, String::from("market.a")).unwrap(), 1);
}

#[test]
fn revoking_absent_approval_returns_nothing() {
    let mut c = fresh(1);
    let id = String::from("tok-1");
    c.nft_mint(id.clone(), String::from("alice"), titled("x")).unwrap();
    assert_eq!(c.revoke_approval(&id, &String::from("market.a")), None);
    assert_eq!(c.revoke_approval(&String::from("ghost"), &String::from("market.a")), None);
}

#[test]
fn disabled_indices_are_left_alone() {
    let descriptor = ContractMetadata {
        spec_version: String::from("nft-1.0.0"),
        name: String::from("Bare Registry"),
        symbol: String::from("BARE"),
        icon: None,
    };
    let mut c = Contract::with_indices(String::from("registry.test"), descriptor, 5, false, false);
    let id = String::from("tok-1");
    let (token, _) = c
        .nft_mint_purchase(id.clone(), String::from("alice"), Some(titled("x")), None, 0)
        .unwrap();
    assert!(token.metadata.is_none());
    assert!(token.approved_account_ids.is_none());
    assert!(c.metadata_of(&id).is_none());
    assert_eq!(c.issue_approval(&id, String::from("market.a")), None);
    assert_eq!(c.owner_of(&id).unwrap(), "alice");
}

#[test]
fn storage_meter_prices_deltas() {
    let c = fresh(3);
    assert_eq!(c.cost_of(0), 0);
    assert_eq!(c.cost_of(41), 123);
    // the purchase cost is the measured delta at the configured price:
    // 5 (id) + 5 (owner) + 40, metadata entry 5 + 1 + 40, a fresh owner set
    // 5 + 5 + 40, and a reserved approval entry 5 + 40, at price 3
    let required = c.required_mint_cost(
        &String::from("tok-1"),
        &String::from("alice"),
        &titled("x"),
    );
    assert_eq!(required, 3 * (50 + 46 + 50 + 45));
}

#[test]
fn settle_step_prices_and_refunds() {
    let c = fresh(4);
    // 25 units at price 4 cost 100
    assert_eq!(
        c.refund_deposit_to_account(25, 99, String::from("alice")),
        Err(MintError::InsufficientDeposit(100))
    );
    assert_eq!(c.refund_deposit_to_account(25, 100, String::from("alice")), Ok(None));
    // a surplus of exactly the dust threshold is skipped
    assert_eq!(c.refund_deposit_to_account(25, 101, String::from("alice")), Ok(None));
    assert_eq!(
        c.refund_deposit_to_account(25, 102, String::from("alice")),
        Ok(Some(RefundTransfer { target: String::from("alice"), amount: 2 }))
    );
}

#[test]
fn custom_descriptor_is_kept() {
    let descriptor = ContractMetadata {
        spec_version: String::from("nft-1.0.0"),
        name: String::from("Game Items"),
        symbol: String::from("ITEM"),
        icon: Some(String::from("<svg/>")),
    };
    let c = Contract::new(String::from("registry.test"), descriptor, 2);
    let d = c.nft_metadata();
    assert_eq!(d.name, "Game Items");
    assert_eq!(d.symbol, "ITEM");
    assert_eq!(d.icon.as_ref().unwrap(), "<svg/>");
}

#[test]
fn default_descriptor_is_fixed() {
    let c = fresh(1);
    let d = c.nft_metadata();
    assert_eq!(d.spec_version, "nft-1.0.0");
    assert_eq!(d.name, "AITA Game NFT");
    assert_eq!(d.symbol, "AITANFT");
    assert!(d.icon.is_none());
}
