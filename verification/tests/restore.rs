use near_drop::bindings::{KeyBinding, KeyRegistry};
use near_drop::context::Context;
use near_drop::drop_types::Drop;
use near_drop::error::DropError;
use near_drop::ft_drop::FTDrop;
use near_drop::near_drop::{deposit_for, NearDrop};
use near_drop::nft_drop::NFTDrop;
use near_drop::Contract;

fn binding(key: u8, drop_id: u32) -> KeyBinding {
    KeyBinding { public_key: vec![0, key], drop_id }
}

fn near(amount: u128, counter: u32) -> Drop {
    Drop::NEAR(NearDrop { funder: "creator.test.near".to_string(), amount, counter })
}

fn ft(amount: u128, counter: u32) -> Drop {
    Drop::FT(FTDrop {
        funder: "creator.test.near".to_string(),
        amount,
        ft_contract: "ft.test.near".to_string(),
        counter,
        funded: false,
    })
}

fn nft() -> Drop {
    Drop::NFT(NFTDrop {
        funder: "creator.test.near".to_string(),
        token_id: "".to_string(),
        nft_contract: "nft.test.near".to_string(),
    })
}

fn restore(next: u32, drops: Vec<(u32, Drop)>, bindings: Vec<KeyBinding>) -> Option<Contract> {
    Contract::restore("test.near".to_string(), next, drops, bindings)
}

#[test]
fn registry_from_bindings_wants_each_key_once() {
    assert!(KeyRegistry::from_bindings(vec![]).is_some());
    assert!(KeyRegistry::from_bindings(vec![binding(1, 0), binding(1, 1)]).is_none());
    let registry = KeyRegistry::from_bindings(vec![binding(1, 0), binding(2, 0), binding(3, 4)]).unwrap();
    assert_eq!(registry.get(&vec![0, 2]), Some(0));
    assert_eq!(registry.get(&vec![0, 3]), Some(4));
    assert_eq!(registry.get(&vec![0, 4]), None);
    assert_eq!(registry.count(0), 2);
    assert_eq!(registry.count(4), 1);
    assert_eq!(registry.count(1), 0);
    assert_eq!(registry.bindings(), vec![binding(1, 0), binding(2, 0), binding(3, 4)]);
}

#[test]
fn restore_takes_what_a_contract_holds() {
    let contract = restore(
        8,
        vec![(2, near(5, 2)), (5, nft()), (7, ft(3, 1))],
        vec![binding(1, 2), binding(2, 5), binding(3, 2), binding(4, 7)],
    )
    .unwrap();
    assert_eq!(contract.top_level_account, "test.near");
    assert_eq!(contract.next_drop_id, 8);
    assert_eq!(contract.get_drop_by_id(2), Ok(near(5, 2)));
    assert_eq!(contract.get_drop_by_id(5), Ok(nft()));
    assert_eq!(contract.get_drop_by_id(7), Ok(ft(3, 1)));
    assert_eq!(contract.get_drop_by_id(0), Err(DropError::NoDropInformation));
    assert_eq!(contract.get_drop_id_by_key(&vec![0, 3]), Ok(2));
    assert_eq!(contract.get_drop_id_by_key(&vec![0, 4]), Ok(7));
    assert!(restore(0, vec![], vec![]).is_some());
}

#[test]
fn restore_refuses_what_no_contract_holds() {
    // an identifier twice
    assert!(restore(3, vec![(1, near(5, 1)), (1, near(5, 1))], vec![binding(1, 1)]).is_none());
    // a key twice
    assert!(restore(3, vec![(1, near(5, 2))], vec![binding(1, 1), binding(1, 1)]).is_none());
    // a key without its drop
    assert!(restore(3, vec![(1, near(5, 1))], vec![binding(1, 1), binding(2, 2)]).is_none());
    // an identifier that was never handed out
    assert!(restore(1, vec![(1, near(5, 1))], vec![binding(1, 1)]).is_none());
    // a drop without a claim, and one without an amount
    assert!(restore(3, vec![(1, near(5, 0))], vec![]).is_none());
    assert!(restore(3, vec![(1, ft(0, 1))], vec![binding(1, 1)]).is_none());
    // more claims than keys, and more keys than claims
    assert!(restore(3, vec![(1, near(5, 2))], vec![binding(1, 1)]).is_none());
    assert!(restore(3, vec![(1, nft())], vec![binding(1, 1), binding(2, 1)]).is_none());
}

#[test]
fn restored_contract_goes_on_where_the_stored_one_stopped() {
    let mut first = Contract::new("test.near".to_string());
    let ctx = |signer: u8, attached_deposit: u128| Context {
        current_account_id: "contract.test.near".to_string(),
        predecessor_account_id: "creator.test.near".to_string(),
        signer_account_pk: vec![0, signer],
        attached_deposit,
    };
    first.create_near_drop(&ctx(0, deposit_for(5, 2)), vec![vec![0, 1], vec![0, 2]], 5).unwrap();
    first.claim_for(&ctx(1, 0), "alice.test.near".to_string()).unwrap();

    let drops = vec![(0, first.get_drop_by_id(0).unwrap())];
    let mut second =
        restore(first.next_drop_id, drops, first.drop_id_by_key.bindings()).unwrap();
    assert_eq!(
        second.claim_for(&ctx(1, 0), "alice.test.near".to_string()),
        Err(DropError::NoDropForKey)
    );
    assert!(second.claim_for(&ctx(2, 0), "alice.test.near".to_string()).is_ok());
    assert_eq!(second.get_drop_by_id(0), Err(DropError::NoDropInformation));
    assert_eq!(
        second.create_near_drop(&ctx(0, deposit_for(5, 1)), vec![vec![0, 1]], 5).map(|(id, _)| id),
        Ok(1)
    );
}
