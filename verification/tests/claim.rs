use near_drop::context::Context;
use near_drop::drop_types::Drop;
use near_drop::error::DropError;
use near_drop::near_drop::{deposit_for, NearDrop};
use near_drop::promise::{Action, Call, Chain, Promise};
use near_drop::Contract;
use near_sdk::PromiseError;

const ONE_NEAR: u128 = 1_000_000_000_000_000_000_000_000;

fn key(n: u8) -> Vec<u8> {
    let mut k = vec![0u8];
    k.extend(std::iter::repeat(n).take(32));
    k
}

fn call(signer: u8, attached_deposit: u128) -> Context {
    Context {
        current_account_id: "contract.test.near".to_string(),
        predecessor_account_id: "creator.test.near".to_string(),
        signer_account_pk: key(signer),
        attached_deposit,
    }
}

fn contract_with_near_drop(keys: Vec<Vec<u8>>, amount: u128) -> Contract {
    let mut contract = Contract::new("test.near".to_string());
    let n = keys.len() as u32;
    let created = contract.create_near_drop(&call(0, deposit_for(amount, n)), keys, amount);
    assert_eq!(created.map(|(id, _)| id), Ok(0));
    contract
}

fn near_claim(to: &str, amount: u128, account_created: bool, drop_deleted: bool) -> Chain {
    Chain {
        first: Promise { receiver_id: to.to_string(), actions: vec![Action::Transfer { amount }] },
        callback: Promise {
            receiver_id: "contract.test.near".to_string(),
            actions: vec![Action::FunctionCall {
                call: Call::ResolveNearClaim {
                    account_created,
                    drop_deleted,
                    funder: "creator.test.near".to_string(),
                    amount,
                },
                deposit: 0,
                gas: 5_000_000_000_000,
                gas_weight: 0,
            }],
        },
    }
}

#[test]
fn new_contract_holds_nothing() {
    let contract = Contract::new("test.near".to_string());
    assert_eq!(contract.top_level_account, "test.near");
    assert_eq!(contract.next_drop_id, 0);
    assert_eq!(contract.get_drop_by_id(0), Err(DropError::NoDropInformation));
    assert_eq!(contract.get_drop_id_by_key(&key(1)), Err(DropError::NoDropForKey));
}

#[test]
fn create_near_drop_binds_keys_and_grants_access() {
    let mut contract = Contract::new("test.near".to_string());
    let required = deposit_for(ONE_NEAR, 2);
    let (drop_id, promises) = contract
        .create_near_drop(&call(0, required + 3), vec![key(1), key(2)], ONE_NEAR)
        .unwrap();
    assert_eq!(drop_id, 0);
    assert_eq!(
        promises,
        vec![
            Promise {
                receiver_id: "creator.test.near".to_string(),
                actions: vec![Action::Transfer { amount: 3 }],
            },
            Promise {
                receiver_id: "contract.test.near".to_string(),
                actions: vec![Action::AddAccessKey {
                    public_key: key(1),
                    allowance: 250_000_000_000_000_000_000_000,
                }],
            },
            Promise {
                receiver_id: "contract.test.near".to_string(),
                actions: vec![Action::AddAccessKey {
                    public_key: key(2),
                    allowance: 250_000_000_000_000_000_000_000,
                }],
            },
        ]
    );
    assert_eq!(contract.next_drop_id, 1);
    assert_eq!(contract.get_drop_id_by_key(&key(1)), Ok(0));
    assert_eq!(contract.get_drop_id_by_key(&key(2)), Ok(0));
    assert_eq!(
        contract.get_drop_by_id(0),
        Ok(Drop::NEAR(NearDrop {
            funder: "creator.test.near".to_string(),
            amount: ONE_NEAR,
            counter: 2
        }))
    );
}

#[test]
fn create_near_drop_rejects_used_keys() {
    let mut contract = contract_with_near_drop(vec![key(1), key(2)], ONE_NEAR);
    let required = deposit_for(ONE_NEAR, 2);
    assert_eq!(
        contract.create_near_drop(&call(0, required), vec![key(3), key(2)], ONE_NEAR),
        Err(DropError::KeyAlreadyUsed)
    );
    assert_eq!(
        contract.create_near_drop(&call(0, required), vec![key(3), key(3)], ONE_NEAR),
        Err(DropError::KeyAlreadyUsed)
    );
    assert_eq!(contract.next_drop_id, 1);
    assert_eq!(contract.get_drop_id_by_key(&key(3)), Err(DropError::NoDropForKey));
}

#[test]
fn create_near_drop_rejects_no_keys() {
    let mut contract = Contract::new("test.near".to_string());
    assert_eq!(
        contract.create_near_drop(&call(0, ONE_NEAR), vec![], ONE_NEAR),
        Err(DropError::NoKeys)
    );
    assert_eq!(contract.next_drop_id, 0);
}

#[test]
fn create_near_drop_fails_atomically_below_the_deposit() {
    let mut contract = Contract::new("test.near".to_string());
    let required = deposit_for(ONE_NEAR, 2);
    assert_eq!(
        contract.create_near_drop(&call(0, required - 1), vec![key(1), key(2)], ONE_NEAR),
        Err(DropError::InsufficientDeposit { required })
    );
    assert_eq!(contract.next_drop_id, 0);
    assert_eq!(contract.get_drop_id_by_key(&key(1)), Err(DropError::NoDropForKey));
    assert_eq!(contract.get_drop_by_id(0), Err(DropError::NoDropInformation));
}

#[test]
fn create_near_drop_fails_when_identifiers_run_out() {
    let mut contract = Contract::new("test.near".to_string());
    contract.next_drop_id = u32::MAX;
    let required = deposit_for(ONE_NEAR, 1);
    assert_eq!(
        contract.create_near_drop(&call(0, required), vec![key(1)], ONE_NEAR),
        Err(DropError::DropIdsExhausted)
    );
    assert_eq!(contract.get_drop_id_by_key(&key(1)), Err(DropError::NoDropForKey));
}

#[test]
fn two_keys_claim_once_each() {
    let mut contract = contract_with_near_drop(vec![key(1), key(2)], ONE_NEAR);

    let first = contract.claim_for(&call(1, 0), "alice.test.near".to_string());
    assert_eq!(first, Ok(near_claim("alice.test.near", ONE_NEAR, false, false)));
    assert_eq!(
        contract.get_drop_by_id(0),
        Ok(Drop::NEAR(NearDrop {
            funder: "creator.test.near".to_string(),
            amount: ONE_NEAR,
            counter: 1
        }))
    );

    let again = contract.claim_for(&call(1, 0), "alice.test.near".to_string());
    assert_eq!(again, Err(DropError::NoDropForKey));
    assert_eq!(contract.get_drop_id_by_key(&key(2)), Ok(0));

    let second = contract.claim_for(&call(2, 0), "bob.test.near".to_string());
    assert_eq!(second, Ok(near_claim("bob.test.near", ONE_NEAR, false, true)));
    assert_eq!(contract.get_drop_by_id(0), Err(DropError::NoDropInformation));
    assert_eq!(contract.get_drop_id_by_key(&key(2)), Err(DropError::NoDropForKey));
}

#[test]
fn claim_with_unknown_key_fails() {
    let mut contract = contract_with_near_drop(vec![key(1)], 5);
    assert_eq!(
        contract.claim_for(&call(9, 0), "alice.test.near".to_string()),
        Err(DropError::NoDropForKey)
    );
    assert_eq!(contract.get_drop_id_by_key(&key(1)), Ok(0));
}

#[test]
fn create_account_and_claim_asks_for_the_account() {
    let contract = contract_with_near_drop(vec![key(1)], 5);
    assert_eq!(
        contract.create_account_and_claim(&call(1, 0), "new.test.near".to_string()),
        Ok(Chain {
            first: Promise {
                receiver_id: "test.near".to_string(),
                actions: vec![Action::FunctionCall {
                    call: Call::CreateAccount {
                        new_account_id: "new.test.near".to_string(),
                        new_public_key: key(1),
                    },
                    deposit: 1_840_000_000_000_000_000_000,
                    gas: 28_000_000_000_000,
                    gas_weight: 0,
                }],
            },
            callback: Promise {
                receiver_id: "contract.test.near".to_string(),
                actions: vec![Action::FunctionCall {
                    call: Call::ResolveAccountCreate { account_id: "new.test.near".to_string() },
                    deposit: 0,
                    gas: 55_000_000_000_000,
                    gas_weight: 1,
                }],
            },
        })
    );
    assert_eq!(
        contract.create_account_and_claim(&call(2, 0), "new.test.near".to_string()),
        Err(DropError::NoDropForKey)
    );
}

#[test]
fn resolve_account_create_claims_into_the_new_account() {
    let mut contract = contract_with_near_drop(vec![key(1)], 5);
    assert_eq!(
        contract.resolve_account_create(&call(1, 0), "new.test.near".to_string(), Ok(true)),
        Ok(near_claim("new.test.near", 5, true, true))
    );
    assert_eq!(
        contract.claim_for(&call(1, 0), "alice.test.near".to_string()),
        Err(DropError::NoDropForKey)
    );
    assert_eq!(contract.get_drop_by_id(0), Err(DropError::NoDropInformation));
}

#[test]
fn failed_account_creation_keeps_the_key() {
    let mut contract = contract_with_near_drop(vec![key(1)], 5);
    assert_eq!(
        contract.resolve_account_create(
            &call(1, 0),
            "new.test.near".to_string(),
            Err(PromiseError::Failed)
        ),
        Err(DropError::AccountCreationFailed)
    );
    assert_eq!(
        contract.resolve_account_create(&call(1, 0), "new.test.near".to_string(), Ok(false)),
        Err(DropError::AccountCreationFailed)
    );
    assert_eq!(contract.get_drop_id_by_key(&key(1)), Ok(0));
    assert_eq!(
        contract.claim_for(&call(1, 0), "alice.test.near".to_string()),
        Ok(near_claim("alice.test.near", 5, false, true))
    );
}

#[test]
fn deleted_drop_leaves_no_key() {
    let mut contract = contract_with_near_drop(vec![key(1), key(2), key(3)], 5);
    let other = contract
        .create_near_drop(&call(0, deposit_for(7, 1)), vec![key(4)], 7)
        .map(|(id, _)| id);
    assert_eq!(other, Ok(1));

    assert_eq!(contract.delete_drop_by_id(&call(0, 0), 0), Ok(()));
    assert_eq!(contract.get_drop_by_id(0), Err(DropError::NoDropInformation));
    for k in 1..=3 {
        assert_eq!(contract.get_drop_id_by_key(&key(k)), Err(DropError::NoDropForKey));
        assert_eq!(
            contract.claim_for(&call(k, 0), "alice.test.near".to_string()),
            Err(DropError::NoDropForKey)
        );
    }
    assert_eq!(contract.get_drop_id_by_key(&key(4)), Ok(1));
    assert_eq!(
        contract.claim_for(&call(4, 0), "alice.test.near".to_string()),
        Ok(near_claim("alice.test.near", 7, false, true))
    );
}

#[test]
fn delete_is_for_the_funder_of_a_drop_that_is_there() {
    let mut contract = contract_with_near_drop(vec![key(1)], 5);
    let mut stranger = call(0, 0);
    stranger.predecessor_account_id = "mallory.test.near".to_string();
    assert_eq!(contract.delete_drop_by_id(&stranger, 0), Err(DropError::NotFunder));
    assert_eq!(contract.delete_drop_by_id(&call(0, 0), 5), Err(DropError::NoDropInformation));
    assert_eq!(contract.get_drop_id_by_key(&key(1)), Ok(0));
    assert_eq!(contract.delete_drop_by_id(&call(0, 0), 0), Ok(()));
    assert_eq!(contract.delete_drop_by_id(&call(0, 0), 0), Err(DropError::NoDropInformation));
}

#[test]
fn claims_with_different_keys_commute() {
    let mut one = contract_with_near_drop(vec![key(1), key(2), key(3)], 5);
    let mut other = contract_with_near_drop(vec![key(1), key(2), key(3)], 5);
    assert!(one.claim_for(&call(1, 0), "alice.test.near".to_string()).is_ok());
    assert!(one.claim_for(&call(2, 0), "bob.test.near".to_string()).is_ok());
    assert!(other.claim_for(&call(2, 0), "bob.test.near".to_string()).is_ok());
    assert!(other.claim_for(&call(1, 0), "alice.test.near".to_string()).is_ok());
    assert_eq!(one.get_drop_by_id(0), other.get_drop_by_id(0));
    assert_eq!(
        one.get_drop_by_id(0),
        Ok(Drop::NEAR(NearDrop { funder: "creator.test.near".to_string(), amount: 5, counter: 1 }))
    );
    for k in 1..=3 {
        assert_eq!(one.get_drop_id_by_key(&key(k)), other.get_drop_id_by_key(&key(k)));
    }
    assert_eq!(one.get_drop_id_by_key(&key(3)), Ok(0));
}
