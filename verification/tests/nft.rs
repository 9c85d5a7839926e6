use near_drop::context::Context;
use near_drop::drop_types::{Drop, Dropper, Getters, Setters};
use near_drop::error::DropError;
use near_drop::nft_drop::{create, required_deposit_per_key, required_storage_drop, NFTDrop};
use near_drop::promise::{Action, Call, Chain, Promise};
use near_drop::Contract;
use near_sdk::PromiseError;

const REQUIRED: u128 = 252_840_000_000_000_000_000_089;

fn key(n: u8) -> Vec<u8> {
    let mut k = vec![0u8];
    k.extend(std::iter::repeat(n).take(32));
    k
}

fn call(signer: u8, predecessor: &str, attached_deposit: u128) -> Context {
    Context {
        current_account_id: "contract.test.near".to_string(),
        predecessor_account_id: predecessor.to_string(),
        signer_account_pk: key(signer),
        attached_deposit,
    }
}

fn nft_drop(token_id: &str) -> NFTDrop {
    NFTDrop {
        funder: "creator.test.near".to_string(),
        token_id: token_id.to_string(),
        nft_contract: "nft.test.near".to_string(),
    }
}

fn contract_with_nft_drop() -> Contract {
    let mut contract = Contract::new("test.near".to_string());
    let created = contract.create_nft_drop(
        &call(0, "creator.test.near", REQUIRED),
        key(1),
        "nft.test.near".to_string(),
    );
    assert_eq!(
        created,
        Ok((
            0,
            vec![Promise {
                receiver_id: "contract.test.near".to_string(),
                actions: vec![Action::AddAccessKey {
                    public_key: key(1),
                    allowance: 250_000_000_000_000_000_000_000,
                }],
            }]
        ))
    );
    contract
}

#[test]
fn nft_required_deposits() {
    assert_eq!(required_deposit_per_key(), 252_840_000_000_000_000_000_000);
    assert_eq!(required_storage_drop(), 89);
}

#[test]
fn nft_create_starts_without_a_token() {
    assert_eq!(
        create(&call(0, "creator.test.near", REQUIRED), "nft.test.near".to_string()),
        Ok((Drop::NFT(nft_drop("")), None))
    );
    assert_eq!(
        create(&call(0, "creator.test.near", REQUIRED - 1), "nft.test.near".to_string()),
        Err(DropError::InsufficientDeposit { required: REQUIRED })
    );
    assert_eq!(
        create(&call(0, "creator.test.near", REQUIRED + 9), "nft.test.near".to_string())
            .map(|(_, refund)| refund),
        Ok(Some(Promise {
            receiver_id: "creator.test.near".to_string(),
            actions: vec![Action::Transfer { amount: 9 }],
        }))
    );
}

#[test]
fn create_nft_drop_rejects_a_used_key() {
    let mut contract = contract_with_nft_drop();
    assert_eq!(
        contract.create_nft_drop(
            &call(0, "creator.test.near", REQUIRED),
            key(1),
            "nft.test.near".to_string()
        ),
        Err(DropError::KeyAlreadyUsed)
    );
    assert_eq!(contract.next_drop_id, 1);
}

#[test]
fn nft_drop_has_no_counter_and_no_amount() {
    let drop = nft_drop("1");
    assert_eq!(drop.get_counter(), Err("There is no counter field for NFT drop structure"));
    assert_eq!(
        drop.get_amount_per_drop(),
        Err("There is no amount_per_drop field for NFT drop structure")
    );
    let mut drop = Drop::NFT(drop);
    assert_eq!(drop.get_counter(), Err("There is no amount_per_drop field for NFT drop structure"));
    assert_eq!(
        drop.get_amount_per_drop(),
        Err("There is no amount_per_drop field for NFT drop structure")
    );
    assert_eq!(drop.set_counter(4), Err("There is no counter field for NFT drop structure"));
    assert_eq!(drop, Drop::NFT(nft_drop("1")));
}

#[test]
fn nft_drop_promises() {
    assert_eq!(
        nft_drop("").promise_for_claiming("alice.test.near".to_string()),
        Err(DropError::NoTokensToDrop)
    );
    assert_eq!(
        nft_drop("1").promise_for_claiming("alice.test.near".to_string()),
        Ok(Promise {
            receiver_id: "nft.test.near".to_string(),
            actions: vec![Action::FunctionCall {
                call: Call::NftTransfer {
                    receiver_id: "alice.test.near".to_string(),
                    token_id: "1".to_string(),
                },
                deposit: 1,
                gas: 5_000_000_000_000,
                gas_weight: 0,
            }],
        })
    );
    assert_eq!(
        nft_drop("1").promise_to_resolve_claim("contract.test.near".to_string(), true, true),
        Promise {
            receiver_id: "contract.test.near".to_string(),
            actions: vec![Action::FunctionCall {
                call: Call::ResolveNftClaim {
                    account_created: true,
                    drop_deleted: true,
                    funder: "creator.test.near".to_string(),
                    token_id: "1".to_string(),
                    nft_contract: "nft.test.near".to_string(),
                },
                deposit: 0,
                gas: 10_000_000_000_000,
                gas_weight: 0,
            }],
        }
    );
}

#[test]
fn nft_on_approve_wants_message_kind_and_caller() {
    let mut contract = contract_with_nft_drop();
    contract
        .create_near_drop(
            &call(0, "creator.test.near", 10_000_000_000_000_000_000_000_000),
            vec![key(2)],
            10,
        )
        .unwrap();
    let token = call(0, "nft.test.near", 0);
    let owner = "creator.test.near".to_string();
    assert_eq!(
        contract.nft_on_approve(&token, "1".to_string(), owner.clone(), 0, "".to_string()),
        Err(DropError::InvalidMessage)
    );
    assert_eq!(
        contract.nft_on_approve(&token, "1".to_string(), owner.clone(), 0, "7".to_string()),
        Err(DropError::NoDropInformation)
    );
    assert_eq!(
        contract.nft_on_approve(&token, "1".to_string(), owner.clone(), 0, "1".to_string()),
        Err(DropError::NotNftDrop)
    );
    assert_eq!(
        contract.nft_on_approve(
            &call(0, "other.test.near", 0),
            "1".to_string(),
            owner.clone(),
            0,
            "0".to_string()
        ),
        Err(DropError::WrongContract)
    );
    assert_eq!(contract.get_drop_by_id(0), Ok(Drop::NFT(nft_drop(""))));
    assert_eq!(contract.nft_on_approve(&token, "1".to_string(), owner, 0, "0".to_string()), Ok(0));
    assert_eq!(contract.get_drop_by_id(0), Ok(Drop::NFT(nft_drop("1"))));
}

#[test]
fn unapproved_nft_drop_is_not_claimed() {
    let mut contract = contract_with_nft_drop();
    let claimer = call(1, "contract.test.near", 0);
    assert_eq!(
        contract.claim_for(&claimer, "alice.test.near".to_string()),
        Err(DropError::NoTokensToDrop)
    );
    assert_eq!(contract.get_drop_id_by_key(&key(1)), Ok(0));

    contract
        .nft_on_approve(
            &call(0, "nft.test.near", 0),
            "1".to_string(),
            "creator.test.near".to_string(),
            0,
            "0".to_string(),
        )
        .unwrap();
    assert_eq!(
        contract.claim_for(&claimer, "alice.test.near".to_string()),
        Ok(Chain {
            first: nft_drop("1").promise_for_claiming("alice.test.near".to_string()).unwrap(),
            callback: nft_drop("1").promise_to_resolve_claim(
                "contract.test.near".to_string(),
                false,
                true
            ),
        })
    );
    assert_eq!(contract.get_drop_by_id(0), Err(DropError::NoDropInformation));
    assert_eq!(
        contract.claim_for(&claimer, "alice.test.near".to_string()),
        Err(DropError::NoDropForKey)
    );
}

#[test]
fn resolve_nft_claim_refunds_the_reserve() {
    let refund = |amount: u128| Promise {
        receiver_id: "creator.test.near".to_string(),
        actions: vec![Action::Transfer { amount }],
    };
    let resolve = |account_created: bool, drop_deleted: bool, result| {
        Contract::resolve_nft_claim(
            account_created,
            drop_deleted,
            "creator.test.near".to_string(),
            "1".to_string(),
            "nft.test.near".to_string(),
            result,
        )
    };
    assert_eq!(resolve(true, false, Ok(())), refund(1_000_000_000_000_000_000_000));
    assert_eq!(resolve(false, true, Ok(())), refund(2_840_000_000_000_000_000_089));
    assert_eq!(
        resolve(false, true, Err(PromiseError::Failed)),
        refund(2_840_000_000_000_000_000_089)
    );
}
