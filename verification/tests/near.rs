use near_drop::constants::{
    ACCESS_KEY_ALLOWANCE, ACCESS_KEY_STORAGE, ACC_STORAGE, CLAIM_CALLBACK_GAS, CREATE_ACCOUNT_FEE,
    CREATE_CALLBACK_GAS, ENUM_STORAGE, FT_CLAIM_CALLBACK_GAS, FT_REGISTER, GAS_FOR_CREATE_ACCOUNT,
    ID_STORAGE, MIN_GAS_FOR_FT_STORAGE_DEPOSIT, MIN_GAS_FOR_FT_TRANSFER, MIN_GAS_FOR_NFT_TRANSFER,
    NFT_CLAIM_CALLBACK_GAS, NFT_TOKEN_ID_STORAGE, ONE_YOCTO, PK_STORAGE, TOKEN_AMOUNT_STORAGE,
};
use near_drop::context::Context;
use near_drop::drop_types::{Drop, Dropper, Getters, Setters};
use near_drop::error::DropError;
use near_drop::near_drop::{
    create, deposit_for, required_deposit_per_key, required_storage_drop, NearDrop,
};
use near_drop::promise::{Action, Call, Promise};
use near_drop::Contract;
use near_sdk::{Gas, NearToken, PromiseError};

const ONE_NEAR: u128 = 1_000_000_000_000_000_000_000_000;

fn context(attached_deposit: u128) -> Context {
    Context {
        current_account_id: "contract.test.near".to_string(),
        predecessor_account_id: "creator.test.near".to_string(),
        signer_account_pk: vec![0, 1, 2, 3],
        attached_deposit,
    }
}

#[test]
fn constants_are_the_amounts_of_the_token_type() {
    assert_eq!(ACCESS_KEY_ALLOWANCE, NearToken::from_millinear(250).as_yoctonear());
    assert_eq!(ACCESS_KEY_STORAGE, NearToken::from_millinear(1).as_yoctonear());
    assert_eq!(CREATE_ACCOUNT_FEE, 1_840_000_000_000_000_000_000);
    assert_eq!(FT_REGISTER, 12_500_000_000_000_000_000_000);
    assert_eq!(ONE_YOCTO, NearToken::from_yoctonear(1).as_yoctonear());
}

#[test]
fn constants_are_the_amounts_of_the_gas_type() {
    assert_eq!(CREATE_CALLBACK_GAS, Gas::from_tgas(55).as_gas());
    assert_eq!(CLAIM_CALLBACK_GAS, Gas::from_tgas(5).as_gas());
    assert_eq!(GAS_FOR_CREATE_ACCOUNT, Gas::from_tgas(28).as_gas());
    assert_eq!(MIN_GAS_FOR_FT_STORAGE_DEPOSIT, Gas::from_tgas(5).as_gas());
    assert_eq!(MIN_GAS_FOR_FT_TRANSFER, Gas::from_tgas(5).as_gas());
    assert_eq!(FT_CLAIM_CALLBACK_GAS, Gas::from_tgas(10).as_gas());
    assert_eq!(MIN_GAS_FOR_NFT_TRANSFER, Gas::from_tgas(5).as_gas());
    assert_eq!(NFT_CLAIM_CALLBACK_GAS, Gas::from_tgas(10).as_gas());
}

#[test]
fn constants_count_the_stored_bytes() {
    assert_eq!(
        (PK_STORAGE, ID_STORAGE, ACC_STORAGE, ENUM_STORAGE, TOKEN_AMOUNT_STORAGE, NFT_TOKEN_ID_STORAGE),
        (32, 4, 12, 1, 16, 16)
    );
}

#[test]
fn near_required_deposit_per_key_adds_the_fees() {
    assert_eq!(required_deposit_per_key(1), 252_840_000_000_000_000_000_001);
    assert_eq!(required_deposit_per_key(ONE_NEAR), 1_252_840_000_000_000_000_000_000);
}

#[test]
fn near_required_deposit_per_key_saturates() {
    assert_eq!(required_deposit_per_key(u128::MAX), u128::MAX);
    assert_eq!(required_deposit_per_key(u128::MAX - 5), u128::MAX);
}

#[test]
fn near_required_storage_drop_counts_the_keys() {
    assert_eq!(required_storage_drop(0), 41);
    assert_eq!(required_storage_drop(1), 77);
    assert_eq!(required_storage_drop(2), 113);
    assert_eq!(required_storage_drop(u32::MAX), 41 + 36 * 4_294_967_295u128);
}

#[test]
fn near_deposit_is_storage_and_keys() {
    assert_eq!(deposit_for(ONE_NEAR, 2), 2_505_680_000_000_000_000_000_113);
    assert_eq!(deposit_for(ONE_NEAR, 0), 41);
    assert_eq!(deposit_for(u128::MAX / 2, 3), u128::MAX);
}

#[test]
fn near_create_with_exact_deposit_refunds_nothing() {
    let required = deposit_for(ONE_NEAR, 2);
    let (drop, refund) = create(&context(required), ONE_NEAR, 2).unwrap();
    assert_eq!(
        drop,
        Drop::NEAR(NearDrop {
            funder: "creator.test.near".to_string(),
            amount: ONE_NEAR,
            counter: 2
        })
    );
    assert_eq!(refund, None);
}

#[test]
fn near_create_refunds_the_excess() {
    let required = deposit_for(ONE_NEAR, 2);
    let (_, refund) = create(&context(required + 7), ONE_NEAR, 2).unwrap();
    assert_eq!(
        refund,
        Some(Promise {
            receiver_id: "creator.test.near".to_string(),
            actions: vec![Action::Transfer { amount: 7 }],
        })
    );
}

#[test]
fn near_create_fails_below_the_deposit() {
    let required = deposit_for(ONE_NEAR, 2);
    assert_eq!(
        create(&context(required - 1), ONE_NEAR, 2),
        Err(DropError::InsufficientDeposit { required })
    );
}

#[test]
fn near_create_fails_without_an_amount() {
    let required = deposit_for(0, 1);
    assert_eq!(create(&context(required), 0, 1), Err(DropError::ZeroAmount));
    assert_eq!(
        create(&context(required - 1), 0, 1),
        Err(DropError::InsufficientDeposit { required })
    );
}

#[test]
fn near_drop_promises() {
    let drop = NearDrop { funder: "creator.test.near".to_string(), amount: 5, counter: 3 };
    assert_eq!(
        drop.promise_for_claiming("alice.test.near".to_string()),
        Ok(Promise {
            receiver_id: "alice.test.near".to_string(),
            actions: vec![Action::Transfer { amount: 5 }],
        })
    );
    assert_eq!(
        drop.promise_to_resolve_claim("contract.test.near".to_string(), true, false),
        Promise {
            receiver_id: "contract.test.near".to_string(),
            actions: vec![Action::FunctionCall {
                call: Call::ResolveNearClaim {
                    account_created: true,
                    drop_deleted: false,
                    funder: "creator.test.near".to_string(),
                    amount: 5,
                },
                deposit: 0,
                gas: 5_000_000_000_000,
                gas_weight: 0,
            }],
        }
    );
}

#[test]
fn near_drop_getters_and_setters() {
    let mut drop = NearDrop { funder: "creator.test.near".to_string(), amount: 5, counter: 3 };
    assert_eq!(drop.get_counter(), Ok(3));
    assert_eq!(drop.get_amount_per_drop(), Ok(5));
    assert_eq!(drop.set_counter(2), Ok(()));
    assert_eq!(drop.get_counter(), Ok(2));
    assert_eq!(drop.amount, 5);
}

fn refund_to_funder(amount: u128) -> Promise {
    Promise {
        receiver_id: "creator.test.near".to_string(),
        actions: vec![Action::Transfer { amount }],
    }
}

#[test]
fn resolve_near_claim_refunds_the_reserve_on_success() {
    let funder = "creator.test.near".to_string();
    assert_eq!(
        Contract::resolve_near_claim(true, false, funder.clone(), ONE_NEAR, Ok(())),
        refund_to_funder(1_000_000_000_000_000_000_000)
    );
    assert_eq!(
        Contract::resolve_near_claim(false, false, funder.clone(), ONE_NEAR, Ok(())),
        refund_to_funder(2_840_000_000_000_000_000_000)
    );
    assert_eq!(
        Contract::resolve_near_claim(true, true, funder.clone(), ONE_NEAR, Ok(())),
        refund_to_funder(1_000_000_000_000_000_000_041)
    );
    assert_eq!(
        Contract::resolve_near_claim(false, true, funder, ONE_NEAR, Ok(())),
        refund_to_funder(2_840_000_000_000_000_000_041)
    );
}

#[test]
fn resolve_near_claim_adds_the_amount_on_failure() {
    let funder = "creator.test.near".to_string();
    assert_eq!(
        Contract::resolve_near_claim(true, false, funder.clone(), ONE_NEAR, Err(PromiseError::Failed)),
        refund_to_funder(1_001_000_000_000_000_000_000_000)
    );
    assert_eq!(
        Contract::resolve_near_claim(false, true, funder.clone(), ONE_NEAR, Err(PromiseError::Failed)),
        refund_to_funder(1_002_840_000_000_000_000_000_041)
    );
    assert_eq!(
        Contract::resolve_near_claim(false, true, funder, u128::MAX, Err(PromiseError::TooLong(3))),
        refund_to_funder(u128::MAX)
    );
}
