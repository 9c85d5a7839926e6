use vstd::prelude::*;

verus! {

/// Identifier of a drop, handed out in increasing order.
pub type DropId = u32;

/// An amount of native tokens, counted in the smallest unit (yoctoNEAR).
pub type Balance = u128;

/// An amount of gas, counted in gas units.
pub type Gas = u64;

/// An account name.
pub type AccountId = String;

/// A claim key in its binary form: one byte for the curve, then the key itself.
pub type PublicKey = Vec<u8>;

/// Allowance of an access key, to pay for the gas of the claim call (0.25 N).
/// It is not held back on the contract, but must be there when the key burns gas.
pub const ACCESS_KEY_ALLOWANCE: Balance = 250_000_000_000_000_000_000_000;

/// Cost of creating an account with the longest possible name (0.00184 N).
pub const CREATE_ACCOUNT_FEE: Balance = 1_840_000_000_000_000_000_000;

/// Least gas for the callback that follows the creation of an account (55 TGas).
pub const CREATE_CALLBACK_GAS: Gas = 55_000_000_000_000;

/// Least gas for the callback that settles a claim of native tokens (5 TGas).
pub const CLAIM_CALLBACK_GAS: Gas = 5_000_000_000_000;

/// Gas attached to the creation of an account; nothing unspent is added (28 TGas).
pub const GAS_FOR_CREATE_ACCOUNT: Gas = 28_000_000_000_000;

/// Least gas for registering the receiver with a fungible token (5 TGas).
pub const MIN_GAS_FOR_FT_STORAGE_DEPOSIT: Gas = 5_000_000_000_000;

/// Least gas for a transfer of fungible tokens (5 TGas).
pub const MIN_GAS_FOR_FT_TRANSFER: Gas = 5_000_000_000_000;

/// Least gas for the callback that settles a claim of fungible tokens (10 TGas).
pub const FT_CLAIM_CALLBACK_GAS: Gas = 10_000_000_000_000;

/// Least gas for a transfer of a non-fungible token (5 TGas).
pub const MIN_GAS_FOR_NFT_TRANSFER: Gas = 5_000_000_000_000;

/// Least gas for the callback that settles a claim of a non-fungible token (10 TGas).
pub const NFT_CLAIM_CALLBACK_GAS: Gas = 10_000_000_000_000;

/// Deposit that covers the storage of one access key on the contract (0.001 N).
pub const ACCESS_KEY_STORAGE: Balance = 1_000_000_000_000_000_000_000;

/// Deposit that registers a receiver with a fungible token (0.0125 N).
pub const FT_REGISTER: Balance = 12_500_000_000_000_000_000_000;

/// Deposit that token contracts ask for on a transfer.
pub const ONE_YOCTO: Balance = 1;

/// Bytes of a stored public key.
pub const PK_STORAGE: u128 = 32;

/// Bytes of a stored drop identifier.
pub const ID_STORAGE: u128 = 4;

/// Bytes of a stored account name.
pub const ACC_STORAGE: u128 = 12;

/// Bytes of a stored enum tag.
pub const ENUM_STORAGE: u128 = 1;

/// Bytes of a stored token amount.
pub const TOKEN_AMOUNT_STORAGE: u128 = 16;

/// Bytes of a stored token identifier.
pub const NFT_TOKEN_ID_STORAGE: u128 = 16;

} // verus!
