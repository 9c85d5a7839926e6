use vstd::prelude::*;

use crate::constants::Balance;

verus! {

/// Why a call was turned down. A call that is turned down changes nothing.
#[derive(Debug, PartialEq, Eq, Clone, Copy)]
pub enum DropError {
    /// One of the keys is already bound to a drop, or is given twice.
    KeyAlreadyUsed,
    /// No key was given: a drop needs at least one claim.
    NoKeys,
    /// More keys were given than the counter of a drop can hold.
    TooManyKeys,
    /// The deposit attached to the call is below the one that the drop needs.
    InsufficientDeposit { required: Balance },
    /// The amount per claim is below the smallest unit.
    ZeroAmount,
    /// Every drop identifier has been handed out.
    DropIdsExhausted,
    /// The key is bound to no drop: never bound, already used, or deleted.
    NoDropForKey,
    /// There is no drop with that identifier.
    NoDropInformation,
    /// The drop holds no amount to hand out.
    NoTokensToDrop,
    /// The fungible tokens of the drop have not arrived yet.
    NotFunded,
    /// The message that comes with the tokens names no drop.
    InvalidMessage,
    /// The tokens that arrived are not the amount that the drop needs.
    WrongAmount { expected: Balance },
    /// The caller is not the token contract that the drop names.
    WrongContract,
    /// The drop does not hand out fungible tokens.
    NotFtDrop,
    /// The drop does not hand out a non-fungible token.
    NotNftDrop,
    /// The account that should receive the claim could not be created.
    AccountCreationFailed,
    /// Only the account that funded a drop may delete it.
    NotFunder,
}

} // verus!
