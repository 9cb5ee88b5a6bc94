//! The messages that carry addresses, coins and amounts to the chain. Each
//! is a plain record of the values it is made of.

use crate::address::{AccAddress, ValAddress};
use crate::coin::Coin;
use crate::coins::Coins;
use vstd::prelude::*;

verus! {

/// A message that has an Amino form.
pub trait ToAmino {

}

/// A message that has a Protobuf form.
pub trait ToProto {

}

/// Withdraws an authorization that was granted.
pub struct MsgRevokeAuthorization {
    pub granter: AccAddress,
    pub grantee: AccAddress,
    pub msg_type_url: String,
}

/// Grants another account an authorization.
pub struct MsgGrantAuthorization {
    pub granter: AccAddress,
    pub grantee: AccAddress,
    pub grant: String,
}

/// Sends coins from one account to another.
#[derive(Debug, PartialEq, Eq)]
pub struct MsgSend {
    pub from_address: AccAddress,
    pub to_address: AccAddress,
    pub amount: Coins,
}

impl MsgSend {
    /// The message that sends `amount` from one account to another.
    pub fn new(from_address: AccAddress, to_address: AccAddress, amount: Coins) -> (r: Self)
        ensures
            r.from_address == from_address,
            r.to_address == to_address,
            r.amount == amount,
    {
        MsgSend { from_address, to_address, amount }
    }
}

/// Withdraws a validator's commission.
pub struct MsgWithdrawValidatorCommission {
    pub validator_address: ValAddress,
}

/// Withdraws a delegator's reward from a validator.
pub struct MsgWithdrawDelegatorReward {
    pub delegator_address: AccAddress,
    pub validator_address: ValAddress,
}

/// Sets the account that rewards are withdrawn to.
pub struct MsgSetWithdrawAddress {
    pub delegator_address: AccAddress,
    pub withdraw_address: AccAddress,
}

/// Pays coins into the community pool.
pub struct MsgFundCommunityPool {
    pub depositor: AccAddress,
    pub amount: Coins,
}

/// Withdraws a fee allowance.
pub struct MsgRevokeAllowance {
    pub granter: AccAddress,
    pub grantee: AccAddress,
}

/// Deposits coins on a proposal.
pub struct MsgDeposit {
    pub proposal_id: u128,
    pub depositor: AccAddress,
    pub amount: Coins,
}

/// Commits to an exchange rate vote by its hash.
pub struct MsgAggregateExchangeRatePrevote {
    pub hash: String,
    pub feeder: AccAddress,
    pub validator: ValAddress,
}

/// Reveals an exchange rate vote.
pub struct MsgAggregateExchangeRateVote {
    pub exchange_rates: Coins,
    pub salt: String,
    pub feeder: AccAddress,
    pub validator: ValAddress,
}

/// Lets another account feed exchange rates for a validator.
pub struct MsgDelegateFeedConsent {
    pub operator: ValAddress,
    pub delegate: AccAddress,
}

/// Delegates a coin to a validator.
pub struct MsgDelegate {
    pub delegator_address: AccAddress,
    pub validator_address: ValAddress,
    pub amount: Coin,
}

/// Takes a delegated coin back from a validator.
pub struct MsgUndelegate {
    pub delegator_address: AccAddress,
    pub validator_address: ValAddress,
    pub amount: Coin,
}

/// Moves a delegated coin from one validator to another.
pub struct MsgBeginRedelegate {
    pub delegator_address: AccAddress,
    pub validator_src_address: ValAddress,
    pub validator_dst_address: ValAddress,
    pub amount: Coin,
}

/// Stores contract code on the chain.
pub struct MsgStoreCode {
    pub sender: AccAddress,
    pub wasm_byte_code: String,
}

/// Replaces stored contract code.
pub struct MsgMigrateCode {
    pub sender: AccAddress,
    pub code_id: u64,
    pub wasm_byte_code: String,
}

/// Creates a contract from stored code.
pub struct MsgInstantiateContract {
    pub sender: AccAddress,
    pub admin: AccAddress,
    pub code_id: u64,
    pub init_msg: String,
    pub init_coins: Coins,
}

/// Calls a contract.
pub struct MsgExecuteContract {
    pub sender: AccAddress,
    pub contract: AccAddress,
    pub execute_msg: String,
    pub coins: Coins,
}

/// Moves a contract to other code.
pub struct MsgMigrateContract {
    pub admin: AccAddress,
    pub contract: AccAddress,
    pub new_code_id: u64,
    pub migrate_msg: String,
}

/// Removes the admin of a contract.
pub struct MsgClearContractAdmin {
    pub admin: AccAddress,
    pub contract: AccAddress,
}

/// Names a new admin of a contract.
pub struct MsgUpdateContractAdmin {
    pub admin: AccAddress,
    pub new_admin: AccAddress,
    pub contract: AccAddress,
}

} // verus!
