//! Message and query values of the validator-set-preference module.
//!
//! Plain data carried between the contract and the staking module: a
//! delegator's list of (validator, weight) pairs and the requests
//! that set, use or query it.  Weights and coin amounts travel as
//! decimal strings, as the module's wire format carries them.

use vstd::prelude::*;

verus! {

/// An amount of one denomination, both as strings on the wire.
#[derive(Clone, PartialEq, Debug)]
pub struct Coin {
    pub denom: String,
    pub amount: String,
}

/// One (validator, weight) pair of a delegator's preference list.
#[derive(Clone, PartialEq, Debug)]
pub struct ValidatorPreference {
    /// The validator operator address the delegator wants funds
    /// delegated to.
    pub val_oper_address: String,
    /// A decimal between 0 and 1; all weights of a list sum to 1.
    pub weight: String,
}

/// A delegator's validator-set preference: a list of (validator,
/// percent-allocation) pairs.
#[derive(Clone, PartialEq, Debug)]
pub struct ValidatorSetPreferences {
    pub preferences: Vec<ValidatorPreference>,
}

/// Request to create or replace a delegator's validator set.
#[derive(Clone, PartialEq, Debug)]
pub struct MsgSetValidatorSetPreference {
    pub delegator: String,
    pub preferences: Vec<ValidatorPreference>,
}

/// Answer to [`MsgSetValidatorSetPreference`].
#[derive(Clone, PartialEq, Debug)]
pub struct MsgSetValidatorSetPreferenceResponse {}

/// Request to delegate an amount across an existing validator set,
/// split by the stored weights.
#[derive(Clone, PartialEq, Debug)]
pub struct MsgDelegateToValidatorSet {
    pub delegator: String,
    pub coin: Option<Coin>,
}

/// Answer to [`MsgDelegateToValidatorSet`].
#[derive(Clone, PartialEq, Debug)]
pub struct MsgDelegateToValidatorSetResponse {}

/// Request to undelegate an amount from a validator set, split by
/// the stored weights.
#[derive(Clone, PartialEq, Debug)]
pub struct MsgUndelegateFromValidatorSet {
    pub delegator: String,
    pub coin: Option<Coin>,
}

/// Answer to [`MsgUndelegateFromValidatorSet`].
#[derive(Clone, PartialEq, Debug)]
pub struct MsgUndelegateFromValidatorSetResponse {}

/// Request to claim staking rewards from the validator set.
#[derive(Clone, PartialEq, Debug)]
pub struct MsgWithdrawDelegationRewards {
    pub delegator: String,
}

/// Answer to [`MsgWithdrawDelegationRewards`].
#[derive(Clone, PartialEq, Debug)]
pub struct MsgWithdrawDelegationRewardsResponse {}

/// Query for a delegator's stored preference list.
#[derive(Clone, PartialEq, Debug)]
pub struct QueryUserValidatorPreferences {
    /// The delegator's account address.
    pub user: String,
}

/// Answer to [`QueryUserValidatorPreferences`].
#[derive(Clone, PartialEq, Debug)]
pub struct QueryUserValidatorPreferenceResponse {
    pub preferences: Vec<ValidatorPreference>,
}

} // verus!
