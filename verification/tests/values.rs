//! Tests of the decimal renderer and the plain message values.

use cw_storage_osmosis::digits::u64_to_dec_string;
use cw_storage_osmosis::validatorpreference::{
    Coin, MsgDelegateToValidatorSet, MsgSetValidatorSetPreference, MsgWithdrawDelegationRewards,
    QueryUserValidatorPreferences, ValidatorPreference, ValidatorSetPreferences,
};

#[test]
fn decimal_rendering_exact_values() {
    assert_eq!(u64_to_dec_string(0), "0");
    assert_eq!(u64_to_dec_string(7), "7");
    assert_eq!(u64_to_dec_string(10), "10");
    assert_eq!(u64_to_dec_string(409), "409");
    assert_eq!(u64_to_dec_string(18_446_744_073_709_551_615), "18446744073709551615");
}

#[test]
fn validator_preference_values_round_trip() {
    let pref = ValidatorPreference {
        val_oper_address: "osmovaloper1xyz".to_string(),
        weight: "0.25".to_string(),
    };
    let set = ValidatorSetPreferences { preferences: vec![pref.clone()] };
    assert_eq!(set.preferences[0], pref);

    let msg = MsgSetValidatorSetPreference {
        delegator: "osmo1abc".to_string(),
        preferences: vec![pref.clone()],
    };
    assert_eq!(msg.preferences.len(), 1);

    let delegate = MsgDelegateToValidatorSet {
        delegator: "osmo1abc".to_string(),
        coin: Some(Coin { denom: "uosmo".to_string(), amount: "1000".to_string() }),
    };
    assert_eq!(delegate.coin.as_ref().unwrap().denom, "uosmo");

    let withdraw = MsgWithdrawDelegationRewards { delegator: "osmo1abc".to_string() };
    assert_eq!(withdraw.delegator, "osmo1abc");

    let q = QueryUserValidatorPreferences { user: "osmo1abc".to_string() };
    assert_eq!(q.user, "osmo1abc");
}
