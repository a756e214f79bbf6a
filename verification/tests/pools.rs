//! Tests of the pool registry: create (overwrite), update, remove,
//! and the full-table query.

use cw_storage_osmosis::contract::{
    execute_create_new_pool, execute_remove_pool, execute_update_pool, instantiate,
    query_all_pools,
};
use cw_storage_osmosis::error::ContractError;
use cw_storage_osmosis::msg::InstantiateMsg;
use cw_storage_osmosis::state::{AnnualInfo, ContractState, TokenInfo};

fn setup_registry() -> ContractState {
    let (state, _) = instantiate("owner".to_string(), InstantiateMsg { owner: None });
    state
}

fn token(symbol: &str) -> TokenInfo {
    TokenInfo {
        symbol: symbol.to_string(),
        denom: format!("u{}", symbol.to_lowercase()),
        icon_url: format!("https://icons/{}.svg", symbol),
    }
}

fn rates(base: u128) -> AnnualInfo {
    AnnualInfo { one_day: base, one_week: base * 7, two_week: base * 14 }
}

fn create_pool(
    state: &mut ContractState,
    sender: &str,
    pool_id: u64,
    sym1: &str,
    sym2: &str,
    tvl: u128,
) -> Result<cw_storage_osmosis::response::Response, ContractError> {
    execute_create_new_pool(
        state,
        sender.to_string(),
        pool_id,
        token(sym1),
        token(sym2),
        rates(1),
        rates(2),
        tvl,
        tvl / 2,
        vec!["rewardcoin".to_string()],
    )
}

#[test]
fn create_pool_stores_the_record() {
    let mut state = setup_registry();
    let resp = create_pool(&mut state, "owner", 7, "AAA", "BBB", 1000).unwrap();
    assert_eq!(resp.attributes[0].key, "method");
    assert_eq!(resp.attributes[0].value, "execute_add_new_pool");
    assert_eq!(resp.attributes[1].key, "new_pool_id");
    assert_eq!(resp.attributes[1].value, "7");
    let pools = query_all_pools(&state).pools;
    assert_eq!(pools.len(), 1);
    assert_eq!(pools[0].pool_id, 7);
    assert_eq!(pools[0].token_1.symbol, "AAA");
    assert_eq!(pools[0].token_2.symbol, "BBB");
    assert_eq!(pools[0].tvl, 1000);
    assert_eq!(pools[0].converted_tvl, 500);
    assert_eq!(pools[0].reward_coin, vec!["rewardcoin".to_string()]);
}

#[test]
fn create_pool_overwrites_existing_id() {
    let mut state = setup_registry();
    create_pool(&mut state, "owner", 7, "AAA", "BBB", 1000).unwrap();
    // A second create under the same id succeeds and replaces the
    // record wholesale.
    create_pool(&mut state, "owner", 7, "CCC", "DDD", 9000).unwrap();
    let pools = query_all_pools(&state).pools;
    assert_eq!(pools.len(), 1);
    assert_eq!(pools[0].token_1.symbol, "CCC");
    assert_eq!(pools[0].token_2.symbol, "DDD");
    assert_eq!(pools[0].tvl, 9000);
}

#[test]
fn update_pool_preserves_immutable_fields() {
    let mut state = setup_registry();
    create_pool(&mut state, "owner", 7, "AAA", "BBB", 1000).unwrap();
    let resp = execute_update_pool(
        &mut state,
        "owner".to_string(),
        7,
        rates(100),
        rates(200),
        5555,
        2222,
    )
    .unwrap();
    assert_eq!(resp.attributes[0].value, "execute_update_pool");
    assert_eq!(resp.attributes[1].key, "updated_pool_id");
    assert_eq!(resp.attributes[1].value, "7");
    let pools = query_all_pools(&state).pools;
    assert_eq!(pools.len(), 1);
    // Mutable fields took the new values.
    assert_eq!(pools[0].apr, rates(100));
    assert_eq!(pools[0].apy, rates(200));
    assert_eq!(pools[0].tvl, 5555);
    assert_eq!(pools[0].converted_tvl, 2222);
    // The token pair and the reward coins stayed verbatim.
    assert_eq!(pools[0].token_1, token("AAA"));
    assert_eq!(pools[0].token_2, token("BBB"));
    assert_eq!(pools[0].reward_coin, vec!["rewardcoin".to_string()]);
}

#[test]
fn update_pool_missing_id_fails() {
    let mut state = setup_registry();
    let err = execute_update_pool(
        &mut state,
        "owner".to_string(),
        42,
        rates(1),
        rates(2),
        0,
        0,
    )
    .unwrap_err();
    assert_eq!(err, ContractError::PoolNotExists { pool_id: "42".to_string() });
}

#[test]
fn remove_pool_deletes_exactly_one() {
    let mut state = setup_registry();
    create_pool(&mut state, "owner", 1, "AAA", "BBB", 10).unwrap();
    create_pool(&mut state, "owner", 2, "CCC", "DDD", 20).unwrap();
    create_pool(&mut state, "owner", 3, "EEE", "FFF", 30).unwrap();
    let resp = execute_remove_pool(&mut state, "owner".to_string(), 2).unwrap();
    assert_eq!(resp.attributes[0].value, "execute_remove_pool");
    assert_eq!(resp.attributes[1].key, "deleted_pool_id");
    assert_eq!(resp.attributes[1].value, "2");
    let pools = query_all_pools(&state).pools;
    assert_eq!(pools.len(), 2);
    assert_eq!(pools[0].pool_id, 1);
    assert_eq!(pools[1].pool_id, 3);
    // Removing it again fails.
    let err = execute_remove_pool(&mut state, "owner".to_string(), 2).unwrap_err();
    assert_eq!(err, ContractError::PoolNotExists { pool_id: "2".to_string() });
}

#[test]
fn pools_list_in_ascending_id_order() {
    let mut state = setup_registry();
    create_pool(&mut state, "owner", 30, "AAA", "BBB", 1).unwrap();
    create_pool(&mut state, "owner", 10, "CCC", "DDD", 2).unwrap();
    create_pool(&mut state, "owner", 20, "EEE", "FFF", 3).unwrap();
    let pools = query_all_pools(&state).pools;
    let ids: Vec<u64> = pools.iter().map(|p| p.pool_id).collect();
    assert_eq!(ids, vec![10, 20, 30]);
}

#[test]
fn pool_mutations_require_the_owner() {
    let mut state = setup_registry();
    create_pool(&mut state, "owner", 1, "AAA", "BBB", 10).unwrap();
    let err = create_pool(&mut state, "mallory", 2, "XXX", "YYY", 0).unwrap_err();
    assert_eq!(err, ContractError::Unauthorized {});
    let err = execute_update_pool(
        &mut state,
        "mallory".to_string(),
        1,
        rates(9),
        rates(9),
        9,
        9,
    )
    .unwrap_err();
    assert_eq!(err, ContractError::Unauthorized {});
    let err = execute_remove_pool(&mut state, "mallory".to_string(), 1).unwrap_err();
    assert_eq!(err, ContractError::Unauthorized {});
    // The registry is unchanged.
    let pools = query_all_pools(&state).pools;
    assert_eq!(pools.len(), 1);
    assert_eq!(pools[0].tvl, 10);
}
