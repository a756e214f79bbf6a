//! An end-to-end run through the dispatch interface, owner-gated.

use cw_storage_osmosis::contract::{execute, instantiate, query};
use cw_storage_osmosis::error::ContractError;
use cw_storage_osmosis::msg::{ExecuteMsg, InstantiateMsg, QueryAnswer, QueryMsg};
use cw_storage_osmosis::state::{AnnualInfo, TokenInfo};

fn flat(v: u128) -> AnnualInfo {
    AnnualInfo { one_day: v, one_week: v, two_week: v }
}

#[test]
fn end_to_end_owner_gated_ledger() {
    // Owner O instantiates.
    let (mut state, _) = instantiate("O".to_string(), InstantiateMsg { owner: None });

    // O creates pool 1 with token_1 = {AAA, uaaa, ...}.
    let aaa = TokenInfo {
        symbol: "AAA".to_string(),
        denom: "uaaa".to_string(),
        icon_url: "https://icons/aaa.svg".to_string(),
    };
    let bbb = TokenInfo {
        symbol: "BBB".to_string(),
        denom: "ubbb".to_string(),
        icon_url: "https://icons/bbb.svg".to_string(),
    };
    execute(
        &mut state,
        "O".to_string(),
        ExecuteMsg::NewPool {
            pool_id: 1,
            token_1: aaa,
            token_2: bbb,
            apr: flat(5),
            apy: flat(6),
            tvl: 1_000,
            converted_tvl: 500,
            reward_coin: vec!["uosmo".to_string()],
        },
    )
    .unwrap();

    // Non-owner N tries to create pool 2: refused, table unchanged.
    let ccc = TokenInfo {
        symbol: "CCC".to_string(),
        denom: "uccc".to_string(),
        icon_url: "https://icons/ccc.svg".to_string(),
    };
    let ddd = TokenInfo {
        symbol: "DDD".to_string(),
        denom: "uddd".to_string(),
        icon_url: "https://icons/ddd.svg".to_string(),
    };
    let err = execute(
        &mut state,
        "N".to_string(),
        ExecuteMsg::NewPool {
            pool_id: 2,
            token_1: ccc,
            token_2: ddd,
            apr: flat(1),
            apy: flat(1),
            tvl: 1,
            converted_tvl: 1,
            reward_coin: vec![],
        },
    )
    .unwrap_err();
    assert_eq!(err, ContractError::Unauthorized {});
    match query(&state, QueryMsg::QueryAllPools {}).unwrap() {
        QueryAnswer::AllPools(lp) => {
            assert_eq!(lp.pools.len(), 1);
            assert_eq!(lp.pools[0].pool_id, 1);
            assert_eq!(lp.pools[0].token_1.symbol, "AAA");
            assert_eq!(lp.pools[0].token_1.denom, "uaaa");
        }
        other => panic!("unexpected answer: {:?}", other),
    }

    // O creates an entry for userX in pool 1 with amounts 10.0, 5.0,
    // 5.0 (18-decimal fixed-point atomics): succeeds with id 1.
    let ten = 10_000_000_000_000_000_000u128;
    let five = 5_000_000_000_000_000_000u128;
    let resp = execute(
        &mut state,
        "O".to_string(),
        ExecuteMsg::NewEntry {
            user: "userX".to_string(),
            pool_id: 1,
            lp_token_amount: ten,
            token_1_amount: five,
            token_2_amount: five,
            pool_addr: "addrPool1".to_string(),
        },
    )
    .unwrap();
    assert_eq!(resp.attributes[1].key, "new_entry_id");
    assert_eq!(resp.attributes[1].value, "1");

    // The same create again: refused as a duplicate, pool id carried
    // as a decimal string.
    let err = execute(
        &mut state,
        "O".to_string(),
        ExecuteMsg::NewEntry {
            user: "userX".to_string(),
            pool_id: 1,
            lp_token_amount: ten,
            token_1_amount: five,
            token_2_amount: five,
            pool_addr: "addrPool1".to_string(),
        },
    )
    .unwrap_err();
    assert_eq!(err, ContractError::UserEntryDuplicate { pool_id: "1".to_string() });

    // The ledger still shows exactly one entry for userX.
    match query(&state, QueryMsg::QueryUserEntries { user: "userX".to_string() }).unwrap() {
        QueryAnswer::UserEntries(le) => {
            assert_eq!(le.entries.len(), 1);
            assert_eq!(le.entries[0].id, 1);
            assert_eq!(le.entries[0].pool_id, 1);
            assert_eq!(le.entries[0].lp_token_amount, ten);
            assert_eq!(le.entries[0].pool_addr, "addrPool1");
        }
        other => panic!("unexpected answer: {:?}", other),
    }

    // The full-ledger query shows the one user.
    match query(&state, QueryMsg::QueryAllEntries {}).unwrap() {
        QueryAnswer::AllEntries(all) => {
            assert_eq!(all.entries.len(), 1);
            assert_eq!(all.entries[0].0, "userX");
            assert_eq!(all.entries[0].1.len(), 1);
        }
        other => panic!("unexpected answer: {:?}", other),
    }

    // Dispatched update and delete work through the same interface.
    execute(
        &mut state,
        "O".to_string(),
        ExecuteMsg::UpdateEntry {
            user: "userX".to_string(),
            pool_id: 1,
            lp_token_amount: 1,
            token_1_amount: 2,
            token_2_amount: 3,
        },
    )
    .unwrap();
    execute(
        &mut state,
        "O".to_string(),
        ExecuteMsg::DeleteEntry { user: "userX".to_string(), pool_id: 1 },
    )
    .unwrap();
    let err =
        query(&state, QueryMsg::QueryUserEntries { user: "userX".to_string() }).unwrap_err();
    assert_eq!(err, ContractError::UserNoEntries { user: "userX".to_string() });

    // And the registry operations too.
    execute(
        &mut state,
        "O".to_string(),
        ExecuteMsg::UpdatePool {
            pool_id: 1,
            apr: flat(9),
            apy: flat(9),
            tvl: 2_000,
            converted_tvl: 1_000,
        },
    )
    .unwrap();
    execute(&mut state, "O".to_string(), ExecuteMsg::RemovePool { pool_id: 1 }).unwrap();
    match query(&state, QueryMsg::QueryAllPools {}).unwrap() {
        QueryAnswer::AllPools(lp) => assert_eq!(lp.pools.len(), 0),
        other => panic!("unexpected answer: {:?}", other),
    }
}
