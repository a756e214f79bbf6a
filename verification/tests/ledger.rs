//! Tests of the position ledger: create, update, delete, queries.

use cw_storage_osmosis::contract::{
    execute_create_new_entry, execute_delete_entry, execute_update_entry, instantiate,
    query_all_entries, query_user_entries,
};
use cw_storage_osmosis::error::ContractError;
use cw_storage_osmosis::msg::InstantiateMsg;
use cw_storage_osmosis::state::ContractState;

fn owner() -> String {
    "owner".to_string()
}

fn setup() -> ContractState {
    let (state, resp) = instantiate(owner(), InstantiateMsg { owner: None });
    assert_eq!(resp.attributes.len(), 2);
    assert_eq!(resp.attributes[0].key, "method");
    assert_eq!(resp.attributes[0].value, "instantiate");
    assert_eq!(resp.attributes[1].key, "owner");
    assert_eq!(resp.attributes[1].value, "owner");
    state
}

fn create(
    state: &mut ContractState,
    sender: &str,
    user: &str,
    pool_id: u64,
) -> Result<cw_storage_osmosis::response::Response, ContractError> {
    execute_create_new_entry(
        state,
        sender.to_string(),
        user.to_string(),
        pool_id,
        10,
        20,
        30,
        format!("pool{}", pool_id),
    )
}

#[test]
fn instantiate_names_the_sender_owner() {
    let state = setup();
    // A non-owner cannot create an entry.
    let mut state = state;
    let err = create(&mut state, "someone", "alice", 1).unwrap_err();
    assert_eq!(err, ContractError::Unauthorized {});
}

#[test]
fn instantiate_takes_the_named_owner() {
    let (mut state, resp) = instantiate(
        "creator".to_string(),
        InstantiateMsg { owner: Some("boss".to_string()) },
    );
    assert_eq!(resp.attributes[1].value, "boss");
    // The instantiating sender is not the owner then.
    let err = create(&mut state, "creator", "alice", 1).unwrap_err();
    assert_eq!(err, ContractError::Unauthorized {});
    assert!(create(&mut state, "boss", "alice", 1).is_ok());
}

#[test]
fn create_entry_assigns_sequence_ids() {
    let mut state = setup();
    let resp = create(&mut state, "owner", "alice", 1).unwrap();
    assert_eq!(resp.attributes[0].key, "method");
    assert_eq!(resp.attributes[0].value, "execute_add_new_entry");
    assert_eq!(resp.attributes[1].key, "new_entry_id");
    assert_eq!(resp.attributes[1].value, "1");
    // A second create, for another user, draws the next id.
    let resp = create(&mut state, "owner", "bob", 2).unwrap();
    assert_eq!(resp.attributes[1].value, "2");
    let entries = query_user_entries(&state, "alice".to_string()).unwrap().entries;
    assert_eq!(entries.len(), 1);
    assert_eq!(entries[0].id, 1);
    assert_eq!(entries[0].pool_id, 1);
    assert_eq!(entries[0].lp_token_amount, 10);
    assert_eq!(entries[0].token_1_amount, 20);
    assert_eq!(entries[0].token_2_amount, 30);
    assert_eq!(entries[0].pool_addr, "pool1");
    let entries = query_user_entries(&state, "bob".to_string()).unwrap().entries;
    assert_eq!(entries[0].id, 2);
}

#[test]
fn create_entry_rejects_duplicate_pool() {
    let mut state = setup();
    create(&mut state, "owner", "alice", 7).unwrap();
    let entries = query_user_entries(&state, "alice".to_string()).unwrap().entries;
    assert_eq!(entries.iter().filter(|e| e.pool_id == 7).count(), 1);
    let err = create(&mut state, "owner", "alice", 7).unwrap_err();
    assert_eq!(err, ContractError::UserEntryDuplicate { pool_id: "7".to_string() });
    // The refusal left the ledger and the sequence untouched.
    let entries = query_user_entries(&state, "alice".to_string()).unwrap().entries;
    assert_eq!(entries.len(), 1);
    let resp = create(&mut state, "owner", "alice", 8).unwrap();
    assert_eq!(resp.attributes[1].value, "2");
}

#[test]
fn create_entry_same_pool_for_two_users() {
    let mut state = setup();
    create(&mut state, "owner", "alice", 7).unwrap();
    // Another user may hold an entry for the same pool.
    create(&mut state, "owner", "bob", 7).unwrap();
    assert_eq!(query_user_entries(&state, "bob".to_string()).unwrap().entries[0].id, 2);
}

#[test]
fn update_entry_replaces_amounts_only() {
    let mut state = setup();
    create(&mut state, "owner", "alice", 1).unwrap();
    create(&mut state, "owner", "alice", 2).unwrap();
    let resp = execute_update_entry(
        &mut state,
        "owner".to_string(),
        "alice".to_string(),
        1,
        111,
        222,
        333,
    )
    .unwrap();
    assert_eq!(resp.attributes[0].value, "execute_update_entry");
    assert_eq!(resp.attributes[1].key, "updated_pool_id");
    assert_eq!(resp.attributes[1].value, "1");
    let entries = query_user_entries(&state, "alice".to_string()).unwrap().entries;
    assert_eq!(entries.len(), 2);
    assert_eq!(entries[0].id, 1);
    assert_eq!(entries[0].pool_id, 1);
    assert_eq!(entries[0].lp_token_amount, 111);
    assert_eq!(entries[0].token_1_amount, 222);
    assert_eq!(entries[0].token_2_amount, 333);
    assert_eq!(entries[0].pool_addr, "pool1");
    // The other entry is untouched.
    assert_eq!(entries[1].id, 2);
    assert_eq!(entries[1].lp_token_amount, 10);
}

#[test]
fn update_entry_missing_pool_fails() {
    let mut state = setup();
    create(&mut state, "owner", "alice", 1).unwrap();
    let err = execute_update_entry(
        &mut state,
        "owner".to_string(),
        "alice".to_string(),
        9,
        1,
        2,
        3,
    )
    .unwrap_err();
    assert_eq!(err, ContractError::EntryNotExists { pool_id: "9".to_string() });
}

#[test]
fn update_entry_missing_user_fails() {
    let mut state = setup();
    let err = execute_update_entry(
        &mut state,
        "owner".to_string(),
        "nobody".to_string(),
        1,
        1,
        2,
        3,
    )
    .unwrap_err();
    assert_eq!(err, ContractError::UserNotExists { user: "nobody".to_string() });
}

#[test]
fn delete_entry_removes_exactly_one() {
    let mut state = setup();
    create(&mut state, "owner", "alice", 1).unwrap();
    create(&mut state, "owner", "alice", 2).unwrap();
    create(&mut state, "owner", "alice", 3).unwrap();
    let resp =
        execute_delete_entry(&mut state, "owner".to_string(), "alice".to_string(), 2).unwrap();
    assert_eq!(resp.attributes[0].value, "execute_delete_entry");
    assert_eq!(resp.attributes[1].key, "deleted_pool_id");
    assert_eq!(resp.attributes[1].value, "2");
    let entries = query_user_entries(&state, "alice".to_string()).unwrap().entries;
    assert_eq!(entries.len(), 2);
    assert_eq!(entries[0].pool_id, 1);
    assert_eq!(entries[1].pool_id, 3);
    assert_eq!(entries[0].id, 1);
    assert_eq!(entries[1].id, 3);
    // Repeating the delete fails.
    let err =
        execute_delete_entry(&mut state, "owner".to_string(), "alice".to_string(), 2).unwrap_err();
    assert_eq!(err, ContractError::EntryNotExists { pool_id: "2".to_string() });
}

#[test]
fn delete_entry_can_empty_a_collection() {
    let mut state = setup();
    create(&mut state, "owner", "alice", 1).unwrap();
    execute_delete_entry(&mut state, "owner".to_string(), "alice".to_string(), 1).unwrap();
    // The row stays, but reading it reports an empty collection.
    let err = query_user_entries(&state, "alice".to_string()).unwrap_err();
    assert_eq!(err, ContractError::UserNoEntries { user: "alice".to_string() });
}

#[test]
fn query_unknown_user_fails() {
    let state = setup();
    let err = query_user_entries(&state, "ghost".to_string()).unwrap_err();
    assert_eq!(err, ContractError::UserNotExists { user: "ghost".to_string() });
}

#[test]
fn query_all_entries_ascending_key_order() {
    let mut state = setup();
    create(&mut state, "owner", "cecil", 1).unwrap();
    create(&mut state, "owner", "alice", 2).unwrap();
    create(&mut state, "owner", "bob", 3).unwrap();
    let all = query_all_entries(&state);
    let users: Vec<&str> = all.entries.iter().map(|(u, _)| u.as_str()).collect();
    assert_eq!(users, vec!["alice", "bob", "cecil"]);
    assert_eq!(all.entries[0].1[0].pool_id, 2);
    assert_eq!(all.entries[1].1[0].pool_id, 3);
    assert_eq!(all.entries[2].1[0].pool_id, 1);
}

#[test]
fn query_all_entries_orders_keys_by_utf8_bytes() {
    let mut state = setup();
    // A multi-byte key sorts after every ASCII key: its first byte is
    // above 0x7f.
    create(&mut state, "owner", "Ω-user", 1).unwrap();
    create(&mut state, "owner", "z-user", 2).unwrap();
    create(&mut state, "owner", "A-user", 3).unwrap();
    let all = query_all_entries(&state);
    let users: Vec<&str> = all.entries.iter().map(|(u, _)| u.as_str()).collect();
    assert_eq!(users, vec!["A-user", "z-user", "Ω-user"]);
}

#[test]
fn mutations_require_the_owner() {
    let mut state = setup();
    create(&mut state, "owner", "alice", 1).unwrap();
    let err = execute_update_entry(
        &mut state,
        "mallory".to_string(),
        "alice".to_string(),
        1,
        0,
        0,
        0,
    )
    .unwrap_err();
    assert_eq!(err, ContractError::Unauthorized {});
    let err = execute_delete_entry(&mut state, "mallory".to_string(), "alice".to_string(), 1)
        .unwrap_err();
    assert_eq!(err, ContractError::Unauthorized {});
    // Nothing changed.
    let entries = query_user_entries(&state, "alice".to_string()).unwrap().entries;
    assert_eq!(entries.len(), 1);
    assert_eq!(entries[0].lp_token_amount, 10);
}

#[test]
fn sequence_ids_render_in_decimal() {
    let mut state = setup();
    for pool in 1..=12u64 {
        create(&mut state, "owner", "alice", pool).unwrap();
    }
    let resp = create(&mut state, "owner", "alice", 100).unwrap();
    assert_eq!(resp.attributes[1].value, "13");
    let entries = query_user_entries(&state, "alice".to_string()).unwrap().entries;
    assert_eq!(entries.last().unwrap().id, 13);
}
