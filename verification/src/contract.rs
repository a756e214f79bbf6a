//! The contract operations: owner-gated CRUD over the position
//! ledger and the pool registry, a sequence generator for entry ids,
//! and the read queries.
//!
//! Every mutating operation either succeeds, leaving the state as its
//! contract states and returning an acknowledgement, or fails with a
//! typed error and leaves the state exactly as it was.

use vstd::pervasive::VecAdditionalExecFns;
use vstd::prelude::*;

use crate::digits::dec_chars;
use crate::digits::u64_to_dec_string;
use crate::error::ContractError;
use crate::keys::KeyCmp;
use crate::keys::key_lt;
use crate::keys::str_key_cmp;
use crate::lemmas::lemma_entries_remove_at;
use crate::lemmas::lemma_ids_after_insert;
use crate::lemmas::lemma_ids_after_push;
use crate::lemmas::lemma_ids_after_remove_entry;
use crate::lemmas::lemma_ids_after_update_row;
use crate::lemmas::lemma_insert_row;
use crate::lemmas::lemma_pool_absent;
use crate::lemmas::lemma_pool_at;
use crate::lemmas::lemma_pool_insert;
use crate::lemmas::lemma_pool_remove;
use crate::lemmas::lemma_pool_update;
use crate::lemmas::lemma_update_row;
use crate::lemmas::lemma_user_absent;
use crate::lemmas::lemma_user_at;
use crate::msg::AllEntriesResponse;
use crate::msg::ExecuteMsg;
use crate::msg::InstantiateMsg;
use crate::msg::ListResponseEntry;
use crate::msg::ListResponsePool;
use crate::msg::QueryAnswer;
use crate::msg::QueryMsg;
use crate::response::Response;
use crate::state::AnnualInfo;
use crate::state::Config;
use crate::state::ContractState;
use crate::state::Entry;
use crate::state::EntryV;
use crate::state::Pool;
use crate::state::PoolV;
use crate::state::StateV;
use crate::state::TokenInfo;
use crate::state::TokenInfoV;
use crate::state::UserEntries;
use crate::state::UserEntriesV;
use crate::state::entries_of;
use crate::state::entries_remove;
use crate::state::entries_update;
use crate::state::entries_wf;
use crate::state::has_entry;
use crate::state::has_pool;
use crate::state::has_user;
use crate::state::pool_of;

verus! {

/// Finds where `user`'s row stands, or would stand, in the sorted
/// table: the first position whose key is not below `user`.
fn find_user_pos(list: &Vec<UserEntries>, user: &str) -> (r: (usize, bool))
    ensures
        r.0 <= list@.len(),
        forall|j: int| 0 <= j < r.0 ==> key_lt(#[trigger] list@[j]@.user, user@),
        r.1 <==> (r.0 < list@.len() && list@[r.0 as int]@.user == user@),
        !r.1 && r.0 < list@.len() ==> key_lt(user@, list@[r.0 as int]@.user),
{
    let n = list.len();
    let mut i: usize = 0;
    while i < n
        invariant
            n == list@.len(),
            i <= n,
            forall|j: int| 0 <= j < i ==> key_lt(#[trigger] list@[j]@.user, user@),
        decreases n - i,
    {
        match str_key_cmp(list[i].user.as_str(), user) {
            KeyCmp::Less => {
                i = i + 1;
            },
            KeyCmp::Equal => {
                return (i, true);
            },
            KeyCmp::Greater => {
                return (i, false);
            },
        }
    }
    (n, false)
}

/// Finds the first entry for `pool_id` in a collection, if any.
fn find_entry_pos(entries: &Vec<Entry>, pool_id: u64) -> (r: Option<usize>)
    ensures
        match r {
            Some(k) => {
                &&& k < entries@.len()
                &&& entries@[k as int].pool_id == pool_id
                &&& forall|j: int| 0 <= j < k ==> (#[trigger] entries@[j]).pool_id != pool_id
            },
            None => forall|j: int|
                0 <= j < entries@.len() ==> (#[trigger] entries@[j]).pool_id != pool_id,
        },
{
    let n = entries.len();
    let mut i: usize = 0;
    while i < n
        invariant
            n == entries@.len(),
            i <= n,
            forall|j: int| 0 <= j < i ==> (#[trigger] entries@[j]).pool_id != pool_id,
        decreases n - i,
    {
        if entries[i].pool_id == pool_id {
            return Some(i);
        }
        i = i + 1;
    }
    None
}

/// True when `user`'s stored collection already holds an entry for
/// `pool_id`.
pub open spec fn user_has_pool(list: Seq<UserEntriesV>, user: Seq<char>, pool_id: u64) -> bool {
    has_user(list, user) && has_entry(entries_of(list, user), pool_id)
}

/// What [`execute_create_new_entry`] does: exactly when it succeeds,
/// which error it returns otherwise, and the whole effect of success
/// — the fresh id, the appended entry, and every other collection
/// untouched.
pub open spec fn create_entry_post(
    s0: StateV,
    s1: StateV,
    r: Result<Response, ContractError>,
    sender: Seq<char>,
    user: Seq<char>,
    pool_id: u64,
    lp_token_amount: u128,
    token_1_amount: u128,
    token_2_amount: u128,
    pool_addr: Seq<char>,
) -> bool {
    &&& (r is Err ==> s1 == s0)
    &&& (sender != s0.owner ==> r == Err::<Response, ContractError>(
        ContractError::Unauthorized {},
    ))
    &&& (sender == s0.owner && user_has_pool(s0.list, user, pool_id) ==> (r matches Err(
        ContractError::UserEntryDuplicate { pool_id: p },
    ) && p@ == dec_chars(pool_id as nat)))
    &&& (sender == s0.owner && !user_has_pool(s0.list, user, pool_id) ==> ({
        let id = (s0.entry_seq + 1) as u64;
        let new_entry = EntryV {
            id,
            pool_id,
            lp_token_amount,
            token_1_amount,
            token_2_amount,
            pool_addr,
        };
        &&& r matches Ok(resp) && resp@ == seq![
            ("method"@, "execute_add_new_entry"@),
            ("new_entry_id"@, dec_chars(id as nat)),
        ]
        &&& s1.entry_seq == id
        &&& s1.owner == s0.owner
        &&& s1.pools == s0.pools
        &&& has_user(s1.list, user)
        &&& entries_of(s1.list, user) == (if has_user(s0.list, user) {
            entries_of(s0.list, user)
        } else {
            Seq::<EntryV>::empty()
        }).push(new_entry)
        &&& s1.list.len() == s0.list.len() + (if has_user(s0.list, user) {
            0int
        } else {
            1int
        })
        &&& forall|u: Seq<char>|
            u != user ==> (has_user(#[trigger] s1.list, u) <==> has_user(s0.list, u))
        &&& forall|u: Seq<char>|
            u != user && has_user(s0.list, u) ==> entries_of(#[trigger] s1.list, u) == entries_of(
                s0.list,
                u,
            )
    }))
}

/// What [`execute_update_entry`] does: exactly when it succeeds,
/// which error it returns otherwise, and the whole effect of success
/// — the three amount fields replaced, id and pool address kept, and
/// everything else untouched.
pub open spec fn update_entry_post(
    s0: StateV,
    s1: StateV,
    r: Result<Response, ContractError>,
    sender: Seq<char>,
    user: Seq<char>,
    pool_id: u64,
    lp_token_amount: u128,
    token_1_amount: u128,
    token_2_amount: u128,
) -> bool {
    &&& (r is Err ==> s1 == s0)
    &&& (sender != s0.owner ==> r == Err::<Response, ContractError>(
        ContractError::Unauthorized {},
    ))
    &&& (sender == s0.owner && !has_user(s0.list, user) ==> (r matches Err(
        ContractError::UserNotExists { user: u },
    ) && u@ == user))
    &&& (sender == s0.owner && has_user(s0.list, user) && !has_entry(
        entries_of(s0.list, user),
        pool_id,
    ) ==> (r matches Err(ContractError::EntryNotExists { pool_id: p }) && p@ == dec_chars(
        pool_id as nat,
    )))
    &&& (sender == s0.owner && user_has_pool(s0.list, user, pool_id) ==> ({
        &&& r matches Ok(resp) && resp@ == seq![
            ("method"@, "execute_update_entry"@),
            ("updated_pool_id"@, dec_chars(pool_id as nat)),
        ]
        &&& s1.entry_seq == s0.entry_seq
        &&& s1.owner == s0.owner
        &&& s1.pools == s0.pools
        &&& s1.list.len() == s0.list.len()
        &&& has_user(s1.list, user)
        &&& entries_of(s1.list, user) == entries_update(
            entries_of(s0.list, user),
            pool_id,
            lp_token_amount,
            token_1_amount,
            token_2_amount,
        )
        &&& forall|u: Seq<char>|
            u != user ==> (has_user(#[trigger] s1.list, u) <==> has_user(s0.list, u))
        &&& forall|u: Seq<char>|
            u != user && has_user(s0.list, u) ==> entries_of(#[trigger] s1.list, u) == entries_of(
                s0.list,
                u,
            )
    }))
}

/// What [`execute_delete_entry`] does: exactly when it succeeds,
/// which error it returns otherwise, and the whole effect of success
/// — the first entry for the pool removed, every other entry and
/// collection untouched.
pub open spec fn delete_entry_post(
    s0: StateV,
    s1: StateV,
    r: Result<Response, ContractError>,
    sender: Seq<char>,
    user: Seq<char>,
    pool_id: u64,
) -> bool {
    &&& (r is Err ==> s1 == s0)
    &&& (sender != s0.owner ==> r == Err::<Response, ContractError>(
        ContractError::Unauthorized {},
    ))
    &&& (sender == s0.owner && !has_user(s0.list, user) ==> (r matches Err(
        ContractError::UserNotExists { user: u },
    ) && u@ == user))
    &&& (sender == s0.owner && has_user(s0.list, user) && !has_entry(
        entries_of(s0.list, user),
        pool_id,
    ) ==> (r matches Err(ContractError::EntryNotExists { pool_id: p }) && p@ == dec_chars(
        pool_id as nat,
    )))
    &&& (sender == s0.owner && user_has_pool(s0.list, user, pool_id) ==> ({
        &&& r matches Ok(resp) && resp@ == seq![
            ("method"@, "execute_delete_entry"@),
            ("deleted_pool_id"@, dec_chars(pool_id as nat)),
        ]
        &&& s1.entry_seq == s0.entry_seq
        &&& s1.owner == s0.owner
        &&& s1.pools == s0.pools
        &&& s1.list.len() == s0.list.len()
        &&& has_user(s1.list, user)
        &&& entries_of(s1.list, user) == entries_remove(entries_of(s0.list, user), pool_id)
        &&& forall|u: Seq<char>|
            u != user ==> (has_user(#[trigger] s1.list, u) <==> has_user(s0.list, u))
        &&& forall|u: Seq<char>|
            u != user && has_user(s0.list, u) ==> entries_of(#[trigger] s1.list, u) == entries_of(
                s0.list,
                u,
            )
    }))
}

/// What [`execute_create_new_pool`] does: an owner-gated,
/// unconditional upsert — an existing record for the id is simply
/// overwritten, every other record untouched.
pub open spec fn create_pool_post(
    s0: StateV,
    s1: StateV,
    r: Result<Response, ContractError>,
    sender: Seq<char>,
    pool_id: u64,
    token_1: TokenInfoV,
    token_2: TokenInfoV,
    apr: AnnualInfo,
    apy: AnnualInfo,
    tvl: u128,
    converted_tvl: u128,
    reward_coin: Seq<Seq<char>>,
) -> bool {
    &&& (r is Err ==> s1 == s0)
    &&& (sender != s0.owner ==> r == Err::<Response, ContractError>(
        ContractError::Unauthorized {},
    ))
    &&& (sender == s0.owner ==> ({
        let p = PoolV { pool_id, token_1, token_2, apr, apy, tvl, converted_tvl, reward_coin };
        &&& r matches Ok(resp) && resp@ == seq![
            ("method"@, "execute_add_new_pool"@),
            ("new_pool_id"@, dec_chars(pool_id as nat)),
        ]
        &&& s1.owner == s0.owner
        &&& s1.entry_seq == s0.entry_seq
        &&& s1.list == s0.list
        &&& has_pool(s1.pools, pool_id)
        &&& pool_of(s1.pools, pool_id) == p
        &&& s1.pools.len() == s0.pools.len() + (if has_pool(s0.pools, pool_id) {
            0int
        } else {
            1int
        })
        &&& forall|pid: u64|
            pid != pool_id ==> (has_pool(#[trigger] s1.pools, pid) <==> has_pool(s0.pools, pid))
        &&& forall|pid: u64|
            pid != pool_id && has_pool(s0.pools, pid) ==> pool_of(#[trigger] s1.pools, pid)
                == pool_of(s0.pools, pid)
    }))
}

/// What [`execute_update_pool`] does: exactly when it succeeds, which
/// error it returns otherwise, and the whole effect of success — the
/// rate and TVL fields replaced, the token pair and reward coins kept
/// verbatim, every other record untouched.
pub open spec fn update_pool_post(
    s0: StateV,
    s1: StateV,
    r: Result<Response, ContractError>,
    sender: Seq<char>,
    pool_id: u64,
    apr: AnnualInfo,
    apy: AnnualInfo,
    tvl: u128,
    converted_tvl: u128,
) -> bool {
    &&& (r is Err ==> s1 == s0)
    &&& (sender != s0.owner ==> r == Err::<Response, ContractError>(
        ContractError::Unauthorized {},
    ))
    &&& (sender == s0.owner && !has_pool(s0.pools, pool_id) ==> (r matches Err(
        ContractError::PoolNotExists { pool_id: p },
    ) && p@ == dec_chars(pool_id as nat)))
    &&& (sender == s0.owner && has_pool(s0.pools, pool_id) ==> ({
        let old_p = pool_of(s0.pools, pool_id);
        let p = PoolV {
            pool_id,
            token_1: old_p.token_1,
            token_2: old_p.token_2,
            apr,
            apy,
            tvl,
            converted_tvl,
            reward_coin: old_p.reward_coin,
        };
        &&& r matches Ok(resp) && resp@ == seq![
            ("method"@, "execute_update_pool"@),
            ("updated_pool_id"@, dec_chars(pool_id as nat)),
        ]
        &&& s1.owner == s0.owner
        &&& s1.entry_seq == s0.entry_seq
        &&& s1.list == s0.list
        &&& s1.pools.len() == s0.pools.len()
        &&& has_pool(s1.pools, pool_id)
        &&& pool_of(s1.pools, pool_id) == p
        &&& forall|pid: u64|
            pid != pool_id ==> (has_pool(#[trigger] s1.pools, pid) <==> has_pool(s0.pools, pid))
        &&& forall|pid: u64|
            pid != pool_id && has_pool(s0.pools, pid) ==> pool_of(#[trigger] s1.pools, pid)
                == pool_of(s0.pools, pid)
    }))
}

/// What [`execute_remove_pool`] does: exactly when it succeeds, which
/// error it returns otherwise, and the whole effect of success — the
/// record gone, every other record untouched.
pub open spec fn remove_pool_post(
    s0: StateV,
    s1: StateV,
    r: Result<Response, ContractError>,
    sender: Seq<char>,
    pool_id: u64,
) -> bool {
    &&& (r is Err ==> s1 == s0)
    &&& (sender != s0.owner ==> r == Err::<Response, ContractError>(
        ContractError::Unauthorized {},
    ))
    &&& (sender == s0.owner && !has_pool(s0.pools, pool_id) ==> (r matches Err(
        ContractError::PoolNotExists { pool_id: p },
    ) && p@ == dec_chars(pool_id as nat)))
    &&& (sender == s0.owner && has_pool(s0.pools, pool_id) ==> ({
        &&& r matches Ok(resp) && resp@ == seq![
            ("method"@, "execute_remove_pool"@),
            ("deleted_pool_id"@, dec_chars(pool_id as nat)),
        ]
        &&& s1.owner == s0.owner
        &&& s1.entry_seq == s0.entry_seq
        &&& s1.list == s0.list
        &&& s1.pools.len() == s0.pools.len() - 1
        &&& !has_pool(s1.pools, pool_id)
        &&& forall|pid: u64|
            pid != pool_id ==> (has_pool(#[trigger] s1.pools, pid) <==> has_pool(s0.pools, pid))
        &&& forall|pid: u64|
            pid != pool_id && has_pool(s0.pools, pid) ==> pool_of(#[trigger] s1.pools, pid)
                == pool_of(s0.pools, pid)
    }))
}

/// Initializes the contract: stores the owner — the one named in the
/// message, or else the instantiating sender — and starts the entry
/// sequence at zero, with both tables empty.
pub fn instantiate(sender: String, msg: InstantiateMsg) -> (r: (ContractState, Response))
    ensures
        r.0@.wf(),
        r.0@.owner == (match msg.owner {
            Some(o) => o@,
            None => sender@,
        }),
        r.0@.entry_seq == 0,
        r.0@.list.len() == 0,
        r.0@.pools.len() == 0,
        r.1@ == seq![("method"@, "instantiate"@), ("owner"@, r.0@.owner)],
{
    let owner: String = match msg.owner {
        Some(o) => o,
        None => sender,
    };
    let resp = Response::new().add_attribute("method", "instantiate".to_owned()).add_attribute(
        "owner",
        owner.clone(),
    );
    let state = ContractState {
        config: Config { owner },
        entry_seq: 0,
        list: Vec::new(),
        pools: Vec::new(),
    };
    proof {
        assert(state@.list =~= Seq::<UserEntriesV>::empty());
        assert(state@.pools.len() == 0);
        assert(resp@ =~= seq![("method"@, "instantiate"@), ("owner"@, state@.owner)]);
    }
    (state, resp)
}

/// Creates a new position entry for `user`, numbered by the next
/// sequence id.  Only the owner may call this; a second entry for the
/// same pool in the same user's collection is refused, and a refusal
/// leaves the state — the sequence included — untouched.
pub fn execute_create_new_entry(
    state: &mut ContractState,
    sender: String,
    user: String,
    pool_id: u64,
    lp_token_amount: u128,
    token_1_amount: u128,
    token_2_amount: u128,
    pool_addr: String,
) -> (r: Result<Response, ContractError>)
    requires
        old(state)@.wf(),
        old(state)@.entry_seq < u64::MAX,
    ensures
        final(state)@.wf(),
        create_entry_post(
            old(state)@,
            final(state)@,
            r,
            sender@,
            user@,
            pool_id,
            lp_token_amount,
            token_1_amount,
            token_2_amount,
            pool_addr@,
        ),
{
    let ghost s0 = old(state)@;
    if sender != state.config.owner {
        return Err(ContractError::Unauthorized {});
    }
    let (pos, found) = find_user_pos(&state.list, user.as_str());
    proof {
        assert(forall|j: int|
            0 <= j < s0.list.len() ==> #[trigger] s0.list[j] == state.list@[j]@);
        if found {
            lemma_user_at(s0.list, user@, pos as int);
        } else {
            lemma_user_absent(s0.list, user@, pos as int);
        }
    }
    if found {
        match find_entry_pos(&state.list[pos].entries, pool_id) {
            Some(k) => {
                proof {
                    assert(s0.list[pos as int].entries == state.list@[pos as int]@.entries);
                    assert(s0.list[pos as int].entries[k as int].pool_id == pool_id);
                    assert(has_entry(entries_of(s0.list, user@), pool_id));
                }
                return Err(
                    ContractError::UserEntryDuplicate { pool_id: u64_to_dec_string(pool_id) },
                );
            },
            None => {
                proof {
                    assert(s0.list[pos as int].entries == state.list@[pos as int]@.entries);
                    assert(!has_entry(entries_of(s0.list, user@), pool_id));
                }
            },
        }
        let id = state.entry_seq + 1;
        let new_entry = Entry {
            id,
            pool_id,
            lp_token_amount,
            token_1_amount,
            token_2_amount,
            pool_addr,
        };
        let ghost new_entry_v = new_entry@;
        let mut row = state.list.remove(pos);
        row.entries.push(new_entry);
        state.list.insert(pos, row);
        state.entry_seq = id;
        proof {
            let rowv = UserEntriesV {
                user: s0.list[pos as int].user,
                entries: s0.list[pos as int].entries.push(new_entry_v),
            };
            assert(state.list@.len() == s0.list.len());
            assert forall|j: int| 0 <= j < state.list@.len() implies #[trigger] state@.list[j]
                == s0.list.update(pos as int, rowv)[j] by {
                if j != pos {
                    assert(state.list@[j] == old(state).list@[j]);
                }
                assert(state@.list[j] == state.list@[j]@);
            }
            assert(state@.list =~= s0.list.update(pos as int, rowv));
            assert(entries_wf(rowv.entries)) by {
                assert(entries_wf(s0.list[pos as int].entries));
                assert(forall|j: int|
                    0 <= j < s0.list[pos as int].entries.len() ==> (#[trigger] s0.list[pos as int].entries[j]).pool_id
                        != pool_id);
            }
            lemma_update_row(s0.list, pos as int, rowv);
            lemma_ids_after_push(s0, state@, pos as int, new_entry_v);
            assert(state@.pools =~= s0.pools);
        }
        let resp = Response::new().add_attribute(
            "method",
            "execute_add_new_entry".to_owned(),
        ).add_attribute("new_entry_id", u64_to_dec_string(id));
        proof {
            assert(resp@ =~= seq![
                ("method"@, "execute_add_new_entry"@),
                ("new_entry_id"@, dec_chars(id as nat)),
            ]);
        }
        Ok(resp)
    } else {
        let id = state.entry_seq + 1;
        let new_entry = Entry {
            id,
            pool_id,
            lp_token_amount,
            token_1_amount,
            token_2_amount,
            pool_addr,
        };
        let ghost new_entry_v = new_entry@;
        let mut entries_vec: Vec<Entry> = Vec::new();
        entries_vec.push(new_entry);
        let ghost user_v = user@;
        state.list.insert(pos, UserEntries { user, entries: entries_vec });
        state.entry_seq = id;
        proof {
            let rowv = UserEntriesV { user: user_v, entries: seq![new_entry_v] };
            assert(state.list@[pos as int]@ =~= rowv);
            assert(state.list@.len() == s0.list.len() + 1);
            assert forall|j: int| 0 <= j < state.list@.len() implies #[trigger] state@.list[j]
                == s0.list.insert(pos as int, rowv)[j] by {
                assert(state@.list[j] == state.list@[j]@);
                if j < pos {
                    assert(state.list@[j] == old(state).list@[j]);
                } else if j > pos {
                    assert(state.list@[j] == old(state).list@[j - 1]);
                }
            }
            assert(state@.list =~= s0.list.insert(pos as int, rowv));
            assert(entries_wf(rowv.entries));
            lemma_insert_row(s0.list, pos as int, rowv);
            lemma_ids_after_insert(s0, state@, pos as int, rowv);
            assert(state@.pools =~= s0.pools);
            assert(entries_of(state@.list, user_v) =~= Seq::<EntryV>::empty().push(new_entry_v));
        }
        let resp = Response::new().add_attribute(
            "method",
            "execute_add_new_entry".to_owned(),
        ).add_attribute("new_entry_id", u64_to_dec_string(id));
        proof {
            assert(resp@ =~= seq![
                ("method"@, "execute_add_new_entry"@),
                ("new_entry_id"@, dec_chars(id as nat)),
            ]);
        }
        Ok(resp)
    }
}

/// Finds where the record for `pool_id` stands, or would stand, in
/// the sorted registry: the first position whose id is not below it.
fn find_pool_pos(pools: &Vec<Pool>, pool_id: u64) -> (r: (usize, bool))
    ensures
        r.0 <= pools@.len(),
        forall|j: int| 0 <= j < r.0 ==> (#[trigger] pools@[j]).pool_id < pool_id,
        r.1 <==> (r.0 < pools@.len() && pools@[r.0 as int].pool_id == pool_id),
        !r.1 && r.0 < pools@.len() ==> pool_id < pools@[r.0 as int].pool_id,
{
    let n = pools.len();
    let mut i: usize = 0;
    while i < n
        invariant
            n == pools@.len(),
            i <= n,
            forall|j: int| 0 <= j < i ==> (#[trigger] pools@[j]).pool_id < pool_id,
        decreases n - i,
    {
        if pools[i].pool_id < pool_id {
            i = i + 1;
        } else if pools[i].pool_id == pool_id {
            return (i, true);
        } else {
            return (i, false);
        }
    }
    (n, false)
}

/// Stores a pool record under `pool_id`, overwriting any record
/// already there.  Only the owner may call this.
pub fn execute_create_new_pool(
    state: &mut ContractState,
    sender: String,
    pool_id: u64,
    token_1: TokenInfo,
    token_2: TokenInfo,
    apr: AnnualInfo,
    apy: AnnualInfo,
    tvl: u128,
    converted_tvl: u128,
    reward_coin: Vec<String>,
) -> (r: Result<Response, ContractError>)
    requires
        old(state)@.wf(),
    ensures
        final(state)@.wf(),
        create_pool_post(
            old(state)@,
            final(state)@,
            r,
            sender@,
            pool_id,
            token_1@,
            token_2@,
            apr,
            apy,
            tvl,
            converted_tvl,
            reward_coin@.map_values(|s: String| s@),
        ),
{
    let ghost s0 = old(state)@;
    if sender != state.config.owner {
        return Err(ContractError::Unauthorized {});
    }
    let (pos, found) = find_pool_pos(&state.pools, pool_id);
    proof {
        assert(forall|j: int|
            0 <= j < s0.pools.len() ==> #[trigger] s0.pools[j] == state.pools@[j]@);
        if found {
            lemma_pool_at(s0.pools, pool_id, pos as int);
        } else {
            lemma_pool_absent(s0.pools, pool_id, pos as int);
        }
    }
    let new_pool = Pool { pool_id, token_1, token_2, apr, apy, tvl, converted_tvl, reward_coin };
    let ghost pv = new_pool@;
    if found {
        state.pools.set(pos, new_pool);
        proof {
            assert forall|j: int| 0 <= j < state.pools@.len() implies #[trigger] state@.pools[j]
                == s0.pools.update(pos as int, pv)[j] by {
                if j != pos {
                    assert(state.pools@[j] == old(state).pools@[j]);
                }
                assert(state@.pools[j] == state.pools@[j]@);
            }
            assert(state@.pools =~= s0.pools.update(pos as int, pv));
            lemma_pool_update(s0.pools, pos as int, pv);
            assert(state@.list =~= s0.list);
        }
    } else {
        state.pools.insert(pos, new_pool);
        proof {
            assert forall|j: int| 0 <= j < state.pools@.len() implies #[trigger] state@.pools[j]
                == s0.pools.insert(pos as int, pv)[j] by {
                assert(state@.pools[j] == state.pools@[j]@);
                if j < pos {
                    assert(state.pools@[j] == old(state).pools@[j]);
                } else if j > pos {
                    assert(state.pools@[j] == old(state).pools@[j - 1]);
                }
            }
            assert(state@.pools =~= s0.pools.insert(pos as int, pv));
            lemma_pool_insert(s0.pools, pos as int, pv);
            assert(state@.list =~= s0.list);
        }
    }
    let resp = Response::new().add_attribute(
        "method",
        "execute_add_new_pool".to_owned(),
    ).add_attribute("new_pool_id", u64_to_dec_string(pool_id));
    proof {
        assert(resp@ =~= seq![
            ("method"@, "execute_add_new_pool"@),
            ("new_pool_id"@, dec_chars(pool_id as nat)),
        ]);
    }
    Ok(resp)
}

/// Replaces the rate series and TVL figures of the pool for
/// `pool_id`; the token pair and reward coins stay verbatim.  Only
/// the owner may call this.
pub fn execute_update_pool(
    state: &mut ContractState,
    sender: String,
    pool_id: u64,
    apr: AnnualInfo,
    apy: AnnualInfo,
    tvl: u128,
    converted_tvl: u128,
) -> (r: Result<Response, ContractError>)
    requires
        old(state)@.wf(),
    ensures
        final(state)@.wf(),
        update_pool_post(
            old(state)@,
            final(state)@,
            r,
            sender@,
            pool_id,
            apr,
            apy,
            tvl,
            converted_tvl,
        ),
{
    let ghost s0 = old(state)@;
    if sender != state.config.owner {
        return Err(ContractError::Unauthorized {});
    }
    let (pos, found) = find_pool_pos(&state.pools, pool_id);
    proof {
        assert(forall|j: int|
            0 <= j < s0.pools.len() ==> #[trigger] s0.pools[j] == state.pools@[j]@);
        if found {
            lemma_pool_at(s0.pools, pool_id, pos as int);
        } else {
            lemma_pool_absent(s0.pools, pool_id, pos as int);
        }
    }
    if !found {
        return Err(ContractError::PoolNotExists { pool_id: u64_to_dec_string(pool_id) });
    }
    let mut updated = state.pools[pos].clone();
    updated.apr = apr;
    updated.apy = apy;
    updated.tvl = tvl;
    updated.converted_tvl = converted_tvl;
    let ghost pv = updated@;
    state.pools.set(pos, updated);
    proof {
        assert(pv =~= PoolV {
            pool_id,
            token_1: pool_of(s0.pools, pool_id).token_1,
            token_2: pool_of(s0.pools, pool_id).token_2,
            apr,
            apy,
            tvl,
            converted_tvl,
            reward_coin: pool_of(s0.pools, pool_id).reward_coin,
        });
        assert forall|j: int| 0 <= j < state.pools@.len() implies #[trigger] state@.pools[j]
            == s0.pools.update(pos as int, pv)[j] by {
            if j != pos {
                assert(state.pools@[j] == old(state).pools@[j]);
            }
            assert(state@.pools[j] == state.pools@[j]@);
        }
        assert(state@.pools =~= s0.pools.update(pos as int, pv));
        lemma_pool_update(s0.pools, pos as int, pv);
        assert(state@.list =~= s0.list);
    }
    let resp = Response::new().add_attribute(
        "method",
        "execute_update_pool".to_owned(),
    ).add_attribute("updated_pool_id", u64_to_dec_string(pool_id));
    proof {
        assert(resp@ =~= seq![
            ("method"@, "execute_update_pool"@),
            ("updated_pool_id"@, dec_chars(pool_id as nat)),
        ]);
    }
    Ok(resp)
}

/// Deletes the pool record for `pool_id`.  Only the owner may call
/// this.
pub fn execute_remove_pool(state: &mut ContractState, sender: String, pool_id: u64) -> (r: Result<
    Response,
    ContractError,
>)
    requires
        old(state)@.wf(),
    ensures
        final(state)@.wf(),
        remove_pool_post(old(state)@, final(state)@, r, sender@, pool_id),
{
    let ghost s0 = old(state)@;
    if sender != state.config.owner {
        return Err(ContractError::Unauthorized {});
    }
    let (pos, found) = find_pool_pos(&state.pools, pool_id);
    proof {
        assert(forall|j: int|
            0 <= j < s0.pools.len() ==> #[trigger] s0.pools[j] == state.pools@[j]@);
        if found {
            lemma_pool_at(s0.pools, pool_id, pos as int);
        } else {
            lemma_pool_absent(s0.pools, pool_id, pos as int);
        }
    }
    if !found {
        return Err(ContractError::PoolNotExists { pool_id: u64_to_dec_string(pool_id) });
    }
    state.pools.remove(pos);
    proof {
        assert forall|j: int| 0 <= j < state.pools@.len() implies #[trigger] state@.pools[j]
            == s0.pools.remove(pos as int)[j] by {
            assert(state@.pools[j] == state.pools@[j]@);
            if j < pos {
                assert(state.pools@[j] == old(state).pools@[j]);
            } else {
                assert(state.pools@[j] == old(state).pools@[j + 1]);
            }
        }
        assert(state@.pools =~= s0.pools.remove(pos as int));
        lemma_pool_remove(s0.pools, pos as int);
        assert(state@.list =~= s0.list);
    }
    let resp = Response::new().add_attribute(
        "method",
        "execute_remove_pool".to_owned(),
    ).add_attribute("deleted_pool_id", u64_to_dec_string(pool_id));
    proof {
        assert(resp@ =~= seq![
            ("method"@, "execute_remove_pool"@),
            ("deleted_pool_id"@, dec_chars(pool_id as nat)),
        ]);
    }
    Ok(resp)
}

/// Replaces the three amount fields of `user`'s entry for `pool_id`;
/// its id and pool address stay as they were.  Only the owner may
/// call this.
pub fn execute_update_entry(
    state: &mut ContractState,
    sender: String,
    user: String,
    pool_id: u64,
    lp_token_amount: u128,
    token_1_amount: u128,
    token_2_amount: u128,
) -> (r: Result<Response, ContractError>)
    requires
        old(state)@.wf(),
    ensures
        final(state)@.wf(),
        update_entry_post(
            old(state)@,
            final(state)@,
            r,
            sender@,
            user@,
            pool_id,
            lp_token_amount,
            token_1_amount,
            token_2_amount,
        ),
{
    let ghost s0 = old(state)@;
    if sender != state.config.owner {
        return Err(ContractError::Unauthorized {});
    }
    let (pos, found) = find_user_pos(&state.list, user.as_str());
    proof {
        assert(forall|j: int|
            0 <= j < s0.list.len() ==> #[trigger] s0.list[j] == state.list@[j]@);
        if found {
            lemma_user_at(s0.list, user@, pos as int);
        } else {
            lemma_user_absent(s0.list, user@, pos as int);
        }
    }
    if !found {
        return Err(ContractError::UserNotExists { user });
    }
    match find_entry_pos(&state.list[pos].entries, pool_id) {
        None => {
            proof {
                assert(s0.list[pos as int].entries == state.list@[pos as int]@.entries);
                assert(!has_entry(entries_of(s0.list, user@), pool_id));
            }
            Err(ContractError::EntryNotExists { pool_id: u64_to_dec_string(pool_id) })
        },
        Some(k) => {
            proof {
                assert(s0.list[pos as int].entries == state.list@[pos as int]@.entries);
                assert(s0.list[pos as int].entries[k as int].pool_id == pool_id);
                assert(has_entry(entries_of(s0.list, user@), pool_id));
            }
            let mut row = state.list.remove(pos);
            let e = &row.entries[k];
            let updated = Entry {
                id: e.id,
                pool_id: e.pool_id,
                lp_token_amount,
                token_1_amount,
                token_2_amount,
                pool_addr: e.pool_addr.clone(),
            };
            let ghost updated_v = updated@;
            row.entries.set(k, updated);
            state.list.insert(pos, row);
            proof {
                let old_entries = s0.list[pos as int].entries;
                let rowv = UserEntriesV {
                    user: s0.list[pos as int].user,
                    entries: old_entries.update(k as int, updated_v),
                };
                assert(state.list@.len() == s0.list.len());
                assert forall|j: int| 0 <= j < state.list@.len() implies #[trigger] state@.list[j]
                    == s0.list.update(pos as int, rowv)[j] by {
                    if j != pos {
                        assert(state.list@[j] == old(state).list@[j]);
                    } else {
                        assert(state.list@[pos as int]@.entries =~= rowv.entries);
                    }
                    assert(state@.list[j] == state.list@[j]@);
                }
                assert(state@.list =~= s0.list.update(pos as int, rowv));
                assert(entries_wf(old_entries));
                assert(forall|i: int|
                    0 <= i < old_entries.len() && i != k ==> (#[trigger] old_entries[i]).pool_id
                        != pool_id);
                assert(entries_update(
                    old_entries,
                    pool_id,
                    lp_token_amount,
                    token_1_amount,
                    token_2_amount,
                ) =~= rowv.entries);
                assert(forall|i: int|
                    0 <= i < rowv.entries.len() ==> (#[trigger] rowv.entries[i]).pool_id
                        == old_entries[i].pool_id);
                assert(entries_wf(rowv.entries));
                lemma_update_row(s0.list, pos as int, rowv);
                assert(forall|j: int|
                    0 <= j < old_entries.len() ==> (#[trigger] rowv.entries[j]).id
                        == old_entries[j].id);
                lemma_ids_after_update_row(s0, state@, pos as int);
                assert(state@.pools =~= s0.pools);
            }
            let resp = Response::new().add_attribute(
                "method",
                "execute_update_entry".to_owned(),
            ).add_attribute("updated_pool_id", u64_to_dec_string(pool_id));
            proof {
                assert(resp@ =~= seq![
                    ("method"@, "execute_update_entry"@),
                    ("updated_pool_id"@, dec_chars(pool_id as nat)),
                ]);
            }
            Ok(resp)
        },
    }
}

/// Removes `user`'s entry for `pool_id` — the first match in scan
/// order — and keeps every other entry in place.  Only the owner may
/// call this.
pub fn execute_delete_entry(
    state: &mut ContractState,
    sender: String,
    user: String,
    pool_id: u64,
) -> (r: Result<Response, ContractError>)
    requires
        old(state)@.wf(),
    ensures
        final(state)@.wf(),
        delete_entry_post(old(state)@, final(state)@, r, sender@, user@, pool_id),
{
    let ghost s0 = old(state)@;
    if sender != state.config.owner {
        return Err(ContractError::Unauthorized {});
    }
    let (pos, found) = find_user_pos(&state.list, user.as_str());
    proof {
        assert(forall|j: int|
            0 <= j < s0.list.len() ==> #[trigger] s0.list[j] == state.list@[j]@);
        if found {
            lemma_user_at(s0.list, user@, pos as int);
        } else {
            lemma_user_absent(s0.list, user@, pos as int);
        }
    }
    if !found {
        return Err(ContractError::UserNotExists { user });
    }
    match find_entry_pos(&state.list[pos].entries, pool_id) {
        None => {
            proof {
                assert(s0.list[pos as int].entries == state.list@[pos as int]@.entries);
                assert(!has_entry(entries_of(s0.list, user@), pool_id));
            }
            Err(ContractError::EntryNotExists { pool_id: u64_to_dec_string(pool_id) })
        },
        Some(k) => {
            proof {
                assert(s0.list[pos as int].entries == state.list@[pos as int]@.entries);
                assert(s0.list[pos as int].entries[k as int].pool_id == pool_id);
                assert(has_entry(entries_of(s0.list, user@), pool_id));
            }
            let mut row = state.list.remove(pos);
            row.entries.remove(k);
            state.list.insert(pos, row);
            proof {
                let old_entries = s0.list[pos as int].entries;
                let rowv = UserEntriesV {
                    user: s0.list[pos as int].user,
                    entries: old_entries.remove(k as int),
                };
                assert(state.list@.len() == s0.list.len());
                assert forall|j: int| 0 <= j < state.list@.len() implies #[trigger] state@.list[j]
                    == s0.list.update(pos as int, rowv)[j] by {
                    if j != pos {
                        assert(state.list@[j] == old(state).list@[j]);
                    } else {
                        assert(state.list@[pos as int]@.entries =~= rowv.entries);
                    }
                    assert(state@.list[j] == state.list@[j]@);
                }
                assert(state@.list =~= s0.list.update(pos as int, rowv));
                assert(entries_wf(old_entries));
                lemma_entries_remove_at(old_entries, pool_id, k as int);
                assert forall|i: int, j: int| 0 <= i < j < rowv.entries.len() implies (
                #[trigger] rowv.entries[i]).pool_id != (#[trigger] rowv.entries[j]).pool_id by {
                    let oi = if i < k { i } else { i + 1 };
                    let oj = if j < k { j } else { j + 1 };
                    assert(rowv.entries[i] == old_entries[oi]);
                    assert(rowv.entries[j] == old_entries[oj]);
                }
                assert(entries_wf(rowv.entries));
                lemma_update_row(s0.list, pos as int, rowv);
                lemma_ids_after_remove_entry(s0, state@, pos as int, k as int);
                assert(state@.pools =~= s0.pools);
            }
            let resp = Response::new().add_attribute(
                "method",
                "execute_delete_entry".to_owned(),
            ).add_attribute("deleted_pool_id", u64_to_dec_string(pool_id));
            proof {
                assert(resp@ =~= seq![
                    ("method"@, "execute_delete_entry"@),
                    ("deleted_pool_id"@, dec_chars(pool_id as nat)),
                ]);
            }
            Ok(resp)
        },
    }
}

/// What [`query_user_entries`] answers: the user's whole collection,
/// in order, or the read-path error that says why not.
pub open spec fn user_entries_post(
    s: StateV,
    r: Result<ListResponseEntry, ContractError>,
    user: Seq<char>,
) -> bool {
    &&& (!has_user(s.list, user) ==> (r matches Err(ContractError::UserNotExists { user: u })
        && u@ == user))
    &&& (has_user(s.list, user) && entries_of(s.list, user).len() == 0 ==> (r matches Err(
        ContractError::UserNoEntries { user: u },
    ) && u@ == user))
    &&& (has_user(s.list, user) && entries_of(s.list, user).len() > 0 ==> (r matches Ok(resp)
        && resp.entries@.map_values(|e: Entry| e@) == entries_of(s.list, user)))
}

/// Clones a collection, entry for entry.
fn clone_entries(entries: &Vec<Entry>) -> (r: Vec<Entry>)
    ensures
        r@.map_values(|e: Entry| e@) == entries@.map_values(|e: Entry| e@),
{
    let r = entries.clone();
    proof {
        assert forall|i: int| 0 <= i < r@.len() implies r@[i]@ == entries@[i]@ by {
            assert(cloned::<Entry>(entries@[i], r@[i]));
        }
        assert(r@.map_values(|e: Entry| e@) =~= entries@.map_values(|e: Entry| e@));
    }
    r
}

/// Answers with `user`'s entry collection.  A user without a row is
/// distinguished from a user whose stored collection is empty.
pub fn query_user_entries(state: &ContractState, user: String) -> (r: Result<
    ListResponseEntry,
    ContractError,
>)
    requires
        state@.wf(),
    ensures
        user_entries_post(state@, r, user@),
{
    let (pos, found) = find_user_pos(&state.list, user.as_str());
    proof {
        assert(forall|j: int|
            0 <= j < state@.list.len() ==> #[trigger] state@.list[j] == state.list@[j]@);
        if found {
            lemma_user_at(state@.list, user@, pos as int);
        } else {
            lemma_user_absent(state@.list, user@, pos as int);
        }
    }
    if !found {
        return Err(ContractError::UserNotExists { user });
    }
    if state.list[pos].entries.len() == 0 {
        proof {
            assert(entries_of(state@.list, user@).len() == 0);
        }
        return Err(ContractError::UserNoEntries { user });
    }
    let entries = clone_entries(&state.list[pos].entries);
    proof {
        assert(entries@.map_values(|e: Entry| e@) == entries_of(state@.list, user@));
    }
    Ok(ListResponseEntry { entries })
}

/// Answers with the whole ledger: every user with a stored row, in
/// ascending key order, each with its full collection.
pub fn query_all_entries(state: &ContractState) -> (r: AllEntriesResponse)
    requires
        state@.wf(),
    ensures
        r.entries@.len() == state@.list.len(),
        forall|i: int|
            0 <= i < state@.list.len() ==> (#[trigger] r.entries@[i]).0@ == state@.list[i].user
                && r.entries@[i].1@.map_values(|e: Entry| e@) == state@.list[i].entries,
{
    let mut out: Vec<(String, Vec<Entry>)> = Vec::new();
    let n = state.list.len();
    let mut i: usize = 0;
    while i < n
        invariant
            n == state.list@.len(),
            i <= n,
            out@.len() == i,
            forall|k: int|
                0 <= k < i ==> (#[trigger] out@[k]).0@ == state@.list[k].user
                    && out@[k].1@.map_values(|e: Entry| e@) == state@.list[k].entries,
        decreases n - i,
    {
        let row = &state.list[i];
        out.push((row.user.clone(), clone_entries(&row.entries)));
        i = i + 1;
    }
    AllEntriesResponse { entries: out }
}

/// Answers with the whole pool registry, in ascending id order.
pub fn query_all_pools(state: &ContractState) -> (r: ListResponsePool)
    requires
        state@.wf(),
    ensures
        r.pools@.map_values(|p: Pool| p@) == state@.pools,
{
    let pools = state.pools.clone();
    proof {
        assert forall|i: int| 0 <= i < pools@.len() implies pools@[i]@ == state.pools@[i]@ by {
            assert(cloned::<Pool>(state.pools@[i], pools@[i]));
        }
        assert(pools@.map_values(|p: Pool| p@) =~= state@.pools);
    }
    ListResponsePool { pools }
}

/// Dispatches a read operation and answers with its typed payload.
pub fn query(state: &ContractState, msg: QueryMsg) -> (r: Result<QueryAnswer, ContractError>)
    requires
        state@.wf(),
    ensures
        match msg {
            QueryMsg::QueryAllPools {} => r matches Ok(QueryAnswer::AllPools(lp))
                && lp.pools@.map_values(|p: Pool| p@) == state@.pools,
            QueryMsg::QueryUserEntries { user } => {
                &&& (!has_user(state@.list, user@) ==> (r matches Err(
                    ContractError::UserNotExists { user: u },
                ) && u@ == user@))
                &&& (has_user(state@.list, user@) && entries_of(state@.list, user@).len() == 0
                    ==> (r matches Err(ContractError::UserNoEntries { user: u }) && u@ == user@))
                &&& (has_user(state@.list, user@) && entries_of(state@.list, user@).len() > 0 ==> (
                r matches Ok(QueryAnswer::UserEntries(resp)) && resp.entries@.map_values(
                    |e: Entry| e@,
                ) == entries_of(state@.list, user@)))
            },
            QueryMsg::QueryAllEntries {} => r matches Ok(QueryAnswer::AllEntries(a))
                && a.entries@.len() == state@.list.len() && (forall|i: int|
                0 <= i < state@.list.len() ==> (#[trigger] a.entries@[i]).0@
                    == state@.list[i].user && a.entries@[i].1@.map_values(|e: Entry| e@)
                    == state@.list[i].entries),
        },
{
    match msg {
        QueryMsg::QueryAllPools {} => Ok(QueryAnswer::AllPools(query_all_pools(state))),
        QueryMsg::QueryUserEntries { user } => {
            match query_user_entries(state, user) {
                Ok(resp) => Ok(QueryAnswer::UserEntries(resp)),
                Err(e) => Err(e),
            }
        },
        QueryMsg::QueryAllEntries {} => Ok(QueryAnswer::AllEntries(query_all_entries(state))),
    }
}

/// Dispatches a mutating operation to its handler.
pub fn execute(state: &mut ContractState, sender: String, msg: ExecuteMsg) -> (r: Result<
    Response,
    ContractError,
>)
    requires
        old(state)@.wf(),
        msg matches ExecuteMsg::NewEntry { .. } ==> old(state)@.entry_seq < u64::MAX,
    ensures
        final(state)@.wf(),
        match msg {
            ExecuteMsg::NewEntry {
                user,
                pool_id,
                lp_token_amount,
                token_1_amount,
                token_2_amount,
                pool_addr,
            } => create_entry_post(
                old(state)@,
                final(state)@,
                r,
                sender@,
                user@,
                pool_id,
                lp_token_amount,
                token_1_amount,
                token_2_amount,
                pool_addr@,
            ),
            ExecuteMsg::UpdateEntry {
                user,
                pool_id,
                lp_token_amount,
                token_1_amount,
                token_2_amount,
            } => update_entry_post(
                old(state)@,
                final(state)@,
                r,
                sender@,
                user@,
                pool_id,
                lp_token_amount,
                token_1_amount,
                token_2_amount,
            ),
            ExecuteMsg::DeleteEntry { user, pool_id } => delete_entry_post(
                old(state)@,
                final(state)@,
                r,
                sender@,
                user@,
                pool_id,
            ),
            ExecuteMsg::NewPool {
                pool_id,
                token_1,
                token_2,
                apr,
                apy,
                tvl,
                converted_tvl,
                reward_coin,
            } => create_pool_post(
                old(state)@,
                final(state)@,
                r,
                sender@,
                pool_id,
                token_1@,
                token_2@,
                apr,
                apy,
                tvl,
                converted_tvl,
                reward_coin@.map_values(|s: String| s@),
            ),
            ExecuteMsg::UpdatePool { pool_id, apr, apy, tvl, converted_tvl } => update_pool_post(
                old(state)@,
                final(state)@,
                r,
                sender@,
                pool_id,
                apr,
                apy,
                tvl,
                converted_tvl,
            ),
            ExecuteMsg::RemovePool { pool_id } => remove_pool_post(
                old(state)@,
                final(state)@,
                r,
                sender@,
                pool_id,
            ),
        },
{
    match msg {
        ExecuteMsg::NewEntry {
            user,
            pool_id,
            lp_token_amount,
            token_1_amount,
            token_2_amount,
            pool_addr,
        } => execute_create_new_entry(
            state,
            sender,
            user,
            pool_id,
            lp_token_amount,
            token_1_amount,
            token_2_amount,
            pool_addr,
        ),
        ExecuteMsg::UpdateEntry {
            user,
            pool_id,
            lp_token_amount,
            token_1_amount,
            token_2_amount,
        } => execute_update_entry(
            state,
            sender,
            user,
            pool_id,
            lp_token_amount,
            token_1_amount,
            token_2_amount,
        ),
        ExecuteMsg::DeleteEntry { user, pool_id } => execute_delete_entry(
            state,
            sender,
            user,
            pool_id,
        ),
        ExecuteMsg::NewPool {
            pool_id,
            token_1,
            token_2,
            apr,
            apy,
            tvl,
            converted_tvl,
            reward_coin,
        } => execute_create_new_pool(
            state,
            sender,
            pool_id,
            token_1,
            token_2,
            apr,
            apy,
            tvl,
            converted_tvl,
            reward_coin,
        ),
        ExecuteMsg::UpdatePool { pool_id, apr, apy, tvl, converted_tvl } => execute_update_pool(
            state,
            sender,
            pool_id,
            apr,
            apy,
            tvl,
            converted_tvl,
        ),
        ExecuteMsg::RemovePool { pool_id } => execute_remove_pool(state, sender, pool_id),
    }
}

} // verus!
