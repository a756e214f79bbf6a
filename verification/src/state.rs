//! Data model of the position ledger and the pool registry.
//!
//! The ledger keeps, per user address, an ordered collection of pool
//! position entries; the registry keeps pool metadata keyed by pool
//! id.  Both tables, the entry-id sequence and the owner configuration
//! live in one explicit [`ContractState`] value.
//!
//! Amounts are carried as fixed-point atomics (the raw integer behind
//! an 18-decimal-place decimal), addresses as plain strings.

use vstd::prelude::*;

use crate::keys::key_lt;

verus! {

/// The owner configuration, fixed at initialization.
#[derive(Debug)]
pub struct Config {
    pub owner: String,
}

/// Descriptive metadata of one token of a pool's pair.
#[derive(PartialEq, Debug)]
pub struct TokenInfo {
    pub symbol: String,
    pub denom: String,
    pub icon_url: String,
}

/// A rate series (used for both APR and APY), in fixed-point atomics.
#[derive(Clone, Copy, PartialEq, Eq, Structural, Debug)]
pub struct AnnualInfo {
    pub one_day: u128,
    pub one_week: u128,
    pub two_week: u128,
}

/// One user's position in one pool.
#[derive(PartialEq, Debug)]
pub struct Entry {
    pub id: u64,
    pub pool_id: u64,
    pub lp_token_amount: u128,
    pub token_1_amount: u128,
    pub token_2_amount: u128,
    pub pool_addr: String,
}

/// Metadata of one liquidity pool.
#[derive(PartialEq, Debug)]
pub struct Pool {
    pub pool_id: u64,
    pub token_1: TokenInfo,
    pub token_2: TokenInfo,
    pub apr: AnnualInfo,
    pub apy: AnnualInfo,
    pub tvl: u128,
    pub converted_tvl: u128,
    pub reward_coin: Vec<String>,
}

/// One row of the ledger: a user address and its entry collection.
#[derive(PartialEq, Debug)]
pub struct UserEntries {
    pub user: String,
    pub entries: Vec<Entry>,
}

/// The whole stored state: owner configuration, entry-id sequence,
/// ledger rows in ascending key order, and pools in ascending id
/// order.
#[derive(Debug)]
pub struct ContractState {
    pub config: Config,
    pub entry_seq: u64,
    pub list: Vec<UserEntries>,
    pub pools: Vec<Pool>,
}

/// Mathematical image of a [`TokenInfo`].
#[verifier::ext_equal]
pub struct TokenInfoV {
    pub symbol: Seq<char>,
    pub denom: Seq<char>,
    pub icon_url: Seq<char>,
}

/// Mathematical image of an [`Entry`].
#[verifier::ext_equal]
pub struct EntryV {
    pub id: u64,
    pub pool_id: u64,
    pub lp_token_amount: u128,
    pub token_1_amount: u128,
    pub token_2_amount: u128,
    pub pool_addr: Seq<char>,
}

/// Mathematical image of a [`Pool`].
#[verifier::ext_equal]
pub struct PoolV {
    pub pool_id: u64,
    pub token_1: TokenInfoV,
    pub token_2: TokenInfoV,
    pub apr: AnnualInfo,
    pub apy: AnnualInfo,
    pub tvl: u128,
    pub converted_tvl: u128,
    pub reward_coin: Seq<Seq<char>>,
}

/// Mathematical image of a ledger row.
#[verifier::ext_equal]
pub struct UserEntriesV {
    pub user: Seq<char>,
    pub entries: Seq<EntryV>,
}

/// Mathematical image of the whole state.
#[verifier::ext_equal]
pub struct StateV {
    pub owner: Seq<char>,
    pub entry_seq: u64,
    pub list: Seq<UserEntriesV>,
    pub pools: Seq<PoolV>,
}

impl View for TokenInfo {
    type V = TokenInfoV;

    open spec fn view(&self) -> TokenInfoV {
        TokenInfoV { symbol: self.symbol@, denom: self.denom@, icon_url: self.icon_url@ }
    }
}

impl View for Entry {
    type V = EntryV;

    open spec fn view(&self) -> EntryV {
        EntryV {
            id: self.id,
            pool_id: self.pool_id,
            lp_token_amount: self.lp_token_amount,
            token_1_amount: self.token_1_amount,
            token_2_amount: self.token_2_amount,
            pool_addr: self.pool_addr@,
        }
    }
}

impl View for Pool {
    type V = PoolV;

    open spec fn view(&self) -> PoolV {
        PoolV {
            pool_id: self.pool_id,
            token_1: self.token_1@,
            token_2: self.token_2@,
            apr: self.apr,
            apy: self.apy,
            tvl: self.tvl,
            converted_tvl: self.converted_tvl,
            reward_coin: self.reward_coin@.map_values(|s: String| s@),
        }
    }
}

impl View for UserEntries {
    type V = UserEntriesV;

    open spec fn view(&self) -> UserEntriesV {
        UserEntriesV { user: self.user@, entries: self.entries@.map_values(|e: Entry| e@) }
    }
}

impl View for ContractState {
    type V = StateV;

    open spec fn view(&self) -> StateV {
        StateV {
            owner: self.config.owner@,
            entry_seq: self.entry_seq,
            list: self.list@.map_values(|u: UserEntries| u@),
            pools: self.pools@.map_values(|p: Pool| p@),
        }
    }
}

impl Clone for TokenInfo {
    /// Clones all descriptive fields.
    fn clone(&self) -> (r: TokenInfo)
        ensures
            r@ == self@,
    {
        TokenInfo {
            symbol: self.symbol.clone(),
            denom: self.denom.clone(),
            icon_url: self.icon_url.clone(),
        }
    }
}

impl Clone for Entry {
    /// Clones the entry, field by field.
    fn clone(&self) -> (r: Entry)
        ensures
            r@ == self@,
    {
        Entry {
            id: self.id,
            pool_id: self.pool_id,
            lp_token_amount: self.lp_token_amount,
            token_1_amount: self.token_1_amount,
            token_2_amount: self.token_2_amount,
            pool_addr: self.pool_addr.clone(),
        }
    }
}

impl Clone for Pool {
    /// Clones the pool record, field by field.
    fn clone(&self) -> (r: Pool)
        ensures
            r@ == self@,
    {
        let reward_coin = self.reward_coin.clone();
        proof {
            assert forall|i: int| 0 <= i < reward_coin@.len() implies reward_coin@[i]@
                == self.reward_coin@[i]@ by {
                assert(cloned::<String>(self.reward_coin@[i], reward_coin@[i]));
            }
            assert(reward_coin@.map_values(|s: String| s@) =~= self.reward_coin@.map_values(
                |s: String| s@,
            ));
        }
        let r = Pool {
            pool_id: self.pool_id,
            token_1: self.token_1.clone(),
            token_2: self.token_2.clone(),
            apr: self.apr,
            apy: self.apy,
            tvl: self.tvl,
            converted_tvl: self.converted_tvl,
            reward_coin,
        };
        proof {
            assert(r@ =~= self@);
        }
        r
    }
}

impl Clone for UserEntries {
    /// Clones the row: the user key and every entry.
    fn clone(&self) -> (r: UserEntries)
        ensures
            r@ == self@,
    {
        let entries = self.entries.clone();
        proof {
            assert forall|i: int| 0 <= i < entries@.len() implies entries@[i]@
                == self.entries@[i]@ by {
                assert(cloned::<Entry>(self.entries@[i], entries@[i]));
            }
            assert(entries@.map_values(|e: Entry| e@) =~= self.entries@.map_values(
                |e: Entry| e@,
            ));
        }
        let r = UserEntries { user: self.user.clone(), entries };
        proof {
            assert(r@ =~= self@);
        }
        r
    }
}

/// True when `es` holds an entry for `pool_id`.
pub open spec fn has_entry(es: Seq<EntryV>, pool_id: u64) -> bool {
    exists|i: int| 0 <= i < es.len() && es[i].pool_id == pool_id
}

/// The index of the entry for `pool_id`; unique under [`entries_wf`].
pub open spec fn entry_index(es: Seq<EntryV>, pool_id: u64) -> int {
    choose|i: int| 0 <= i < es.len() && es[i].pool_id == pool_id
}

/// The entry for `pool_id`; meaningful only when [`has_entry`] holds.
pub open spec fn entry_of(es: Seq<EntryV>, pool_id: u64) -> EntryV {
    es[entry_index(es, pool_id)]
}

/// `es` with the amount fields of the entry for `pool_id` replaced;
/// id, pool id and pool address stay as they were.
pub open spec fn entries_update(
    es: Seq<EntryV>,
    pool_id: u64,
    lp_token_amount: u128,
    token_1_amount: u128,
    token_2_amount: u128,
) -> Seq<EntryV> {
    Seq::new(
        es.len(),
        |i: int|
            if es[i].pool_id == pool_id {
                EntryV {
                    id: es[i].id,
                    pool_id: es[i].pool_id,
                    lp_token_amount,
                    token_1_amount,
                    token_2_amount,
                    pool_addr: es[i].pool_addr,
                }
            } else {
                es[i]
            },
    )
}

/// `es` with the first entry for `pool_id` removed and every other
/// entry kept, in order.
pub open spec fn entries_remove(es: Seq<EntryV>, pool_id: u64) -> Seq<EntryV>
    decreases es.len(),
{
    if es.len() == 0 {
        es
    } else if es[0].pool_id == pool_id {
        es.drop_first()
    } else {
        seq![es[0]] + entries_remove(es.drop_first(), pool_id)
    }
}

/// How many entries of `es` are for `pool_id`.
pub open spec fn count_pool(es: Seq<EntryV>, pool_id: u64) -> nat
    decreases es.len(),
{
    if es.len() == 0 {
        0
    } else {
        count_pool(es.drop_last(), pool_id) + if es.last().pool_id == pool_id {
            1nat
        } else {
            0nat
        }
    }
}

/// True when the ledger has a row for `user`.
pub open spec fn has_user(list: Seq<UserEntriesV>, user: Seq<char>) -> bool {
    exists|i: int| 0 <= i < list.len() && list[i].user == user
}

/// The index of `user`'s row; unique under [`list_wf`].
pub open spec fn user_index(list: Seq<UserEntriesV>, user: Seq<char>) -> int {
    choose|i: int| 0 <= i < list.len() && list[i].user == user
}

/// `user`'s entry collection; meaningful only when [`has_user`] holds.
pub open spec fn entries_of(list: Seq<UserEntriesV>, user: Seq<char>) -> Seq<EntryV> {
    list[user_index(list, user)].entries
}

/// True when the registry has a pool for `pool_id`.
pub open spec fn has_pool(pools: Seq<PoolV>, pool_id: u64) -> bool {
    exists|i: int| 0 <= i < pools.len() && pools[i].pool_id == pool_id
}

/// The index of the pool for `pool_id`; unique under [`pools_wf`].
pub open spec fn pool_index(pools: Seq<PoolV>, pool_id: u64) -> int {
    choose|i: int| 0 <= i < pools.len() && pools[i].pool_id == pool_id
}

/// The pool record for `pool_id`; meaningful only when [`has_pool`]
/// holds.
pub open spec fn pool_of(pools: Seq<PoolV>, pool_id: u64) -> PoolV {
    pools[pool_index(pools, pool_id)]
}

/// Within one collection, pool ids are unique.
pub open spec fn entries_wf(es: Seq<EntryV>) -> bool {
    forall|i: int, j: int| 0 <= i < j < es.len() ==> es[i].pool_id != es[j].pool_id
}

/// Ledger rows are strictly ascending by user key, and each row's
/// collection has unique pool ids.
pub open spec fn list_wf(list: Seq<UserEntriesV>) -> bool {
    &&& forall|i: int, j: int| 0 <= i < j < list.len() ==> key_lt(list[i].user, list[j].user)
    &&& forall|i: int| 0 <= i < list.len() ==> entries_wf(#[trigger] list[i].entries)
}

/// Pool records are strictly ascending by pool id.
pub open spec fn pools_wf(pools: Seq<PoolV>) -> bool {
    forall|i: int, j: int| 0 <= i < j < pools.len() ==> pools[i].pool_id < pools[j].pool_id
}

impl StateV {
    /// Every stored entry id was drawn from the sequence: it is
    /// positive and no larger than the current counter.
    pub open spec fn ids_bounded(self) -> bool {
        forall|i: int, j: int|
            0 <= i < self.list.len() && 0 <= j < self.list[i].entries.len() ==> 1 <= #[trigger] self.list[i].entries[j].id
                <= self.entry_seq
    }

    /// No two stored entries, of any users, share an id.
    pub open spec fn ids_unique(self) -> bool {
        forall|i1: int, j1: int, i2: int, j2: int|
            0 <= i1 < self.list.len() && 0 <= j1 < self.list[i1].entries.len() && 0 <= i2
                < self.list.len() && 0 <= j2 < self.list[i2].entries.len() && (i1 != i2 || j1 != j2)
                ==> #[trigger] self.list[i1].entries[j1].id != #[trigger] self.list[i2].entries[j2].id
    }

    /// Well-formedness of the whole state, established at
    /// initialization and preserved by every operation.
    pub open spec fn wf(self) -> bool {
        &&& list_wf(self.list)
        &&& pools_wf(self.pools)
        &&& self.ids_bounded()
        &&& self.ids_unique()
    }
}

} // verus!
