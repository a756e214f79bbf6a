//! The request and response values of the contract interface.
//!
//! An external call arrives as one variant of a tagged union; read
//! operations answer with a typed payload.  The host is responsible
//! for carrying these values over its own wire format.

use vstd::prelude::*;

use crate::state::AnnualInfo;
use crate::state::Entry;
use crate::state::Pool;
use crate::state::TokenInfo;

verus! {

/// The initialization message: an optional owner address; when absent
/// the instantiating sender becomes the owner.
#[derive(PartialEq, Debug)]
pub struct InstantiateMsg {
    pub owner: Option<String>,
}

/// The mutating operations.
#[derive(PartialEq, Debug)]
pub enum ExecuteMsg {
    NewEntry {
        user: String,
        pool_id: u64,
        lp_token_amount: u128,
        token_1_amount: u128,
        token_2_amount: u128,
        pool_addr: String,
    },
    UpdateEntry {
        user: String,
        pool_id: u64,
        lp_token_amount: u128,
        token_1_amount: u128,
        token_2_amount: u128,
    },
    DeleteEntry { user: String, pool_id: u64 },
    NewPool {
        pool_id: u64,
        token_1: TokenInfo,
        token_2: TokenInfo,
        apr: AnnualInfo,
        apy: AnnualInfo,
        tvl: u128,
        converted_tvl: u128,
        reward_coin: Vec<String>,
    },
    UpdatePool { pool_id: u64, apr: AnnualInfo, apy: AnnualInfo, tvl: u128, converted_tvl: u128 },
    RemovePool { pool_id: u64 },
}

/// The read operations.
#[derive(PartialEq, Debug)]
pub enum QueryMsg {
    QueryAllPools {},
    QueryUserEntries { user: String },
    QueryAllEntries {},
}

/// One user's entry collection, as a query answers it.
#[derive(PartialEq, Debug)]
pub struct ListResponseEntry {
    pub entries: Vec<Entry>,
}

/// The full pool table, as a query answers it.
#[derive(PartialEq, Debug)]
pub struct ListResponsePool {
    pub pools: Vec<Pool>,
}

/// A single pool record, as a query answers it.
#[derive(PartialEq, Debug)]
pub struct SpecificPoolResponse {
    pub pool: Pool,
}

/// The full ledger: every user with a stored collection, in ascending
/// key order.
#[derive(PartialEq, Debug)]
pub struct AllEntriesResponse {
    pub entries: Vec<(String, Vec<Entry>)>,
}

/// The typed payload a query returns; the host serializes it.
#[derive(PartialEq, Debug)]
pub enum QueryAnswer {
    AllPools(ListResponsePool),
    UserEntries(ListResponseEntry),
    AllEntries(AllEntriesResponse),
}

} // verus!
