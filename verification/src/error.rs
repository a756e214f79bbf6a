//! Typed failures of the ledger and registry operations.
//!
//! Every failure is terminal for the call that raised it: the state
//! is left exactly as it was.  Identifiers inside an error are
//! carried as decimal strings, as they appear in acknowledgement
//! attributes.

use vstd::prelude::*;

verus! {

/// The error taxonomy of the contract operations.
#[derive(PartialEq, Debug)]
pub enum ContractError {
    /// The caller is not the configured owner.
    Unauthorized {},
    /// The user already holds an entry for this pool.
    UserEntryDuplicate { pool_id: String },
    /// The user holds no entry for this pool.
    EntryNotExists { pool_id: String },
    /// The registry holds no pool for this id.
    PoolNotExists { pool_id: String },
    /// The ledger holds no row for this user.
    UserNotExists { user: String },
    /// The ledger row for this user is empty.
    UserNoEntries { user: String },
    /// Room for host-specific failures; never raised by the library.
    CustomError { val: String },
}

} // verus!
