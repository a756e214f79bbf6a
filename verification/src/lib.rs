//! Verified core of a pool/position bookkeeping service.
//!
//! The library keeps, per user address, an ordered collection of
//! liquidity-pool position entries, and a global registry of pool
//! metadata keyed by numeric pool id.  Every mutating operation is
//! gated on a configured owner address, and every successful mutation
//! returns a structured acknowledgement of string attributes.
//!
//! All state lives in an explicit [`state::ContractState`] value that
//! the caller passes into every operation; the host that persists that
//! state and routes calls to it stays outside the library.

pub mod contract;
pub mod digits;
pub mod error;
pub mod keys;
pub mod laws;
pub mod lemmas;
pub mod msg;
pub mod response;
pub mod state;
pub mod token;
pub mod validatorpreference;
