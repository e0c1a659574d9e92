//! Persistent-state and transition logic for a tipping ledger.
//!
//! Named profiles accumulate a withdrawable balance from third-party
//! contributions, and every contribution leaves an immutable receipt record
//! at a deterministically derived address. The crate models the record store
//! explicitly (address -> stored bytes) and verifies every transition:
//! profile creation and closing, tipping, and cashing out.

pub mod address;
pub mod codec;
pub mod constants;
pub mod errors;
pub mod laws;
pub mod math;
pub mod records;
pub mod store;
pub mod transitions;
