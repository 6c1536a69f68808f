//! A crowdfunding ledger with verified state-machine logic.
//!
//! The ledger tracks funding campaigns, records per-contributor donations,
//! enforces a deadline-gated lifecycle, and authorizes a payout to the
//! campaign owner after the deadline. Caller identity, the current logical
//! time, and the value-transfer primitive are supplied by the hosting
//! environment and enter every operation as plain arguments; the operations
//! themselves are pure, deterministic state transitions.

pub mod campaign;
pub mod errors;
pub mod laws;
pub mod ledger;
pub mod registry;

pub use campaign::Project;
pub use errors::Error;
pub use ledger::Ledger;
pub use registry::{Crowdfunding, Transfer};
