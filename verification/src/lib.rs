//! Settlement and game-rule engine for a round-based pooled wagering game
//! played over five fixed pots.

pub mod conservation;
pub mod contract;
pub mod error;
pub mod execute;
pub mod helpers;
pub mod well_formed;
pub mod laws;
pub mod math;
pub mod msg;
pub mod query;
pub mod reply;
pub mod state;

pub use error::ContractError;
