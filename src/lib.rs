//! A rotating savings and credit association (ROSCA) as a verified round
//! state machine.
//!
//! The engine owns a single scheme record. Storage, the clock, caller
//! authentication and token transfers belong to the host: the host hands the
//! engine the authenticated caller and the current time, and performs the
//! transfers that a successful operation returns.

pub mod contract;
pub mod laws;
pub mod scheme;
pub mod types;

pub use contract::AhjoorContract;
pub use contract::ContributionEffects;
pub use contract::RoundClosed;
pub use scheme::Scheme;
pub use scheme::SchemeView;
pub use types::Account;
pub use types::AssetId;
pub use types::DataKey;
pub use types::Principal;
pub use types::RoscaError;
pub use types::Transfer;
