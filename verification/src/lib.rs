//! A loyalty-points ledger: a single token-like balance sheet in which a
//! designated administrator mints ("earns") points to accounts, any account
//! burns ("redeems") its own points, and any account transfers points to
//! another.  The ledger maintains the invariant that the total supply always
//! equals the sum of all stored balances and that no balance is ever negative.
//!
//! The host facilities the ledger relies on are modelled explicitly: the
//! authorization oracle as an [`account::Auth`] value holding the principals
//! the current call is authenticated as, the durable key-value store as the
//! fields of [`ledger::LoyaltyContract`] (one per named slot of
//! [`ledger::DataKey`]), and the event sink as an append-only log of
//! [`events::LedgerEvent`] values.

pub mod account;
pub mod events;
mod model;
pub mod ledger;

pub use account::AccountId;
pub use account::Auth;
pub use events::LedgerEvent;
pub use events::PointsEarned;
pub use events::PointsRedeemed;
pub use ledger::DataKey;
pub use ledger::Error;
pub use ledger::LoyaltyContract;
pub use ledger::LoyaltyTrait;
pub use ledger::TokenMetadata;
