use vstd::prelude::*;

verus! {

use crate::account::AccountId;

/// Notification published after a successful mint: `user` earned `amount`
/// points.
#[derive(Clone, Copy, Debug, Eq, PartialEq, Structural)]
pub struct PointsEarned {
    pub user: AccountId,
    pub amount: i128,
}

/// Notification published after a successful burn: `user` redeemed `amount`
/// points.
#[derive(Clone, Copy, Debug, Eq, PartialEq, Structural)]
pub struct PointsRedeemed {
    pub user: AccountId,
    pub amount: i128,
}

/// An entry of the ledger's event log, as handed to the event sink.
/// Transfers publish no event.
#[derive(Clone, Copy, Debug, Eq, PartialEq, Structural)]
pub enum LedgerEvent {
    Earned(PointsEarned),
    Redeemed(PointsRedeemed),
}

} // verus!
