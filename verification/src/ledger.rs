use vstd::prelude::*;

verus! {

use crate::account::AccountId;
use crate::account::Auth;
use crate::events::LedgerEvent;
use crate::events::PointsEarned;
use crate::events::PointsRedeemed;
use crate::model::BalanceEntry;
use crate::model::all_nonneg;
use crate::model::has_account;
use crate::model::lemma_points_absent;
use crate::model::lemma_points_at_index;
use crate::model::lemma_points_bounds;
use crate::model::lemma_points_push;
use crate::model::lemma_points_update;
use crate::model::lemma_sum_nonneg;
use crate::model::lemma_sum_push;
use crate::model::lemma_sum_update;
use crate::model::points_of;
use crate::model::sum_points;
use crate::model::unique_accounts;
use vstd::string::StringExecFns;

/// The named slots of the ledger's durable key-value store.
#[derive(Clone, Copy, Debug, Eq, PartialEq, Structural)]
pub enum DataKey {
    Admin,
    UserBalance(AccountId),
    TotalSupply,
    TokenName,
    TokenSymbol,
    TokenDecimals,
}

/// Immutable descriptive constants fixed at initialization.
#[derive(Debug, Eq, PartialEq)]
pub struct TokenMetadata {
    pub name: String,
    pub symbol: String,
    pub decimals: u32,
}

/// The fatal outcomes: each aborts the whole operation with no state change.
/// Insufficient balance is not among them; it is an expected business outcome
/// reported as a boolean result.
#[derive(Clone, Copy, Debug, Eq, PartialEq, Structural)]
pub enum Error {
    /// `initialize` was called on an already initialized ledger.
    AlreadyInitialized,
    /// A mint was attempted before the ledger was initialized.
    NotInitialized,
    /// The caller could not authenticate as the required principal.
    NotAuthorized,
    /// The amount of a mutation was not strictly positive.
    InvalidAmount,
    /// Minting the amount would push the total supply past `i128::MAX`.
    SupplyOverflow,
}

/// The ledger's operation surface, with the contract of each operation.  A
/// caller needs nothing beyond these contracts and the well-formedness they
/// preserve.
pub trait LoyaltyTrait: Sized {
    /// The designated administrator, if the ledger is initialized.
    spec fn admin_account(self) -> Option<AccountId>;

    /// The balance of `account`, or 0 if it was never touched.
    spec fn balance_of(self, account: AccountId) -> int;

    /// The stored total supply, or 0 if the slot is absent.
    spec fn total_supply(self) -> int;

    /// The token metadata, if the ledger is initialized.
    spec fn token_metadata(self) -> Option<TokenMetadata>;

    /// The events published so far, oldest first.
    spec fn event_log(self) -> Seq<LedgerEvent>;

    /// Whether the ledger has been initialized.
    spec fn initialized(self) -> bool;

    /// Whether the oracle authorizes the call as the stored administrator.
    spec fn admin_granted(self, auth: Auth) -> bool;

    /// Well-formedness of the ledger state; every operation preserves it.
    spec fn wf(self) -> bool;

    /// Sets the admin and the token metadata and zeroes the total supply.
    /// Fails fatally, with no state change, if the ledger is already
    /// initialized.
    fn initialize(&mut self, admin: AccountId) -> (r: Result<(), Error>)
        requires
            old(self).wf(),
        ensures
            final(self).wf(),
            old(self).initialized() ==> (
                r == Err::<(), Error>(Error::AlreadyInitialized)
                && *final(self) == *old(self)
            ),
            !old(self).initialized() ==> ({
                &&& r == Ok::<(), Error>(())
                &&& final(self).initialized()
                &&& final(self).admin_account() == Some(admin)
                &&& final(self).total_supply() == 0
                &&& forall|a: AccountId| final(self).balance_of(a) == 0
                &&& final(self).event_log() == old(self).event_log()
                &&& final(self).token_metadata() matches Some(m) && m.name@ == "TRYPoint"@
                    && m.symbol@ == "TRYP"@ && m.decimals == 7
            }),
    ;

    /// Mints `amount` points to `user`: admin-gated, strictly positive
    /// amounts only, fatal on overflow of the total supply.  On success both
    /// the user's balance and the total supply grow by exactly `amount` and a
    /// `PointsEarned` event is published.
    fn earn_points(&mut self, auth: &Auth, user: AccountId, amount: i128) -> (r: Result<
        (),
        Error,
    >)
        requires
            old(self).wf(),
        ensures
            final(self).wf(),
            r is Err ==> *final(self) == *old(self),
            !old(self).initialized() ==> r == Err::<(), Error>(Error::NotInitialized),
            old(self).initialized() && !old(self).admin_granted(*auth) ==> r == Err::<(), Error>(
                Error::NotAuthorized,
            ),
            old(self).initialized() && old(self).admin_granted(*auth) && amount <= 0 ==> r
                == Err::<(), Error>(Error::InvalidAmount),
            old(self).initialized() && old(self).admin_granted(*auth) && amount > 0 && old(
                self,
            ).total_supply() + amount > i128::MAX ==> r == Err::<(), Error>(Error::SupplyOverflow),
            old(self).initialized() && old(self).admin_granted(*auth) && amount > 0 && old(
                self,
            ).total_supply() + amount <= i128::MAX ==> ({
                &&& r == Ok::<(), Error>(())
                &&& final(self).balance_of(user) == old(self).balance_of(user) + amount
                &&& forall|a: AccountId|
                    a != user ==> final(self).balance_of(a) == old(self).balance_of(a)
                &&& final(self).total_supply() == old(self).total_supply() + amount
                &&& final(self).event_log() == old(self).event_log().push(
                    LedgerEvent::Earned(PointsEarned { user, amount }),
                )
                &&& final(self).admin_account() == old(self).admin_account()
                &&& final(self).token_metadata() == old(self).token_metadata()
            }),
    ;

    /// Burns `amount` of `user`'s own points: self-gated, strictly positive
    /// amounts only.  Insufficient balance is an expected outcome: the call
    /// returns `Ok(false)` and changes nothing.  On success both the user's
    /// balance and the total supply shrink by exactly `amount` and a
    /// `PointsRedeemed` event is published.
    fn redeem_points(&mut self, auth: &Auth, user: AccountId, amount: i128) -> (r: Result<
        bool,
        Error,
    >)
        requires
            old(self).wf(),
        ensures
            final(self).wf(),
            !auth.granted(user) ==> (
                r == Err::<bool, Error>(Error::NotAuthorized)
                && *final(self) == *old(self)
            ),
            auth.granted(user) && amount <= 0 ==> (
                r == Err::<bool, Error>(Error::InvalidAmount)
                && *final(self) == *old(self)
            ),
            auth.granted(user) && amount > 0 && old(self).balance_of(user) < amount ==> (
                r == Ok::<bool, Error>(false)
                && *final(self) == *old(self)
            ),
            auth.granted(user) && amount > 0 && old(self).balance_of(user) >= amount ==> ({
                &&& r == Ok::<bool, Error>(true)
                &&& final(self).balance_of(user) == old(self).balance_of(user) - amount
                &&& forall|a: AccountId|
                    a != user ==> final(self).balance_of(a) == old(self).balance_of(a)
                &&& final(self).total_supply() == old(self).total_supply() - amount
                &&& final(self).event_log() == old(self).event_log().push(
                    LedgerEvent::Redeemed(PointsRedeemed { user, amount }),
                )
                &&& final(self).admin_account() == old(self).admin_account()
                &&& final(self).token_metadata() == old(self).token_metadata()
            }),
    ;

    /// Returns the stored balance of `user`, or 0 if absent.  No
    /// authorization required, no side effect.
    fn get_balance(&self, user: AccountId) -> (r: i128)
        requires
            self.wf(),
        ensures
            r as int == self.balance_of(user),
    ;

    /// Returns the stored total supply, or 0 if the ledger was never
    /// initialized.  No authorization required, no side effect.
    fn get_total_supply(&self) -> (r: i128)
        ensures
            r as int == self.total_supply(),
    ;

    /// Moves `amount` points from `from` to `to`: gated on `from`, strictly
    /// positive amounts only, total supply untouched, no event published.
    /// Insufficient balance returns `Ok(false)` and changes nothing; a
    /// self-transfer with sufficient balance succeeds and leaves every
    /// balance unchanged.
    fn transfer(&mut self, auth: &Auth, from: AccountId, to: AccountId, amount: i128) -> (r:
        Result<bool, Error>)
        requires
            old(self).wf(),
        ensures
            final(self).wf(),
            !auth.granted(from) ==> (
                r == Err::<bool, Error>(Error::NotAuthorized)
                && *final(self) == *old(self)
            ),
            auth.granted(from) && amount <= 0 ==> (
                r == Err::<bool, Error>(Error::InvalidAmount)
                && *final(self) == *old(self)
            ),
            auth.granted(from) && amount > 0 && old(self).balance_of(from) < amount ==> (
                r == Ok::<bool, Error>(false)
                && *final(self) == *old(self)
            ),
            auth.granted(from) && amount > 0 && old(self).balance_of(from) >= amount ==> ({
                &&& r == Ok::<bool, Error>(true)
                &&& from == to ==> forall|a: AccountId|
                    final(self).balance_of(a) == old(self).balance_of(a)
                &&& from != to ==> ({
                    &&& final(self).balance_of(from) == old(self).balance_of(from) - amount
                    &&& final(self).balance_of(to) == old(self).balance_of(to) + amount
                    &&& forall|a: AccountId|
                        a != from && a != to ==> final(self).balance_of(a) == old(
                            self,
                        ).balance_of(a)
                })
                &&& final(self).total_supply() == old(self).total_supply()
                &&& final(self).event_log() == old(self).event_log()
                &&& final(self).admin_account() == old(self).admin_account()
                &&& final(self).token_metadata() == old(self).token_metadata()
            }),
    ;
}

/// The loyalty-points ledger: balances, total supply, admin identity, token
/// metadata and the event log, one field per persisted slot family.
pub struct LoyaltyContract {
    admin: Option<AccountId>,
    entries: Vec<BalanceEntry>,
    supply: Option<i128>,
    metadata: Option<TokenMetadata>,
    events: Vec<LedgerEvent>,
}

impl LoyaltyContract {
    /// The sum of the balances of all accounts ever touched.
    pub closed spec fn sum_of_balances(self) -> int {
        sum_points(self.entries@)
    }

    /// Whether the store holds the named slot.
    pub closed spec fn slot_present(self, key: DataKey) -> bool {
        match key {
            DataKey::Admin => self.admin is Some,
            DataKey::UserBalance(a) => has_account(self.entries@, a),
            DataKey::TotalSupply => self.supply is Some,
            DataKey::TokenName => self.metadata is Some,
            DataKey::TokenSymbol => self.metadata is Some,
            DataKey::TokenDecimals => self.metadata is Some,
        }
    }

    /// A fresh, uninitialized ledger: no slot present, nothing published.
    pub fn new() -> (ledger: LoyaltyContract)
        ensures
            ledger.wf(),
            !ledger.initialized(),
            forall|a: AccountId| ledger.balance_of(a) == 0,
            ledger.total_supply() == 0,
            ledger.event_log() == Seq::<LedgerEvent>::empty(),
            forall|k: DataKey| !ledger.slot_present(k),
    {
        let ledger = LoyaltyContract {
            admin: None,
            entries: Vec::new(),
            supply: None,
            metadata: None,
            events: Vec::new(),
        };
        proof {
            assert(ledger.events@ =~= Seq::<LedgerEvent>::empty());
        }
        ledger
    }

    /// Finds the index of the balance slot of `account`, if one exists.
    fn find_account(entries: &Vec<BalanceEntry>, account: AccountId) -> (r: Option<usize>)
        ensures
            match r {
                Some(i) => i < entries@.len() && entries@[i as int].account == account,
                None => !has_account(entries@, account),
            },
    {
        let mut i: usize = 0;
        while i < entries.len()
            invariant
                i <= entries.len(),
                forall|j: int| 0 <= j < i ==> entries@[j].account != account,
            decreases entries.len() - i,
        {
            if entries[i].account == account {
                return Some(i);
            }
            i = i + 1;
        }
        proof {
            if has_account(entries@, account) {
                let j = choose|j: int|
                    0 <= j < entries@.len() && entries@[j].account == account;
                assert(false);
            }
        }
        None
    }

    /// Tests presence of a named slot in the store.
    pub fn has(&self, key: &DataKey) -> (r: bool)
        ensures
            r == self.slot_present(*key),
    {
        match key {
            DataKey::Admin => self.admin.is_some(),
            DataKey::UserBalance(a) => Self::find_account(&self.entries, *a).is_some(),
            DataKey::TotalSupply => self.supply.is_some(),
            DataKey::TokenName => self.metadata.is_some(),
            DataKey::TokenSymbol => self.metadata.is_some(),
            DataKey::TokenDecimals => self.metadata.is_some(),
        }
    }

    /// Returns the token metadata slots, present exactly when the ledger is
    /// initialized.
    pub fn get_metadata(&self) -> (r: &Option<TokenMetadata>)
        ensures
            *r == self.token_metadata(),
    {
        &self.metadata
    }

    /// Returns the events published so far, oldest first.
    pub fn get_events(&self) -> (r: &Vec<LedgerEvent>)
        ensures
            r@ == self.event_log(),
    {
        &self.events
    }
}

impl LoyaltyTrait for LoyaltyContract {
    closed spec fn admin_account(self) -> Option<AccountId> {
        self.admin
    }

    closed spec fn balance_of(self, account: AccountId) -> int {
        points_of(self.entries@, account)
    }

    closed spec fn total_supply(self) -> int {
        match self.supply {
            Some(v) => v as int,
            None => 0,
        }
    }

    closed spec fn token_metadata(self) -> Option<TokenMetadata> {
        self.metadata
    }

    closed spec fn event_log(self) -> Seq<LedgerEvent> {
        self.events@
    }

    open spec fn initialized(self) -> bool {
        self.admin_account() is Some
    }

    open spec fn admin_granted(self, auth: Auth) -> bool {
        self.admin_account() matches Some(ad) && auth.granted(ad)
    }

    /// Accounts are stored at most once, no balance is negative, the total
    /// supply equals the sum of all balances, and the admin, supply and
    /// metadata slots appear together at initialization.
    closed spec fn wf(self) -> bool {
        &&& unique_accounts(self.entries@)
        &&& all_nonneg(self.entries@)
        &&& self.total_supply() == sum_points(self.entries@)
        &&& (self.admin is None ==> self.entries@.len() == 0 && self.supply is None
            && self.metadata is None)
        &&& (self.admin is Some ==> self.supply is Some && self.metadata is Some)
    }

    fn initialize(&mut self, admin: AccountId) -> (r: Result<(), Error>) {
        if self.has(&DataKey::Admin) {
            return Err(Error::AlreadyInitialized);
        }
        self.admin = Some(admin);
        self.metadata = Some(TokenMetadata {
            name: <String as StringExecFns>::from_str("TRYPoint"),
            symbol: <String as StringExecFns>::from_str("TRYP"),
            decimals: 7,
        });
        self.supply = Some(0);
        proof {
            assert forall|a: AccountId| final(self).balance_of(a) == 0 by {
                lemma_points_absent(self.entries@, a);
            }
        }
        Ok(())
    }

    fn earn_points(&mut self, auth: &Auth, user: AccountId, amount: i128) -> (r: Result<
        (),
        Error,
    >) {
        let admin = match self.admin {
            Some(a) => a,
            None => {
                return Err(Error::NotInitialized);
            },
        };
        if !auth.allows(admin) {
            return Err(Error::NotAuthorized);
        }
        if amount <= 0 {
            return Err(Error::InvalidAmount);
        }
        let supply = match self.supply {
            Some(s) => s,
            None => unreached(),
        };
        if supply > i128::MAX - amount {
            return Err(Error::SupplyOverflow);
        }
        match Self::find_account(&self.entries, user) {
            Some(i) => {
                let current = self.entries[i].amount;
                proof {
                    lemma_points_at_index(self.entries@, i as int);
                    lemma_points_bounds(self.entries@, user);
                }
                let entry = BalanceEntry { account: user, amount: current + amount };
                self.entries.set(i, entry);
                proof {
                    lemma_sum_update(old(self).entries@, i as int, entry);
                    assert forall|a: AccountId|
                        points_of(self.entries@, a) == if a == user {
                            old(self).balance_of(a) + amount
                        } else {
                            old(self).balance_of(a)
                        } by {
                        lemma_points_update(old(self).entries@, i as int, entry, a);
                    }
                }
            },
            None => {
                proof {
                    lemma_points_absent(self.entries@, user);
                }
                let entry = BalanceEntry { account: user, amount };
                self.entries.push(entry);
                proof {
                    lemma_sum_push(old(self).entries@, entry);
                    assert forall|a: AccountId|
                        points_of(self.entries@, a) == if a == user {
                            old(self).balance_of(a) + amount
                        } else {
                            old(self).balance_of(a)
                        } by {
                        lemma_points_push(old(self).entries@, entry, a);
                    }
                }
            },
        }
        self.supply = Some(supply + amount);
        self.events.push(LedgerEvent::Earned(PointsEarned { user, amount }));
        Ok(())
    }

    fn redeem_points(&mut self, auth: &Auth, user: AccountId, amount: i128) -> (r: Result<
        bool,
        Error,
    >) {
        if !auth.allows(user) {
            return Err(Error::NotAuthorized);
        }
        if amount <= 0 {
            return Err(Error::InvalidAmount);
        }
        let i = match Self::find_account(&self.entries, user) {
            Some(i) => i,
            None => {
                proof {
                    lemma_points_absent(self.entries@, user);
                }
                return Ok(false);
            },
        };
        let current = self.entries[i].amount;
        proof {
            lemma_points_at_index(self.entries@, i as int);
        }
        if current < amount {
            return Ok(false);
        }
        proof {
            lemma_points_bounds(self.entries@, user);
        }
        let supply = match self.supply {
            Some(s) => s,
            None => unreached(),
        };
        let entry = BalanceEntry { account: user, amount: current - amount };
        self.entries.set(i, entry);
        proof {
            lemma_sum_update(old(self).entries@, i as int, entry);
            assert forall|a: AccountId|
                points_of(self.entries@, a) == if a == user {
                    old(self).balance_of(a) - amount
                } else {
                    old(self).balance_of(a)
                } by {
                lemma_points_update(old(self).entries@, i as int, entry, a);
            }
        }
        self.supply = Some(supply - amount);
        self.events.push(LedgerEvent::Redeemed(PointsRedeemed { user, amount }));
        Ok(true)
    }

    fn get_balance(&self, user: AccountId) -> (r: i128) {
        match Self::find_account(&self.entries, user) {
            Some(i) => {
                proof {
                    lemma_points_at_index(self.entries@, i as int);
                }
                self.entries[i].amount
            },
            None => {
                proof {
                    lemma_points_absent(self.entries@, user);
                }
                0
            },
        }
    }

    fn get_total_supply(&self) -> (r: i128) {
        match &self.supply {
            Some(s) => *s,
            None => 0,
        }
    }

    fn transfer(&mut self, auth: &Auth, from: AccountId, to: AccountId, amount: i128) -> (r:
        Result<bool, Error>) {
        if !auth.allows(from) {
            return Err(Error::NotAuthorized);
        }
        if amount <= 0 {
            return Err(Error::InvalidAmount);
        }
        let i_from = match Self::find_account(&self.entries, from) {
            Some(i) => i,
            None => {
                proof {
                    lemma_points_absent(self.entries@, from);
                }
                return Ok(false);
            },
        };
        let from_balance = self.entries[i_from].amount;
        proof {
            lemma_points_at_index(self.entries@, i_from as int);
        }
        if from_balance < amount {
            return Ok(false);
        }
        if from == to {
            return Ok(true);
        }
        proof {
            lemma_points_bounds(self.entries@, from);
        }
        let debited = BalanceEntry { account: from, amount: from_balance - amount };
        self.entries.set(i_from, debited);
        let ghost mid = self.entries@;
        proof {
            lemma_sum_update(old(self).entries@, i_from as int, debited);
            assert forall|a: AccountId|
                points_of(mid, a) == if a == from {
                    old(self).balance_of(a) - amount
                } else {
                    old(self).balance_of(a)
                } by {
                lemma_points_update(old(self).entries@, i_from as int, debited, a);
            }
            lemma_points_bounds(mid, to);
        }
        match Self::find_account(&self.entries, to) {
            Some(i_to) => {
                let to_balance = self.entries[i_to].amount;
                proof {
                    lemma_points_at_index(mid, i_to as int);
                }
                let credited = BalanceEntry { account: to, amount: to_balance + amount };
                self.entries.set(i_to, credited);
                proof {
                    lemma_sum_update(mid, i_to as int, credited);
                    assert forall|a: AccountId|
                        points_of(self.entries@, a) == if a == to {
                            points_of(mid, a) + amount
                        } else {
                            points_of(mid, a)
                        } by {
                        lemma_points_update(mid, i_to as int, credited, a);
                    }
                }
            },
            None => {
                proof {
                    lemma_points_absent(mid, to);
                }
                let credited = BalanceEntry { account: to, amount };
                self.entries.push(credited);
                proof {
                    lemma_sum_push(mid, credited);
                    assert forall|a: AccountId|
                        points_of(self.entries@, a) == if a == to {
                            points_of(mid, a) + amount
                        } else {
                            points_of(mid, a)
                        } by {
                        lemma_points_push(mid, credited, a);
                    }
                }
            },
        }
        Ok(true)
    }
}

/// The ledger invariant, which holds of every reachable state (`new`
/// establishes `wf` and every operation preserves it): the total supply
/// equals the sum of the balances of all accounts ever touched, no balance is
/// negative, every balance is at most the total supply, and an account never
/// touched has balance zero.
pub proof fn lemma_ledger_invariant(ledger: LoyaltyContract)
    requires
        ledger.wf(),
    ensures
        ledger.total_supply() == ledger.sum_of_balances(),
        ledger.total_supply() >= 0,
        forall|a: AccountId| #[trigger] ledger.balance_of(a) >= 0,
        forall|a: AccountId| #[trigger] ledger.balance_of(a) <= ledger.total_supply(),
        forall|a: AccountId|
            !ledger.slot_present(DataKey::UserBalance(a)) ==> ledger.balance_of(a) == 0,
{
    lemma_sum_nonneg(ledger.entries@);
    assert forall|a: AccountId|
        #[trigger] ledger.balance_of(a) >= 0 && ledger.balance_of(a) <= ledger.total_supply() by {
        lemma_points_bounds(ledger.entries@, a);
    }
    assert forall|a: AccountId|
        !ledger.slot_present(DataKey::UserBalance(a)) implies ledger.balance_of(a) == 0 by {
        lemma_points_absent(ledger.entries@, a);
    }
}

} // verus!
