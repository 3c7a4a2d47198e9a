use loyalty_ledger::AccountId;
use loyalty_ledger::Auth;
use loyalty_ledger::DataKey;
use loyalty_ledger::Error;
use loyalty_ledger::LoyaltyContract;
use loyalty_ledger::LoyaltyTrait;

#[test]
fn test_initialize() {
    let mut client = LoyaltyContract::new();
    let admin = AccountId(1);
    assert_eq!(client.initialize(admin), Ok(()));
    // Double initialization fails fatally and alters nothing set by the
    // first call.
    assert_eq!(client.initialize(admin), Err(Error::AlreadyInitialized));
    assert!(client.has(&DataKey::Admin));
    assert!(client.has(&DataKey::TotalSupply));
    assert_eq!(client.get_total_supply(), 0);
}

#[test]
fn test_earn_and_redeem_points() {
    let mut client = LoyaltyContract::new();
    let admin = AccountId(1);
    let user = AccountId(2);

    client.initialize(admin).unwrap();

    // The oracle vouches for admin and user alike.
    let mut auth = Auth::deny_all();
    auth.grant(admin);
    auth.grant(user);

    client.earn_points(&auth, user, 100).unwrap();
    assert_eq!(client.get_balance(user), 100);
    assert_eq!(client.get_total_supply(), 100);

    // Earning demands the admin's authorization: an oracle that only vouches
    // for the user is not enough.
    let mut user_only = Auth::deny_all();
    user_only.grant(user);
    assert_eq!(client.earn_points(&user_only, user, 100), Err(Error::NotAuthorized));
    assert_eq!(client.get_balance(user), 100);

    let success = client.redeem_points(&auth, user, 50).unwrap();
    assert!(success);
    assert_eq!(client.get_balance(user), 50);
    assert_eq!(client.get_total_supply(), 50);

    // Redeeming more than the balance is a recoverable outcome.
    let failed = client.redeem_points(&auth, user, 100).unwrap();
    assert!(!failed);
    assert_eq!(client.get_balance(user), 50);
}

#[test]
fn token_metadata_is_fixed_at_initialization() {
    let mut client = LoyaltyContract::new();
    assert!(client.get_metadata().is_none());
    assert!(!client.has(&DataKey::TokenName));
    assert!(!client.has(&DataKey::TokenSymbol));
    assert!(!client.has(&DataKey::TokenDecimals));

    client.initialize(AccountId(9)).unwrap();
    let metadata = client.get_metadata().as_ref().unwrap();
    assert_eq!(metadata.name, "TRYPoint");
    assert_eq!(metadata.symbol, "TRYP");
    assert_eq!(metadata.decimals, 7);
    assert!(client.has(&DataKey::TokenName));
    assert!(client.has(&DataKey::TokenSymbol));
    assert!(client.has(&DataKey::TokenDecimals));
}

#[test]
fn oracle_grants_are_cumulative() {
    let mut auth = Auth::deny_all();
    assert!(!auth.allows(AccountId(1)));
    auth.grant(AccountId(1));
    assert!(auth.allows(AccountId(1)));
    assert!(!auth.allows(AccountId(2)));
    auth.grant(AccountId(2));
    assert!(auth.allows(AccountId(1)));
    assert!(auth.allows(AccountId(2)));
}

#[test]
fn untouched_accounts_read_as_zero() {
    let mut client = LoyaltyContract::new();
    let stranger = AccountId(77);
    assert_eq!(client.get_balance(stranger), 0);
    assert!(!client.has(&DataKey::UserBalance(stranger)));
    assert_eq!(client.get_total_supply(), 0);

    let admin = AccountId(1);
    client.initialize(admin).unwrap();
    let mut auth = Auth::deny_all();
    auth.grant(admin);
    client.earn_points(&auth, stranger, 5).unwrap();
    assert!(client.has(&DataKey::UserBalance(stranger)));
    assert!(!client.has(&DataKey::UserBalance(AccountId(78))));
    assert_eq!(client.get_balance(AccountId(78)), 0);
}
