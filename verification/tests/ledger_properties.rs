use loyalty_ledger::AccountId;
use loyalty_ledger::Auth;
use loyalty_ledger::Error;
use loyalty_ledger::LedgerEvent;
use loyalty_ledger::LoyaltyContract;
use loyalty_ledger::LoyaltyTrait;
use loyalty_ledger::PointsEarned;
use loyalty_ledger::PointsRedeemed;

fn oracle_for(principals: &[AccountId]) -> Auth {
    let mut auth = Auth::deny_all();
    for p in principals {
        auth.grant(*p);
    }
    auth
}

#[test]
fn full_scenario() {
    let a = AccountId(1);
    let u = AccountId(2);
    let v = AccountId(3);
    let mut client = LoyaltyContract::new();
    client.initialize(a).unwrap();
    let auth = oracle_for(&[a, u, v]);

    client.earn_points(&auth, u, 100).unwrap();
    assert_eq!(client.get_balance(u), 100);
    assert_eq!(client.get_total_supply(), 100);

    assert!(client.redeem_points(&auth, u, 50).unwrap());
    assert_eq!(client.get_balance(u), 50);
    assert_eq!(client.get_total_supply(), 50);

    assert!(!client.redeem_points(&auth, u, 100).unwrap());
    assert_eq!(client.get_balance(u), 50);

    assert!(client.transfer(&auth, u, v, 20).unwrap());
    assert_eq!(client.get_balance(u), 30);
    assert_eq!(client.get_balance(v), 20);
    assert_eq!(client.get_total_supply(), 50);
}

#[test]
fn earn_rejects_misuse_without_side_effects() {
    let admin = AccountId(1);
    let user = AccountId(2);
    let mut client = LoyaltyContract::new();
    let auth = oracle_for(&[admin, user]);

    // Before initialization there is no admin to authenticate as.
    assert_eq!(client.earn_points(&auth, user, 10), Err(Error::NotInitialized));
    assert_eq!(client.get_total_supply(), 0);

    client.initialize(admin).unwrap();
    assert_eq!(client.earn_points(&auth, user, 0), Err(Error::InvalidAmount));
    assert_eq!(client.earn_points(&auth, user, -7), Err(Error::InvalidAmount));
    assert_eq!(client.get_balance(user), 0);
    assert_eq!(client.get_total_supply(), 0);
}

#[test]
fn earn_overflow_is_fatal() {
    let admin = AccountId(1);
    let user = AccountId(2);
    let other = AccountId(3);
    let mut client = LoyaltyContract::new();
    client.initialize(admin).unwrap();
    let auth = oracle_for(&[admin]);

    client.earn_points(&auth, user, i128::MAX).unwrap();
    assert_eq!(client.get_balance(user), i128::MAX);
    assert_eq!(client.get_total_supply(), i128::MAX);

    // One more point would push the supply past the representable range:
    // the mint aborts instead of wrapping, whoever would receive it.
    assert_eq!(client.earn_points(&auth, user, 1), Err(Error::SupplyOverflow));
    assert_eq!(client.earn_points(&auth, other, 1), Err(Error::SupplyOverflow));
    assert_eq!(client.get_balance(user), i128::MAX);
    assert_eq!(client.get_balance(other), 0);
    assert_eq!(client.get_total_supply(), i128::MAX);
}

#[test]
fn redeem_rejects_misuse_without_side_effects() {
    let admin = AccountId(1);
    let user = AccountId(2);
    let mut client = LoyaltyContract::new();
    client.initialize(admin).unwrap();
    let auth = oracle_for(&[admin, user]);
    client.earn_points(&auth, user, 40).unwrap();

    assert_eq!(client.redeem_points(&auth, user, 0), Err(Error::InvalidAmount));
    assert_eq!(client.redeem_points(&auth, user, -3), Err(Error::InvalidAmount));

    // The caller must authenticate as the redeeming account itself.
    let admin_only = oracle_for(&[admin]);
    assert_eq!(client.redeem_points(&admin_only, user, 10), Err(Error::NotAuthorized));

    assert_eq!(client.get_balance(user), 40);
    assert_eq!(client.get_total_supply(), 40);
}

#[test]
fn transfer_moves_points_and_conserves_supply() {
    let admin = AccountId(1);
    let from = AccountId(2);
    let to = AccountId(3);
    let mut client = LoyaltyContract::new();
    client.initialize(admin).unwrap();
    let auth = oracle_for(&[admin, from, to]);
    client.earn_points(&auth, from, 30).unwrap();
    client.earn_points(&auth, to, 4).unwrap();

    assert!(client.transfer(&auth, from, to, 12).unwrap());
    assert_eq!(client.get_balance(from), 18);
    assert_eq!(client.get_balance(to), 16);
    assert_eq!(client.get_total_supply(), 34);

    // Insufficient funds: recoverable, nothing moves.
    assert!(!client.transfer(&auth, from, to, 19).unwrap());
    assert_eq!(client.get_balance(from), 18);
    assert_eq!(client.get_balance(to), 16);
    assert_eq!(client.get_total_supply(), 34);

    // Misuse: fatal, nothing moves.
    assert_eq!(client.transfer(&auth, from, to, 0), Err(Error::InvalidAmount));
    let to_only = oracle_for(&[to]);
    assert_eq!(client.transfer(&to_only, from, to, 5), Err(Error::NotAuthorized));
    assert_eq!(client.get_balance(from), 18);
    assert_eq!(client.get_balance(to), 16);
}

#[test]
fn transfer_to_self_is_a_no_op() {
    let admin = AccountId(1);
    let user = AccountId(2);
    let mut client = LoyaltyContract::new();
    client.initialize(admin).unwrap();
    let auth = oracle_for(&[admin, user]);
    client.earn_points(&auth, user, 25).unwrap();

    assert!(client.transfer(&auth, user, user, 10).unwrap());
    assert_eq!(client.get_balance(user), 25);
    assert_eq!(client.get_total_supply(), 25);

    assert!(!client.transfer(&auth, user, user, 26).unwrap());
    assert_eq!(client.get_balance(user), 25);
}

#[test]
fn events_record_earns_and_redeems_but_not_transfers() {
    let admin = AccountId(1);
    let u = AccountId(2);
    let v = AccountId(3);
    let mut client = LoyaltyContract::new();
    client.initialize(admin).unwrap();
    assert!(client.get_events().is_empty());
    let auth = oracle_for(&[admin, u, v]);

    client.earn_points(&auth, u, 100).unwrap();
    assert!(client.redeem_points(&auth, u, 30).unwrap());
    assert!(client.transfer(&auth, u, v, 10).unwrap());

    // Failed calls publish nothing.
    assert!(!client.redeem_points(&auth, u, 1000).unwrap());
    assert_eq!(client.earn_points(&auth, u, -1), Err(Error::InvalidAmount));

    assert_eq!(
        client.get_events(),
        &vec![
            LedgerEvent::Earned(PointsEarned { user: u, amount: 100 }),
            LedgerEvent::Redeemed(PointsRedeemed { user: u, amount: 30 }),
        ]
    );
}
