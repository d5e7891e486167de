use synthetics::get_price;
use synthetics::Error;
use synthetics::Synthetics;

#[test]
fn constructur_works() {
    let account: u128 = 1;
    let (market, minted) = Synthetics::new(100, 100, Some(get_price()), 5, account).unwrap();

    assert_eq!(market.short_total_balance(), 100);
    assert_eq!(market.long_total_balance(), 0);

    assert_eq!(market.short_balance_of(account), 100);
    assert_eq!(market.long_balance_of(account), 0);

    assert_eq!(minted.creator, account);
    assert_eq!(minted.value, 100);
}

#[test]
#[should_panic]
fn constructur_fails_no_balance() {
    Synthetics::new(100, 1, Some(get_price()), 5, 1).unwrap();
}

#[test]
fn create_at_exact_margin_succeeds() {
    let account: u128 = 1;
    let (market, _) = Synthetics::new(100, 20, Some(1), 5, account).unwrap();
    assert_eq!(market.short_total_balance(), 100);
    assert_eq!(market.long_total_balance(), 0);
    assert_eq!(market.short_balance_of(account), 100);
}

#[test]
fn create_below_margin_fails() {
    let r = Synthetics::new(100, 19, Some(1), 5, 1);
    assert!(matches!(r, Err(Error::InsufficientCollateral)));
}

#[test]
fn create_with_zero_supply_succeeds() {
    let account: u128 = 1;
    let (market, minted) = Synthetics::new(0, 0, Some(1), 5, account).unwrap();
    assert_eq!(market.short_total_balance(), 0);
    assert_eq!(market.long_total_balance(), 0);
    assert_eq!(market.short_balance_of(account), 0);
    assert_eq!(minted.value, 0);
}

#[test]
fn unknown_account_reads_zero() {
    let creator: u128 = 1;
    let stranger: u128 = 2;
    let (market, _) = Synthetics::new(100, 20, Some(1), 5, creator).unwrap();
    assert_eq!(market.short_balance_of(stranger), 0);
    assert_eq!(market.long_balance_of(stranger), 0);
}

#[test]
fn create_without_price_fails() {
    let r = Synthetics::new(100, 100, None, 5, 1);
    assert!(matches!(r, Err(Error::PriceUnavailable)));
}

#[test]
fn create_with_overflowing_margin_fails() {
    let r = Synthetics::new(u128::MAX, u128::MAX, Some(2), 5, 1);
    assert!(matches!(r, Err(Error::Overflow)));
}

#[test]
fn margin_truncates_toward_zero() {
    // supply 7 at price 3 with divisor 5: margin is 21 / 5 = 4.
    assert!(Synthetics::new(7, 4, Some(3), 5, 1).is_ok());
    let r = Synthetics::new(7, 3, Some(3), 5, 1);
    assert!(matches!(r, Err(Error::InsufficientCollateral)));
}

#[test]
fn margin_scales_with_price() {
    // supply 100 at price 3 with divisor 5: margin is 60.
    assert!(Synthetics::new(100, 60, Some(3), 5, 1).is_ok());
    let r = Synthetics::new(100, 59, Some(3), 5, 1);
    assert!(matches!(r, Err(Error::InsufficientCollateral)));
}

#[test]
fn default_price_is_one() {
    assert_eq!(get_price(), 1);
}

#[test]
fn market_reads_are_idempotent() {
    let (market, _) = Synthetics::new(100, 20, Some(1), 5, 1).unwrap();
    assert_eq!(market.short_total_balance(), market.short_total_balance());
    assert_eq!(market.long_total_balance(), market.long_total_balance());
    assert_eq!(market.short_balance_of(1), market.short_balance_of(1));
    assert_eq!(market.long_balance_of(2), market.long_balance_of(2));
}
