use synthetics::Error;
use synthetics::Token;

#[test]
fn new_ledger_assigns_owner() {
    let t = Token::new(50, 7);
    assert_eq!(t.total_supply(), 50);
    assert_eq!(t.balance_of(7), 50);
    assert_eq!(t.balance_of(8), 0);
}

#[test]
fn zero_supply_ledger_has_no_balances() {
    let t = Token::new(0, 7);
    assert_eq!(t.total_supply(), 0);
    assert_eq!(t.balance_of(7), 0);
}

#[test]
fn mint_to_new_account() {
    let mut t = Token::new(10, 1);
    assert_eq!(t.mint(2, 5), Ok(()));
    assert_eq!(t.total_supply(), 15);
    assert_eq!(t.balance_of(1), 10);
    assert_eq!(t.balance_of(2), 5);
    assert_eq!(t.balance_of(3), 0);
}

#[test]
fn mint_to_existing_account() {
    let mut t = Token::new(10, 1);
    assert_eq!(t.mint(1, 5), Ok(()));
    assert_eq!(t.total_supply(), 15);
    assert_eq!(t.balance_of(1), 15);
}

#[test]
fn mint_zero_changes_nothing() {
    let mut t = Token::new(10, 1);
    assert_eq!(t.mint(2, 0), Ok(()));
    assert_eq!(t.total_supply(), 10);
    assert_eq!(t.balance_of(1), 10);
    assert_eq!(t.balance_of(2), 0);
}

#[test]
fn mint_overflow_leaves_ledger_untouched() {
    let mut t = Token::new(u128::MAX, 1);
    assert_eq!(t.mint(2, 1), Err(Error::Overflow));
    assert_eq!(t.total_supply(), u128::MAX);
    assert_eq!(t.balance_of(1), u128::MAX);
    assert_eq!(t.balance_of(2), 0);
}

#[test]
fn total_supply_matches_sum_of_balances() {
    let mut t = Token::new(3, 1);
    assert_eq!(t.mint(2, 4), Ok(()));
    assert_eq!(t.mint(3, 5), Ok(()));
    assert_eq!(t.mint(1, 2), Ok(()));
    let sum = t.balance_of(1) + t.balance_of(2) + t.balance_of(3);
    assert_eq!(t.total_supply(), sum);
    assert_eq!(t.total_supply(), 14);
}

#[test]
fn reads_are_idempotent_between_mutations() {
    let mut t = Token::new(9, 4);
    assert_eq!(t.mint(5, 1), Ok(()));
    assert_eq!(t.total_supply(), t.total_supply());
    assert_eq!(t.balance_of(4), t.balance_of(4));
    assert_eq!(t.balance_of(5), t.balance_of(5));
    assert_eq!(t.balance_of(6), t.balance_of(6));
}
