use swpr_token::address::Address;
use swpr_token::address::IdHash;
use swpr_token::amount::U256;
use swpr_token::balances::BalanceStore;
use swpr_token::error::Error;
use swpr_token::ledger::ERC20;

fn acct(n: u64) -> Address {
    Address::Account(IdHash { hi: 0, lo: n as u128 })
}

fn contract(n: u64) -> Address {
    Address::Contract(IdHash { hi: 0, lo: n as u128 })
}

fn ledger_with(supply: U256, deployer: Address) -> ERC20 {
    ERC20::new(String::from("Swapr"), String::from("SWPR"), 9, supply, deployer)
}

#[test]
fn initial_supply_credited_to_deployer() {
    let a = acct(1);
    let l = ledger_with(U256::from_u64(1000), a);
    assert_eq!(l.name(), String::from("Swapr"));
    assert_eq!(l.symbol(), String::from("SWPR"));
    assert_eq!(l.decimals(), 9);
    assert_eq!(l.total_supply(), U256::from_u64(1000));
    assert_eq!(l.balance_of(a), U256::from_u64(1000));
    assert_eq!(l.balance_of(acct(2)), U256::zero());
}

#[test]
fn balance_and_allowance_default_to_zero() {
    let l = ledger_with(U256::zero(), acct(1));
    assert_eq!(l.balance_of(acct(9)), U256::zero());
    assert_eq!(l.allowance(acct(1), contract(2)), U256::zero());
}

#[test]
fn transfer_moves_value() {
    let a = acct(1);
    let b = acct(2);
    let mut l = ledger_with(U256::from_u64(1000), a);
    assert_eq!(l.transfer(a, b, U256::from_u64(300)), Ok(()));
    assert_eq!(l.balance_of(a), U256::from_u64(700));
    assert_eq!(l.balance_of(b), U256::from_u64(300));
    assert_eq!(l.total_supply(), U256::from_u64(1000));
}

#[test]
fn transfer_insufficient_balance_changes_nothing() {
    let a = acct(1);
    let b = acct(2);
    let mut l = ledger_with(U256::from_u64(100), a);
    assert_eq!(l.transfer(a, b, U256::from_u64(101)), Err(Error::InsufficientBalance));
    assert_eq!(l.balance_of(a), U256::from_u64(100));
    assert_eq!(l.balance_of(b), U256::zero());
}

#[test]
fn self_transfer_is_a_no_op() {
    let a = acct(1);
    let mut l = ledger_with(U256::from_u64(500), a);
    assert_eq!(l.transfer(a, a, U256::from_u64(500)), Ok(()));
    assert_eq!(l.balance_of(a), U256::from_u64(500));
    assert_eq!(l.transfer(a, a, U256::from_u64(501)), Err(Error::InsufficientBalance));
    assert_eq!(l.balance_of(a), U256::from_u64(500));
}

#[test]
fn zero_amount_transfer_succeeds() {
    let a = acct(1);
    let b = acct(2);
    let mut l = ledger_with(U256::from_u64(10), a);
    assert_eq!(l.transfer(a, b, U256::zero()), Ok(()));
    assert_eq!(l.transfer(b, a, U256::zero()), Ok(()));
    assert_eq!(l.balance_of(a), U256::from_u64(10));
    assert_eq!(l.balance_of(b), U256::zero());
}

#[test]
fn transfer_from_spends_allowance() {
    let a = acct(1);
    let b = acct(2);
    let s = contract(3);
    let mut l = ledger_with(U256::from_u64(1000), a);
    assert_eq!(l.approve(a, s, U256::from_u64(100)), Ok(()));
    assert_eq!(l.transfer_from(s, a, b, U256::from_u64(60)), Ok(()));
    assert_eq!(l.allowance(a, s), U256::from_u64(40));
    assert_eq!(l.balance_of(a), U256::from_u64(940));
    assert_eq!(l.balance_of(b), U256::from_u64(60));
}

#[test]
fn transfer_from_insufficient_allowance_changes_nothing() {
    let a = acct(1);
    let b = acct(2);
    let s = contract(3);
    let mut l = ledger_with(U256::from_u64(1000), a);
    assert_eq!(l.approve(a, s, U256::from_u64(40)), Ok(()));
    assert_eq!(l.transfer_from(s, a, b, U256::from_u64(150)), Err(Error::InsufficientAllowance));
    assert_eq!(l.balance_of(a), U256::from_u64(1000));
    assert_eq!(l.balance_of(b), U256::zero());
    assert_eq!(l.allowance(a, s), U256::from_u64(40));
}

#[test]
fn transfer_from_insufficient_balance_keeps_allowance() {
    let a = acct(1);
    let b = acct(2);
    let s = contract(3);
    let mut l = ledger_with(U256::from_u64(50), a);
    assert_eq!(l.approve(a, s, U256::from_u64(100)), Ok(()));
    assert_eq!(l.transfer_from(s, a, b, U256::from_u64(60)), Err(Error::InsufficientBalance));
    assert_eq!(l.allowance(a, s), U256::from_u64(100));
    assert_eq!(l.balance_of(a), U256::from_u64(50));
}

#[test]
fn zero_amount_transfer_from_needs_no_allowance() {
    let a = acct(1);
    let b = acct(2);
    let s = contract(3);
    let mut l = ledger_with(U256::from_u64(10), a);
    assert_eq!(l.allowance(a, s), U256::zero());
    assert_eq!(l.transfer_from(s, a, b, U256::zero()), Ok(()));
    assert_eq!(l.allowance(a, s), U256::zero());
    assert_eq!(l.balance_of(a), U256::from_u64(10));
    assert_eq!(l.balance_of(b), U256::zero());
}

#[test]
fn approve_overwrites_instead_of_accumulating() {
    let o = acct(1);
    let s = contract(2);
    let mut l = ledger_with(U256::from_u64(10), o);
    assert_eq!(l.approve(o, s, U256::from_u64(70)), Ok(()));
    assert_eq!(l.approve(o, s, U256::from_u64(25)), Ok(()));
    assert_eq!(l.allowance(o, s), U256::from_u64(25));
}

#[test]
fn mint_increases_balance_and_supply() {
    let a = acct(1);
    let b = acct(2);
    let mut l = ledger_with(U256::from_u64(1000), a);
    assert_eq!(l.mint(b, U256::from_u64(500)), Ok(()));
    assert_eq!(l.balance_of(b), U256::from_u64(500));
    assert_eq!(l.total_supply(), U256::from_u64(1500));
}

#[test]
fn mint_beyond_maximum_overflows() {
    let a = acct(1);
    let max = U256 { hi: u128::MAX, lo: u128::MAX };
    let mut l = ledger_with(max, a);
    assert_eq!(l.mint(a, U256::from_u64(1)), Err(Error::Overflow));
    assert_eq!(l.balance_of(a), max);
    assert_eq!(l.total_supply(), max);
}

#[test]
fn burn_decreases_balance_and_supply() {
    let a = acct(1);
    let mut l = ledger_with(U256::from_u64(1000), a);
    assert_eq!(l.burn(a, U256::from_u64(400)), Ok(()));
    assert_eq!(l.balance_of(a), U256::from_u64(600));
    assert_eq!(l.total_supply(), U256::from_u64(600));
}

#[test]
fn burn_more_than_held_changes_nothing() {
    let a = acct(1);
    let b = acct(2);
    let mut l = ledger_with(U256::from_u64(1000), a);
    assert_eq!(l.burn(b, U256::from_u64(1)), Err(Error::InsufficientBalance));
    assert_eq!(l.balance_of(b), U256::zero());
    assert_eq!(l.total_supply(), U256::from_u64(1000));
}

#[test]
fn supply_stays_equal_to_sum_of_balances() {
    let a = acct(1);
    let b = acct(2);
    let c = contract(3);
    let s = contract(4);
    let mut l = ledger_with(U256::from_u64(1000), a);
    l.transfer(a, b, U256::from_u64(250)).unwrap();
    l.approve(a, s, U256::from_u64(100)).unwrap();
    l.transfer_from(s, a, c, U256::from_u64(100)).unwrap();
    l.mint(b, U256::from_u64(40)).unwrap();
    l.burn(a, U256::from_u64(30)).unwrap();
    let sum = l
        .balance_of(a)
        .checked_add(&l.balance_of(b))
        .unwrap()
        .checked_add(&l.balance_of(c))
        .unwrap();
    assert_eq!(l.total_supply(), sum);
    assert_eq!(l.total_supply(), U256::from_u64(1010));
}

#[test]
fn store_transfer_overflowing_recipient_changes_nothing() {
    let a = acct(1);
    let b = acct(2);
    let big = U256 { hi: u128::MAX, lo: u128::MAX };
    let mut store = BalanceStore::new();
    store.write(a, big);
    store.write(b, big);
    assert_eq!(store.transfer(a, b, U256::from_u64(1)), Err(Error::Overflow));
    assert_eq!(store.read(a), big);
    assert_eq!(store.read(b), big);
}

#[test]
fn store_write_overwrites() {
    let a = acct(1);
    let mut store = BalanceStore::new();
    assert_eq!(store.read(a), U256::zero());
    store.write(a, U256::from_u64(5));
    store.write(a, U256::from_u64(9));
    assert_eq!(store.read(a), U256::from_u64(9));
    assert_eq!(store.read(acct(2)), U256::zero());
}

#[test]
fn account_and_contract_identities_are_distinct_keys() {
    let a = Address::Account(IdHash { hi: 4, lo: 7 });
    let c = Address::Contract(IdHash { hi: 4, lo: 7 });
    let mut l = ledger_with(U256::from_u64(100), a);
    assert_eq!(l.balance_of(c), U256::zero());
    assert_eq!(l.transfer(a, c, U256::from_u64(25)), Ok(()));
    assert_eq!(l.balance_of(a), U256::from_u64(75));
    assert_eq!(l.balance_of(c), U256::from_u64(25));
}
