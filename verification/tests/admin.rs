use swpr_token::address::Address;
use swpr_token::address::IdHash;
use swpr_token::amount::U256;
use swpr_token::entry;
use swpr_token::error::Error;
use swpr_token::ledger::ERC20;

fn acct(n: u64) -> Address {
    Address::Account(IdHash { hi: 0, lo: n as u128 })
}

fn ledger_with(supply: U256, deployer: Address) -> ERC20 {
    ERC20::new(String::from("Swapr"), String::from("SWPR"), 9, supply, deployer)
}

#[test]
fn constructor_seeds_the_deployer_as_admin() {
    let deployer = acct(1);
    let admins = entry::constructor(deployer);
    assert!(admins.is_admin(deployer));
    assert!(!admins.is_admin(acct(2)));
}

#[test]
fn non_admin_mint_is_denied_and_changes_nothing() {
    let deployer = acct(1);
    let outsider = acct(2);
    let admins = entry::constructor(deployer);
    let mut l = ledger_with(U256::from_u64(1000), deployer);
    let r = entry::mint(&mut l, &admins, outsider, outsider, U256::from_u64(50));
    assert_eq!(r, Err(Error::PermissionDenied));
    assert_eq!(l.balance_of(outsider), U256::zero());
    assert_eq!(l.total_supply(), U256::from_u64(1000));
}

#[test]
fn admin_mint_is_allowed() {
    let deployer = acct(1);
    let admins = entry::constructor(deployer);
    let mut l = ledger_with(U256::from_u64(1000), deployer);
    assert_eq!(entry::mint(&mut l, &admins, deployer, acct(2), U256::from_u64(50)), Ok(()));
    assert_eq!(l.balance_of(acct(2)), U256::from_u64(50));
    assert_eq!(l.total_supply(), U256::from_u64(1050));
}

#[test]
fn non_admin_burn_is_denied_and_changes_nothing() {
    let deployer = acct(1);
    let outsider = acct(2);
    let admins = entry::constructor(deployer);
    let mut l = ledger_with(U256::from_u64(1000), deployer);
    let r = entry::burn(&mut l, &admins, outsider, deployer, U256::from_u64(50));
    assert_eq!(r, Err(Error::PermissionDenied));
    assert_eq!(l.balance_of(deployer), U256::from_u64(1000));
    assert_eq!(l.total_supply(), U256::from_u64(1000));
}

#[test]
fn admin_burn_is_allowed() {
    let deployer = acct(1);
    let admins = entry::constructor(deployer);
    let mut l = ledger_with(U256::from_u64(1000), deployer);
    assert_eq!(entry::burn(&mut l, &admins, deployer, deployer, U256::from_u64(250)), Ok(()));
    assert_eq!(l.balance_of(deployer), U256::from_u64(750));
    assert_eq!(l.total_supply(), U256::from_u64(750));
}

#[test]
fn add_admin_is_gated() {
    let deployer = acct(1);
    let outsider = acct(2);
    let mut admins = entry::constructor(deployer);
    assert_eq!(entry::add_admin(&mut admins, outsider, outsider), Err(Error::PermissionDenied));
    assert!(!admins.is_admin(outsider));
    assert_eq!(entry::add_admin(&mut admins, deployer, outsider), Ok(()));
    assert!(admins.is_admin(outsider));
}

#[test]
fn removed_admin_loses_the_capability() {
    let deployer = acct(1);
    let second = acct(2);
    let mut admins = entry::constructor(deployer);
    entry::add_admin(&mut admins, deployer, second).unwrap();
    let mut l = ledger_with(U256::from_u64(100), deployer);
    assert_eq!(entry::mint(&mut l, &admins, second, second, U256::from_u64(5)), Ok(()));
    assert_eq!(entry::remove_admin(&mut admins, deployer, second), Ok(()));
    assert!(!admins.is_admin(second));
    let r = entry::mint(&mut l, &admins, second, second, U256::from_u64(5));
    assert_eq!(r, Err(Error::PermissionDenied));
    assert_eq!(l.balance_of(second), U256::from_u64(5));
}

#[test]
fn remove_admin_is_gated() {
    let deployer = acct(1);
    let outsider = acct(2);
    let mut admins = entry::constructor(deployer);
    assert_eq!(
        entry::remove_admin(&mut admins, outsider, deployer),
        Err(Error::PermissionDenied)
    );
    assert!(admins.is_admin(deployer));
}
