use banking::rates::{accrue, credit, levy};
use std::collections::hash_map::DefaultHasher;
use std::hash::{Hash, Hasher};
use banking::{
    Balance, Bank, BankingError, Event, HashResult, ReportEntry, Role, User, ED, INTEREST_RATE,
    RATE_SCALE, TAX_RATE,
};

fn register(bank: &mut Bank, name: &str, password: &str, role: Role) -> HashResult {
    bank.create_user(name.to_string(), password.to_string(), role)
        .unwrap();
    bank.login(name.to_string(), password.to_string()).unwrap().0
}

fn customer_with(bank: &mut Bank, name: &str, balance: Balance) -> HashResult {
    let hash = register(bank, name, "secret", Role::Customer);
    bank.deposit(hash, balance).unwrap();
    hash
}

#[test]
fn fresh_bank_has_default_configuration() {
    let bank = Bank::default();
    assert_eq!(bank.interest_rate(), INTEREST_RATE);
    assert_eq!(bank.tax_rate(), TAX_RATE);
    assert_eq!(bank.existential_deposit(), ED);
    assert_eq!(bank.interest_rate(), 10_000);
    assert_eq!(bank.tax_rate(), 20_000);
    assert_eq!(bank.existential_deposit(), 5);
    assert_eq!(bank.user_id_counter(), 0);
    assert!(bank.events().is_empty());
}

#[test]
fn identifiers_start_at_one_and_increase() {
    let mut bank = Bank::default();
    let a = register(&mut bank, "a", "pa", Role::Customer);
    let b = register(&mut bank, "b", "pb", Role::Manager);
    let c = register(&mut bank, "c", "pc", Role::Auditor);
    assert_eq!(bank.find_user(a).unwrap().id, 1);
    assert_eq!(bank.find_user(b).unwrap().id, 2);
    assert_eq!(bank.find_user(c).unwrap().id, 3);
    assert_eq!(bank.user_id_counter(), 3);
    assert_eq!(
        bank.find_user(b),
        Some(&User { id: 2, username: "b".to_string(), role: Role::Manager })
    );
}

#[test]
fn a_user_name_is_registered_once() {
    let mut bank = Bank::default();
    register(&mut bank, "roy", "one", Role::Customer);
    assert!(bank.has_username(&"roy".to_string()));
    assert!(!bank.has_username(&"Roy".to_string()));
    assert_eq!(
        bank.create_user("roy".to_string(), "two".to_string(), Role::Manager),
        Err(BankingError::UserAlreadyExist)
    );
    assert_eq!(bank.user_id_counter(), 1);
    assert_eq!(
        bank.login("roy".to_string(), "two".to_string()),
        Err(BankingError::FailedLogin)
    );
    assert!(bank
        .create_user("Roy".to_string(), "two".to_string(), Role::Manager)
        .is_ok());
    assert_eq!(bank.user_id_counter(), 2);
}

#[test]
fn login_returns_credential_and_role() {
    let mut bank = Bank::default();
    bank.create_user("m".to_string(), "pw".to_string(), Role::Manager)
        .unwrap();
    let expected = Bank::hash(&"m".to_string(), &"pw".to_string());
    assert_eq!(
        bank.login("m".to_string(), "pw".to_string()),
        Ok((expected, Role::Manager))
    );
    assert_eq!(
        bank.login("m".to_string(), "wrong".to_string()),
        Err(BankingError::FailedLogin)
    );
    assert_eq!(
        bank.login("nobody".to_string(), "pw".to_string()),
        Err(BankingError::FailedLogin)
    );
}

#[test]
fn credential_is_the_standard_digest() {
    let name = "roy".to_string();
    let password = "s\u{e9}cret".to_string();
    let mut hasher = DefaultHasher::new();
    name.hash(&mut hasher);
    password.hash(&mut hasher);
    assert_eq!(Bank::hash(&name, &password), hasher.finish());

    let mut empty = DefaultHasher::new();
    String::new().hash(&mut empty);
    String::new().hash(&mut empty);
    assert_eq!(Bank::hash(&String::new(), &String::new()), empty.finish());
}

#[test]
fn credential_depends_on_name_and_password() {
    let ab_c = Bank::hash(&"ab".to_string(), &"c".to_string());
    let a_bc = Bank::hash(&"a".to_string(), &"bc".to_string());
    let ab_c_again = Bank::hash(&"ab".to_string(), &"c".to_string());
    assert_eq!(ab_c, ab_c_again);
    assert_ne!(ab_c, a_bc);
    assert_ne!(
        Bank::hash(&"roy".to_string(), &"one".to_string()),
        Bank::hash(&"roy".to_string(), &"two".to_string())
    );
}

#[test]
fn change_password_moves_the_user() {
    let mut bank = Bank::default();
    let old = customer_with(&mut bank, "roy", 100);
    assert_eq!(bank.change_password(old, "fresh".to_string()), Ok(()));
    assert_eq!(bank.check_balance(old), Err(BankingError::NoUserFound));
    assert_eq!(
        bank.login("roy".to_string(), "secret".to_string()),
        Err(BankingError::FailedLogin)
    );
    let (new, role) = bank.login("roy".to_string(), "fresh".to_string()).unwrap();
    assert_eq!(role, Role::Customer);
    assert_eq!(bank.find_user(new).unwrap().id, 1);
    assert_eq!(bank.check_balance(new), Ok(100));
    assert_eq!(
        bank.change_password(old, "again".to_string()),
        Err(BankingError::NoUserFound)
    );
    assert!(bank.has_username(&"roy".to_string()));
}

#[test]
fn unknown_credential_is_no_user() {
    let mut bank = Bank::default();
    let stranger: HashResult = 42;
    assert_eq!(bank.deposit(stranger, 10), Err(BankingError::NoUserFound));
    assert_eq!(bank.withdraw(stranger, 10), Err(BankingError::NoUserFound));
    assert_eq!(bank.transfer(stranger, 10, 1), Err(BankingError::NoUserFound));
    assert_eq!(bank.check_balance(stranger), Err(BankingError::NoUserFound));
    assert_eq!(bank.set_interest_rate(stranger, 1), Err(BankingError::NoUserFound));
    assert_eq!(bank.set_tax_rate(stranger, 1), Err(BankingError::NoUserFound));
    assert_eq!(bank.pay_interest(stranger), Err(BankingError::NoUserFound));
    assert_eq!(bank.take_tax(stranger), Err(BankingError::NoUserFound));
    assert_eq!(bank.report(stranger), Err(BankingError::NoUserFound));
    assert_eq!(bank.print_event(stranger), Err(BankingError::NoUserFound));
    assert_eq!(
        bank.print_all_events(stranger, Role::Manager),
        Err(BankingError::NoUserFound)
    );
    assert_eq!(
        bank.print_a_user_event(stranger, Role::Auditor, 1),
        Err(BankingError::NoUserFound)
    );
    assert_eq!(bank.find_user(stranger), None);
    assert!(bank.events().is_empty());
}

#[test]
fn roles_are_enforced() {
    let mut bank = Bank::default();
    let customer = customer_with(&mut bank, "c", 100);
    let manager = register(&mut bank, "m", "pm", Role::Manager);
    let auditor = register(&mut bank, "a", "pa", Role::Auditor);
    let logged = bank.events().len();

    assert_eq!(bank.deposit(manager, 10), Err(BankingError::Unauthorized));
    assert_eq!(bank.withdraw(auditor, 10), Err(BankingError::Unauthorized));
    assert_eq!(bank.transfer(manager, 10, 1), Err(BankingError::Unauthorized));
    assert_eq!(bank.check_balance(auditor), Err(BankingError::Unauthorized));
    assert_eq!(bank.print_event(manager), Err(BankingError::Unauthorized));
    assert_eq!(bank.set_interest_rate(customer, 1), Err(BankingError::Unauthorized));
    assert_eq!(bank.set_interest_rate(auditor, 1), Err(BankingError::Unauthorized));
    assert_eq!(bank.set_tax_rate(customer, 1), Err(BankingError::Unauthorized));
    assert_eq!(bank.set_tax_rate(manager, 1), Err(BankingError::Unauthorized));
    assert_eq!(bank.pay_interest(customer), Err(BankingError::Unauthorized));
    assert_eq!(bank.pay_interest(auditor), Err(BankingError::Unauthorized));
    assert_eq!(bank.take_tax(customer), Err(BankingError::Unauthorized));
    assert_eq!(bank.take_tax(manager), Err(BankingError::Unauthorized));
    assert_eq!(bank.report(customer), Err(BankingError::Unauthorized));

    assert_eq!(bank.events().len(), logged);
    assert_eq!(bank.check_balance(customer), Ok(100));
    assert_eq!(bank.interest_rate(), INTEREST_RATE);
    assert_eq!(bank.tax_rate(), TAX_RATE);
}

#[test]
fn the_caller_is_checked_before_the_amount_or_rate() {
    let mut bank = Bank::default();
    let customer = customer_with(&mut bank, "c", 100);
    let manager = register(&mut bank, "m", "pm", Role::Manager);
    let auditor = register(&mut bank, "a", "pa", Role::Auditor);
    let stranger: HashResult = 7;
    let logged = bank.events().len();

    // An unknown credential is refused as such, whatever else is wrong.
    assert_eq!(bank.deposit(stranger, 0), Err(BankingError::NoUserFound));
    assert_eq!(bank.deposit(stranger, -100), Err(BankingError::NoUserFound));
    assert_eq!(bank.withdraw(stranger, 0), Err(BankingError::NoUserFound));
    assert_eq!(bank.withdraw(stranger, -1), Err(BankingError::NoUserFound));
    assert_eq!(bank.transfer(stranger, 0, 9), Err(BankingError::NoUserFound));
    assert_eq!(bank.set_interest_rate(stranger, -1), Err(BankingError::NoUserFound));
    assert_eq!(bank.set_tax_rate(stranger, -1), Err(BankingError::NoUserFound));
    assert_eq!(
        bank.set_tax_rate(stranger, RATE_SCALE + 1),
        Err(BankingError::NoUserFound)
    );
    assert_eq!(
        bank.print_all_events(stranger, Role::Customer),
        Err(BankingError::NoUserFound)
    );
    assert_eq!(
        bank.print_a_user_event(stranger, Role::Customer, 99),
        Err(BankingError::NoUserFound)
    );

    // The wrong role is refused as such, whatever else is wrong.
    assert_eq!(bank.deposit(manager, 0), Err(BankingError::Unauthorized));
    assert_eq!(bank.deposit(auditor, -5), Err(BankingError::Unauthorized));
    assert_eq!(bank.withdraw(manager, -1), Err(BankingError::Unauthorized));
    assert_eq!(bank.withdraw(auditor, 0), Err(BankingError::Unauthorized));
    assert_eq!(bank.transfer(manager, 0, 9), Err(BankingError::Unauthorized));
    assert_eq!(bank.set_interest_rate(customer, -1), Err(BankingError::Unauthorized));
    assert_eq!(bank.set_interest_rate(auditor, -1), Err(BankingError::Unauthorized));
    assert_eq!(bank.set_tax_rate(customer, -1), Err(BankingError::Unauthorized));
    assert_eq!(
        bank.set_tax_rate(manager, RATE_SCALE + 1),
        Err(BankingError::Unauthorized)
    );
    assert_eq!(
        bank.print_a_user_event(manager, Role::Auditor, 99),
        Err(BankingError::Unauthorized)
    );

    // With the right caller, the amount or the rate is what is refused.
    assert_eq!(bank.deposit(customer, 0), Err(BankingError::InvalidAmount));
    assert_eq!(bank.deposit(customer, -100), Err(BankingError::InvalidAmount));
    assert_eq!(bank.withdraw(customer, 0), Err(BankingError::InvalidAmount));
    assert_eq!(bank.withdraw(customer, -1), Err(BankingError::InvalidAmount));
    assert_eq!(
        bank.set_interest_rate(manager, -1),
        Err(BankingError::InvalidInterestRate)
    );
    assert_eq!(bank.set_tax_rate(auditor, -1), Err(BankingError::InvalidTaxRate));
    assert_eq!(
        bank.set_tax_rate(auditor, RATE_SCALE + 1),
        Err(BankingError::InvalidTaxRate)
    );
    assert_eq!(
        bank.print_a_user_event(manager, Role::Manager, 99),
        Err(BankingError::InvalidUserId)
    );

    assert_eq!(bank.events().len(), logged);
    assert_eq!(bank.check_balance(customer), Ok(100));
}

#[test]
fn a_new_user_holds_nothing() {
    let mut bank = Bank::default();
    let first = customer_with(&mut bank, "first", 10);
    let second = register(&mut bank, "second", "ps", Role::Customer);
    assert_eq!(bank.find_user(second).unwrap().id, 2);
    assert_eq!(bank.check_balance(second), Ok(0));
    assert_eq!(bank.withdraw(second, 1), Err(BankingError::InsufficientBalance));
    assert_eq!(bank.check_balance(first), Ok(10));
    assert_eq!(bank.events(), &vec![Event::Deposit { id: 1, amount: 10 }]);
    assert_eq!(bank.interest_rate(), INTEREST_RATE);
    assert_eq!(bank.tax_rate(), TAX_RATE);
    // A registration that is refused uses up no identifier.
    assert!(bank
        .create_user("first".to_string(), "other".to_string(), Role::Auditor)
        .is_err());
    assert_eq!(bank.user_id_counter(), 2);
    let third = register(&mut bank, "third", "pt", Role::Customer);
    assert_eq!(bank.find_user(third).unwrap().id, 3);
    assert_eq!(bank.check_balance(third), Ok(0));
}

#[test]
fn deposit_scenario() {
    let mut bank = Bank::default();
    let roy = register(&mut bank, "roy", "roy", Role::Customer);
    assert_eq!(bank.deposit(roy, 1000), Ok(()));
    assert_eq!(bank.check_balance(roy), Ok(1000));
    assert_eq!(bank.events().last(), Some(&Event::Deposit { id: 1, amount: 1000 }));
    assert_eq!(bank.withdraw(roy, 1001), Err(BankingError::InsufficientBalance));
    assert_eq!(bank.check_balance(roy), Ok(1000));
    assert_eq!(bank.events().len(), 1);

    let fresh = register(&mut bank, "fresh", "fresh", Role::Customer);
    assert_eq!(bank.deposit(fresh, 2), Err(BankingError::AmountTooSmall));
    assert_eq!(bank.check_balance(fresh), Ok(0));
    assert_eq!(bank.events().len(), 1);
}

#[test]
fn first_deposit_must_reach_the_existential_deposit() {
    let mut bank = Bank::default();
    let roy = register(&mut bank, "roy", "roy", Role::Customer);
    assert_eq!(bank.deposit(roy, 4), Err(BankingError::AmountTooSmall));
    assert_eq!(bank.deposit(roy, 5), Ok(()));
    assert_eq!(bank.check_balance(roy), Ok(5));
    // Onto an account that exists, any positive amount goes.
    assert_eq!(bank.deposit(roy, 1), Ok(()));
    assert_eq!(bank.check_balance(roy), Ok(6));
    assert_eq!(
        bank.events().as_slice(),
        &[Event::Deposit { id: 1, amount: 5 }, Event::Deposit { id: 1, amount: 1 }]
    );
}

#[test]
fn deposit_stops_at_the_largest_amount() {
    let mut bank = Bank::default();
    let roy = customer_with(&mut bank, "roy", Balance::MAX - 10);
    assert_eq!(bank.deposit(roy, 10), Ok(()));
    assert_eq!(bank.check_balance(roy), Ok(Balance::MAX));
    assert_eq!(bank.deposit(roy, 1), Ok(()));
    assert_eq!(bank.check_balance(roy), Ok(Balance::MAX));
    assert_eq!(bank.events().last(), Some(&Event::Deposit { id: 1, amount: 1 }));
}

#[test]
fn withdrawal_is_logged_and_keeps_the_rest() {
    let mut bank = Bank::default();
    let roy = customer_with(&mut bank, "roy", 1000);
    assert_eq!(bank.withdraw(roy, 995), Ok(()));
    assert_eq!(bank.check_balance(roy), Ok(5));
    assert_eq!(
        bank.events().as_slice(),
        &[Event::Deposit { id: 1, amount: 1000 }, Event::Withdrawal { id: 1, amount: 995 }]
    );
}

#[test]
fn withdrawal_under_the_floor_reaps_the_account() {
    let mut bank = Bank::default();
    let roy = customer_with(&mut bank, "roy", 1000);
    assert_eq!(bank.withdraw(roy, 996), Ok(()));
    assert_eq!(bank.check_balance(roy), Ok(0));
    assert_eq!(
        bank.events().as_slice(),
        &[
            Event::Deposit { id: 1, amount: 1000 },
            Event::Withdrawal { id: 1, amount: 996 },
            Event::AccountReaped { id: 1, dust: 4 },
        ]
    );
    // The account is gone: nothing can be taken, and a deposit starts anew.
    assert_eq!(bank.withdraw(roy, 1), Err(BankingError::InsufficientBalance));
    assert_eq!(bank.deposit(roy, 4), Err(BankingError::AmountTooSmall));
}

#[test]
fn withdrawal_of_everything_leaves_no_dust() {
    let mut bank = Bank::default();
    let roy = customer_with(&mut bank, "roy", 1000);
    assert_eq!(bank.withdraw(roy, 1000), Ok(()));
    assert_eq!(bank.check_balance(roy), Ok(0));
    assert_eq!(bank.events().last(), Some(&Event::AccountReaped { id: 1, dust: 0 }));
    assert_eq!(bank.events().len(), 3);
}

#[test]
fn withdrawal_is_refused_without_funds() {
    let mut bank = Bank::default();
    let roy = register(&mut bank, "roy", "roy", Role::Customer);
    assert_eq!(bank.withdraw(roy, 1), Err(BankingError::InsufficientBalance));
    assert_eq!(bank.withdraw(roy, 0), Err(BankingError::InvalidAmount));
    bank.deposit(roy, 10).unwrap();
    assert_eq!(bank.withdraw(roy, 11), Err(BankingError::InsufficientBalance));
    assert_eq!(bank.check_balance(roy), Ok(10));
    assert_eq!(bank.events().len(), 1);
}

#[test]
fn transfer_scenario() {
    let mut bank = Bank::default();
    let u1 = customer_with(&mut bank, "u1", 1000);
    let u2 = customer_with(&mut bank, "u2", 1000);
    assert_eq!(bank.transfer(u1, 496, 2), Ok(()));
    assert_eq!(bank.check_balance(u1), Ok(504));
    assert_eq!(bank.check_balance(u2), Ok(1496));
    assert_eq!(
        bank.events().last(),
        Some(&Event::Transfer { id: 1, to_id: 2, amount: 496 })
    );
    assert_eq!(bank.events().len(), 3);
}

#[test]
fn transfer_under_the_floor_reaps_the_sender() {
    let mut bank = Bank::default();
    let u1 = customer_with(&mut bank, "u1", 500);
    let u2 = customer_with(&mut bank, "u2", 1000);
    assert_eq!(bank.transfer(u1, 496, 2), Ok(()));
    assert_eq!(bank.check_balance(u1), Ok(0));
    assert_eq!(bank.check_balance(u2), Ok(1496));
    assert_eq!(
        bank.events().as_slice(),
        &[
            Event::Deposit { id: 1, amount: 500 },
            Event::Deposit { id: 2, amount: 1000 },
            Event::AccountReaped { id: 1, dust: 4 },
            Event::Transfer { id: 1, to_id: 2, amount: 496 },
        ]
    );
}

#[test]
fn transfer_conserves_money() {
    let mut bank = Bank::default();
    let a = customer_with(&mut bank, "a", 700);
    let b = customer_with(&mut bank, "b", 300);
    let c = customer_with(&mut bank, "c", 50);
    bank.transfer(a, 250, 2).unwrap();
    assert_eq!(bank.check_balance(a), Ok(450));
    assert_eq!(bank.check_balance(b), Ok(550));
    assert_eq!(bank.check_balance(c), Ok(50));
    // With reaping, the dust leaves circulation.
    bank.transfer(a, 447, 2).unwrap();
    assert_eq!(bank.check_balance(a), Ok(0));
    assert_eq!(bank.check_balance(b), Ok(997));
    assert_eq!(bank.check_balance(c), Ok(50));
    assert_eq!(
        bank.events()[bank.events().len() - 2],
        Event::AccountReaped { id: 1, dust: 3 }
    );
}

#[test]
fn transfer_opens_the_account_of_the_recipient() {
    let mut bank = Bank::default();
    let a = customer_with(&mut bank, "a", 100);
    let b = register(&mut bank, "b", "pb", Role::Customer);
    assert_eq!(bank.transfer(a, 5, 2), Ok(()));
    assert_eq!(bank.check_balance(b), Ok(5));
    assert_eq!(bank.check_balance(a), Ok(95));
}

#[test]
fn transfer_is_validated_in_order() {
    let mut bank = Bank::default();
    let a = customer_with(&mut bank, "a", 100);
    let _b = customer_with(&mut bank, "b", 100);
    let _m = register(&mut bank, "m", "pm", Role::Manager);
    let logged = bank.events().len();
    assert_eq!(bank.transfer(a, 0, 2), Err(BankingError::InvalidAmount));
    assert_eq!(bank.transfer(a, -5, 9), Err(BankingError::InvalidAmount));
    assert_eq!(bank.transfer(a, 4, 2), Err(BankingError::AmountTooSmall));
    assert_eq!(bank.transfer(a, 4, 9), Err(BankingError::AmountTooSmall));
    assert_eq!(bank.transfer(a, 50, 9), Err(BankingError::InvalidUserId));
    // A manager is no recipient.
    assert_eq!(bank.transfer(a, 50, 3), Err(BankingError::InvalidUserId));
    assert_eq!(bank.transfer(a, 500, 9), Err(BankingError::InvalidUserId));
    assert_eq!(bank.transfer(a, 101, 2), Err(BankingError::InsufficientBalance));
    assert_eq!(bank.events().len(), logged);
    assert_eq!(bank.check_balance(a), Ok(100));
}

#[test]
fn transfer_to_oneself_does_nothing() {
    let mut bank = Bank::default();
    let a = customer_with(&mut bank, "a", 100);
    let empty = register(&mut bank, "e", "pe", Role::Customer);
    let logged = bank.events().len();
    assert_eq!(bank.transfer(a, 50, 1), Ok(()));
    assert_eq!(bank.transfer(a, 0, 1), Ok(()));
    assert_eq!(bank.transfer(a, -7, 1), Ok(()));
    assert_eq!(bank.transfer(a, 1_000_000, 1), Ok(()));
    assert_eq!(bank.transfer(empty, 3, 2), Ok(()));
    assert_eq!(bank.check_balance(a), Ok(100));
    assert_eq!(bank.check_balance(empty), Ok(0));
    assert_eq!(bank.events().len(), logged);
}

#[test]
fn transfer_stops_at_the_largest_amount() {
    let mut bank = Bank::default();
    let a = customer_with(&mut bank, "a", 100);
    let b = customer_with(&mut bank, "b", Balance::MAX - 10);
    assert_eq!(bank.transfer(a, 50, 2), Ok(()));
    assert_eq!(bank.check_balance(a), Ok(50));
    assert_eq!(bank.check_balance(b), Ok(Balance::MAX));
}

#[test]
fn reads_change_nothing() {
    let mut bank = Bank::default();
    let c = customer_with(&mut bank, "c", 100);
    let m = register(&mut bank, "m", "pm", Role::Manager);
    let before: Vec<Event> = bank.events().clone();
    for _ in 0..3 {
        assert_eq!(bank.check_balance(c), Ok(100));
        assert!(bank.report(m).is_ok());
        assert!(bank.print_event(c).is_ok());
        assert!(bank.print_all_events(m, Role::Manager).is_ok());
    }
    assert_eq!(bank.events(), &before);
    assert_eq!(bank.check_balance(c), Ok(100));
}

#[test]
fn interest_scenario() {
    let mut bank = Bank::default();
    let c = customer_with(&mut bank, "c", 1000);
    let m = register(&mut bank, "m", "pm", Role::Manager);
    assert_eq!(bank.set_interest_rate(m, 10_000), Ok(()));
    assert_eq!(bank.interest_rate(), 10_000);
    assert_eq!(
        bank.events().last(),
        Some(&Event::InterestRate { id: 2, interest_rate: 10_000 })
    );
    assert_eq!(bank.pay_interest(m), Ok(()));
    assert_eq!(bank.check_balance(c), Ok(1010));
    assert_eq!(bank.events().last(), Some(&Event::Interest { id: 1, interest: 10 }));
}

#[test]
fn interest_is_rounded_down_and_paid_to_every_account() {
    let mut bank = Bank::default();
    let a = customer_with(&mut bank, "a", 199);
    let b = customer_with(&mut bank, "b", 99);
    let c = register(&mut bank, "c", "pc", Role::Customer);
    let m = register(&mut bank, "m", "pm", Role::Manager);
    let logged = bank.events().len();
    assert_eq!(bank.pay_interest(m), Ok(()));
    assert_eq!(bank.check_balance(a), Ok(200));
    assert_eq!(bank.check_balance(b), Ok(99));
    assert_eq!(bank.check_balance(c), Ok(0));
    let new: Vec<Event> = bank.events()[logged..].to_vec();
    assert_eq!(new.len(), 2);
    assert!(new.contains(&Event::Interest { id: 1, interest: 1 }));
    assert!(new.contains(&Event::Interest { id: 2, interest: 0 }));
}

#[test]
fn interest_stops_at_the_largest_amount() {
    let mut bank = Bank::default();
    let a = customer_with(&mut bank, "a", Balance::MAX - 5);
    let m = register(&mut bank, "m", "pm", Role::Manager);
    assert_eq!(bank.set_interest_rate(m, Balance::MAX), Ok(()));
    assert_eq!(bank.pay_interest(m), Ok(()));
    assert_eq!(bank.check_balance(a), Ok(Balance::MAX));
    assert_eq!(bank.events().last(), Some(&Event::Interest { id: 1, interest: 5 }));
}

#[test]
fn interest_rate_is_validated() {
    let mut bank = Bank::default();
    let m = register(&mut bank, "m", "pm", Role::Manager);
    assert_eq!(bank.set_interest_rate(m, -1), Err(BankingError::InvalidInterestRate));
    assert_eq!(bank.interest_rate(), INTEREST_RATE);
    assert!(bank.events().is_empty());
    assert_eq!(bank.set_interest_rate(m, 0), Ok(()));
    assert_eq!(bank.interest_rate(), 0);
    assert_eq!(bank.set_interest_rate(m, 3 * RATE_SCALE), Ok(()));
    assert_eq!(bank.interest_rate(), 3_000_000);
    assert_eq!(bank.events().len(), 2);
}

#[test]
fn tax_rate_is_validated() {
    let mut bank = Bank::default();
    let a = register(&mut bank, "a", "pa", Role::Auditor);
    assert_eq!(bank.set_tax_rate(a, -1), Err(BankingError::InvalidTaxRate));
    assert_eq!(bank.set_tax_rate(a, RATE_SCALE + 1), Err(BankingError::InvalidTaxRate));
    assert_eq!(bank.tax_rate(), TAX_RATE);
    assert!(bank.events().is_empty());
    assert_eq!(bank.set_tax_rate(a, 0), Ok(()));
    assert_eq!(bank.set_tax_rate(a, RATE_SCALE), Ok(()));
    assert_eq!(bank.tax_rate(), 1_000_000);
    assert_eq!(
        bank.events().as_slice(),
        &[
            Event::TaxRate { id: 1, tax_rate: 0 },
            Event::TaxRate { id: 1, tax_rate: 1_000_000 },
        ]
    );
}

#[test]
fn tax_is_rounded_down_and_logged() {
    let mut bank = Bank::default();
    let c = customer_with(&mut bank, "c", 1049);
    let a = register(&mut bank, "a", "pa", Role::Auditor);
    assert_eq!(bank.take_tax(a), Ok(()));
    assert_eq!(bank.check_balance(c), Ok(1029));
    assert_eq!(bank.events().last(), Some(&Event::Tax { id: 1, tax: 20 }));
}

#[test]
fn tax_under_the_floor_reaps_the_account() {
    let mut bank = Bank::default();
    let rich = customer_with(&mut bank, "rich", 1000);
    let poor = customer_with(&mut bank, "poor", 8);
    let a = register(&mut bank, "a", "pa", Role::Auditor);
    assert_eq!(bank.set_tax_rate(a, 500_000), Ok(()));
    let logged = bank.events().len();
    assert_eq!(bank.take_tax(a), Ok(()));
    assert_eq!(bank.check_balance(rich), Ok(500));
    assert_eq!(bank.check_balance(poor), Ok(0));
    let new: Vec<Event> = bank.events()[logged..].to_vec();
    assert_eq!(new.len(), 3);
    assert!(new.contains(&Event::Tax { id: 1, tax: 500 }));
    let taxed = new
        .iter()
        .position(|e| *e == Event::Tax { id: 2, tax: 4 })
        .unwrap();
    assert_eq!(new[taxed + 1], Event::AccountReaped { id: 2, dust: 4 });
    // The reaped account is gone.
    assert_eq!(bank.withdraw(poor, 1), Err(BankingError::InsufficientBalance));
}

#[test]
fn tax_of_everything_reaps_every_account() {
    let mut bank = Bank::default();
    let c = customer_with(&mut bank, "c", 1000);
    let a = register(&mut bank, "a", "pa", Role::Auditor);
    bank.set_tax_rate(a, RATE_SCALE).unwrap();
    assert_eq!(bank.take_tax(a), Ok(()));
    assert_eq!(bank.check_balance(c), Ok(0));
    assert_eq!(
        bank.events()[bank.events().len() - 2..],
        [Event::Tax { id: 1, tax: 1000 }, Event::AccountReaped { id: 1, dust: 0 }]
    );
}

#[test]
fn balances_stay_over_the_floor() {
    let mut bank = Bank::default();
    let a = customer_with(&mut bank, "a", 30);
    let b = customer_with(&mut bank, "b", 12);
    let c = customer_with(&mut bank, "c", 6);
    let auditor = register(&mut bank, "x", "px", Role::Auditor);
    bank.set_tax_rate(auditor, 300_000).unwrap();
    bank.withdraw(a, 7).unwrap();
    bank.transfer(b, 5, 3).unwrap();
    bank.take_tax(auditor).unwrap();
    bank.transfer(a, 10, 2).unwrap();
    bank.take_tax(auditor).unwrap();
    for user in [a, b, c] {
        let balance = bank.check_balance(user).unwrap();
        assert!(balance == 0 || balance >= ED);
    }
    assert_eq!(bank.check_balance(a), Ok(5));
    assert_eq!(bank.check_balance(b), Ok(11));
    assert_eq!(bank.check_balance(c), Ok(6));
    bank.take_tax(auditor).unwrap();
    assert_eq!(bank.check_balance(a), Ok(0));
    assert_eq!(bank.check_balance(b), Ok(8));
    assert_eq!(bank.check_balance(c), Ok(5));
}

#[test]
fn failed_operations_log_nothing() {
    let mut bank = Bank::default();
    let c = customer_with(&mut bank, "c", 100);
    let m = register(&mut bank, "m", "pm", Role::Manager);
    let a = register(&mut bank, "a", "pa", Role::Auditor);
    let mut logged = bank.events().len();
    assert!(bank.deposit(c, 0).is_err());
    assert!(bank.withdraw(c, 101).is_err());
    assert!(bank.transfer(c, 10, 77).is_err());
    assert!(bank.set_interest_rate(m, -3).is_err());
    assert!(bank.set_tax_rate(a, 2 * RATE_SCALE).is_err());
    assert!(bank.pay_interest(a).is_err());
    assert!(bank.take_tax(m).is_err());
    assert!(bank.create_user("c".to_string(), "x".to_string(), Role::Customer).is_err());
    assert_eq!(bank.events().len(), logged);
    // The log never shrinks.
    let before: Vec<Event> = bank.events().clone();
    assert!(bank.deposit(c, 1).is_ok());
    assert!(bank.events().len() > logged);
    logged = bank.events().len();
    assert!(bank.take_tax(a).is_ok());
    assert!(bank.events().len() > logged);
    assert_eq!(bank.events()[..before.len()], before[..]);
}

#[test]
fn a_customer_sees_its_own_history() {
    let mut bank = Bank::default();
    let a = customer_with(&mut bank, "a", 100);
    let b = customer_with(&mut bank, "b", 100);
    let m = register(&mut bank, "m", "pm", Role::Manager);
    bank.transfer(a, 10, 2).unwrap();
    bank.withdraw(b, 20).unwrap();
    bank.set_interest_rate(m, 100_000).unwrap();
    bank.transfer(b, 30, 1).unwrap();
    assert_eq!(
        bank.print_event(a),
        Ok(vec![
            Event::Deposit { id: 1, amount: 100 },
            Event::Transfer { id: 1, to_id: 2, amount: 10 },
            Event::Transfer { id: 2, to_id: 1, amount: 30 },
        ])
    );
    assert_eq!(
        bank.print_event(b),
        Ok(vec![
            Event::Deposit { id: 2, amount: 100 },
            Event::Transfer { id: 1, to_id: 2, amount: 10 },
            Event::Withdrawal { id: 2, amount: 20 },
            Event::Transfer { id: 2, to_id: 1, amount: 30 },
        ])
    );
}

#[test]
fn staff_reads_the_history_of_a_customer() {
    let mut bank = Bank::default();
    let c = customer_with(&mut bank, "c", 100);
    let m = register(&mut bank, "m", "pm", Role::Manager);
    let a = register(&mut bank, "a", "pa", Role::Auditor);
    bank.take_tax(a).unwrap();
    let history = vec![Event::Deposit { id: 1, amount: 100 }, Event::Tax { id: 1, tax: 2 }];
    assert_eq!(bank.print_a_user_event(m, Role::Manager, 1), Ok(history.clone()));
    assert_eq!(bank.print_a_user_event(a, Role::Auditor, 1), Ok(history));
    // The role that the caller names must be its own, and not a customer's.
    assert_eq!(
        bank.print_a_user_event(m, Role::Auditor, 1),
        Err(BankingError::Unauthorized)
    );
    assert_eq!(
        bank.print_a_user_event(c, Role::Customer, 1),
        Err(BankingError::Unauthorized)
    );
    assert_eq!(
        bank.print_a_user_event(c, Role::Manager, 1),
        Err(BankingError::Unauthorized)
    );
    // The target must be a registered customer.
    assert_eq!(
        bank.print_a_user_event(m, Role::Manager, 2),
        Err(BankingError::InvalidUserId)
    );
    assert_eq!(
        bank.print_a_user_event(a, Role::Auditor, 9),
        Err(BankingError::InvalidUserId)
    );
}

#[test]
fn staff_reads_the_whole_log() {
    let mut bank = Bank::default();
    let c = customer_with(&mut bank, "c", 100);
    let m = register(&mut bank, "m", "pm", Role::Manager);
    let a = register(&mut bank, "a", "pa", Role::Auditor);
    bank.set_tax_rate(a, 0).unwrap();
    bank.withdraw(c, 1).unwrap();
    let log = vec![
        Event::Deposit { id: 1, amount: 100 },
        Event::TaxRate { id: 3, tax_rate: 0 },
        Event::Withdrawal { id: 1, amount: 1 },
    ];
    assert_eq!(bank.print_all_events(m, Role::Manager), Ok(log.clone()));
    assert_eq!(bank.print_all_events(a, Role::Auditor), Ok(log.clone()));
    assert_eq!(bank.events(), &log);
    assert_eq!(
        bank.print_all_events(a, Role::Manager),
        Err(BankingError::Unauthorized)
    );
    assert_eq!(
        bank.print_all_events(c, Role::Customer),
        Err(BankingError::Unauthorized)
    );
}

#[test]
fn report_lists_every_user_once() {
    let mut bank = Bank::default();
    let _c = customer_with(&mut bank, "c", 100);
    let _d = register(&mut bank, "d", "pd", Role::Customer);
    let m = register(&mut bank, "m", "pm", Role::Manager);
    let mut lines = bank.report(m).unwrap();
    lines.sort_by_key(|line| line.user.id);
    assert_eq!(
        lines,
        vec![
            ReportEntry {
                user: User { id: 1, username: "c".to_string(), role: Role::Customer },
                balance: Some(100),
            },
            ReportEntry {
                user: User { id: 2, username: "d".to_string(), role: Role::Customer },
                balance: Some(0),
            },
            ReportEntry {
                user: User { id: 3, username: "m".to_string(), role: Role::Manager },
                balance: None,
            },
        ]
    );
}

#[test]
fn events_know_whom_they_concern() {
    let transfer = Event::Transfer { id: 1, to_id: 2, amount: 10 };
    assert!(transfer.involves(1));
    assert!(transfer.involves(2));
    assert!(!transfer.involves(3));
    assert!(Event::Deposit { id: 4, amount: 1 }.involves(4));
    assert!(!Event::Deposit { id: 4, amount: 1 }.involves(1));
    assert!(Event::Withdrawal { id: 4, amount: 1 }.involves(4));
    assert!(Event::AccountReaped { id: 4, dust: 1 }.involves(4));
    assert!(Event::Interest { id: 4, interest: 1 }.involves(4));
    assert!(Event::Tax { id: 4, tax: 1 }.involves(4));
    assert!(Event::InterestRate { id: 4, interest_rate: 1 }.involves(4));
    assert!(!Event::TaxRate { id: 4, tax_rate: 1 }.involves(5));
}

#[test]
fn credit_adds_and_stops_at_the_largest_amount() {
    assert_eq!(credit(0, 0), 0);
    assert_eq!(credit(1000, 496), 1496);
    assert_eq!(credit(Balance::MAX - 1, 1), Balance::MAX);
    assert_eq!(credit(Balance::MAX - 1, 2), Balance::MAX);
    assert_eq!(credit(Balance::MAX, Balance::MAX), Balance::MAX);
}

#[test]
fn accrue_grows_by_the_rate() {
    assert_eq!(accrue(1000, 10_000), 1010);
    assert_eq!(accrue(1000, 0), 1000);
    assert_eq!(accrue(0, 10_000), 0);
    assert_eq!(accrue(99, 10_000), 99);
    assert_eq!(accrue(100, 10_000), 101);
    assert_eq!(accrue(150, 1_500_000), 375);
    assert_eq!(accrue(Balance::MAX, 1), Balance::MAX);
    assert_eq!(accrue(Balance::MAX, Balance::MAX), Balance::MAX);
    assert_eq!(accrue(Balance::MAX / 2, RATE_SCALE), Balance::MAX - 1);
    assert_eq!(accrue(Balance::MAX / 2 + 1, RATE_SCALE), Balance::MAX);
}

#[test]
fn levy_takes_the_rate() {
    assert_eq!(levy(1000, 20_000), 20);
    assert_eq!(levy(1049, 20_000), 20);
    assert_eq!(levy(1050, 20_000), 21);
    assert_eq!(levy(1000, 0), 0);
    assert_eq!(levy(1000, RATE_SCALE), 1000);
    assert_eq!(levy(0, RATE_SCALE), 0);
    assert_eq!(levy(Balance::MAX, RATE_SCALE), Balance::MAX);
    assert_eq!(levy(Balance::MAX, 500_000), Balance::MAX / 2);
}

#[test]
fn every_error_has_its_message() {
    assert_eq!(
        BankingError::Unauthorized.message(),
        "Current user is not authorized to do this operation."
    );
    assert_eq!(
        BankingError::InsufficientBalance.message(),
        "User does not have enough balance."
    );
    assert_eq!(BankingError::InvalidAmount.message(), "The amount given is not valid.");
    assert_eq!(
        BankingError::FailedLogin.message(),
        "Login failed! The username or password is not correct."
    );
    assert_eq!(BankingError::NoUserFound.message(), "Error, User does not exist.");
    assert_eq!(
        BankingError::AmountTooSmall.message(),
        "Error, the amount given is too small."
    );
    assert_eq!(BankingError::InvalidUserId.message(), "Error, user ID is not exist.");
    assert_eq!(
        BankingError::InvalidTaxRate.message(),
        "Error, tax rate must be between 0 and 1."
    );
    assert_eq!(
        BankingError::InvalidInterestRate.message(),
        "Error, interest rate could not be nagitive."
    );
    assert_eq!(
        BankingError::UserAlreadyExist.message(),
        "Error, this user is already exist."
    );
}
