use fungible_ledger::Coin;
use fungible_ledger::Fungible;
use fungible_ledger::FungibleToken;
use fungible_ledger::TransferError;

#[test]
fn test_transfer_successful() {
    let mut token: FungibleToken<u64, u64> = FungibleToken::new();
    let staker: u64 = 1;
    let provider: u64 = 2;

    token.set_balance(&staker, 100);
    assert_eq!(token.balance_of(&staker), 100);

    let result = token.transfer(&staker, &provider, 50);
    assert_eq!(result, Ok(()));
    assert_eq!(token.balance_of(&staker), 50);
    assert_eq!(token.balance_of(&provider), 50);
}

#[test]
fn test_transfer_insufficient_balance() {
    let mut token: FungibleToken<u64, u64> = FungibleToken::new();
    let staker: u64 = 1;
    let provider: u64 = 2;

    token.set_balance(&staker, 10);
    assert_eq!(token.balance_of(&staker), 10);

    let result = token.transfer(&staker, &provider, 50);
    assert_eq!(result, Err(TransferError::InsufficientBalance));
    assert_eq!(result.unwrap_err().message(), "Insufficient balance");
    assert_eq!(token.balance_of(&staker), 10);
    assert_eq!(token.balance_of(&provider), 0);
}

#[test]
fn zero_default_for_unset_accounts() {
    let token: FungibleToken<u64, u64> = FungibleToken::new();
    assert_eq!(token.balance_of(&0), 0);
    assert_eq!(token.balance_of(&42), 0);
    assert_eq!(token.balance_of(&u64::MAX), 0);

    let coin = Coin::new();
    assert_eq!(coin.balance_of(&0), 0);
    assert_eq!(coin.balance_of(&42), 0);
}

#[test]
fn set_balance_overwrites_prior_value() {
    let mut token: FungibleToken<u64, u64> = FungibleToken::new();
    token.set_balance(&1, 5);
    assert_eq!(token.balance_of(&1), 5);
    token.set_balance(&1, 7);
    assert_eq!(token.balance_of(&1), 7);
    token.set_balance(&1, 0);
    assert_eq!(token.balance_of(&1), 0);

    let mut coin = Coin::new();
    coin.set_balance(&1, 5);
    coin.set_balance(&1, 7);
    assert_eq!(coin.balance_of(&1), 7);
}

#[test]
fn transfer_conserves_the_sum() {
    let mut token: FungibleToken<u64, u64> = FungibleToken::new();
    token.set_balance(&1, 75);
    token.set_balance(&2, 25);
    token.set_balance(&3, 11);
    let before = token.balance_of(&1) + token.balance_of(&2);

    let result = token.transfer(&1, &2, 30);
    assert_eq!(result, Ok(()));
    assert_eq!(token.balance_of(&1), 45);
    assert_eq!(token.balance_of(&2), 55);
    assert_eq!(token.balance_of(&1) + token.balance_of(&2), before);
    assert_eq!(token.balance_of(&3), 11);
}

#[test]
fn failed_transfer_changes_nothing() {
    let mut token: FungibleToken<u64, u64> = FungibleToken::new();
    token.set_balance(&1, 9);
    token.set_balance(&2, 4);

    let result = token.transfer(&1, &2, 10);
    assert_eq!(result, Err(TransferError::InsufficientBalance));
    assert_eq!(token.balance_of(&1), 9);
    assert_eq!(token.balance_of(&2), 4);
}

#[test]
fn self_transfer_leaves_balance_unchanged() {
    let mut token: FungibleToken<u64, u64> = FungibleToken::new();
    token.set_balance(&1, 100);

    let result = token.transfer(&1, &1, 60);
    assert_eq!(result, Ok(()));
    assert_eq!(token.balance_of(&1), 100);

    let result = token.transfer(&1, &1, 101);
    assert_eq!(result, Err(TransferError::InsufficientBalance));
    assert_eq!(token.balance_of(&1), 100);
}

#[test]
fn overflowing_credit_fails_atomically() {
    let mut coin = Coin::new();
    coin.set_balance(&1, u32::MAX);
    coin.set_balance(&2, 3);

    let result = coin.transfer(&2, &1, 3);
    assert_eq!(result, Err(TransferError::BalanceOverflow));
    assert_eq!(result.unwrap_err().message(), "Balance overflow");
    assert_eq!(coin.balance_of(&1), u32::MAX);
    assert_eq!(coin.balance_of(&2), 3);

    let mut token: FungibleToken<u64, u64> = FungibleToken::new();
    token.set_balance(&1, u64::MAX);
    token.set_balance(&2, 3);

    let result = token.transfer(&2, &1, 3);
    assert_eq!(result, Err(TransferError::BalanceOverflow));
    assert_eq!(token.balance_of(&1), u64::MAX);
    assert_eq!(token.balance_of(&2), 3);
}

#[test]
fn self_transfer_of_full_balance_cannot_overflow() {
    let mut coin = Coin::new();
    coin.set_balance(&1, u32::MAX);

    let result = coin.transfer(&1, &1, u32::MAX);
    assert_eq!(result, Ok(()));
    assert_eq!(coin.balance_of(&1), u32::MAX);
}

#[test]
fn coin_transfer_matches_the_generic_ledger() {
    let mut coin = Coin::new();
    coin.set_balance(&1, 100);
    assert_eq!(coin.balance_of(&1), 100);

    let result = coin.transfer(&1, &2, 50);
    assert_eq!(result, Ok(()));
    assert_eq!(coin.balance_of(&1), 50);
    assert_eq!(coin.balance_of(&2), 50);

    let result = coin.transfer(&1, &2, 51);
    assert_eq!(result, Err(TransferError::InsufficientBalance));
    assert_eq!(coin.balance_of(&1), 50);
    assert_eq!(coin.balance_of(&2), 50);
}

#[test]
fn transfer_between_fresh_accounts_of_amount_zero_succeeds() {
    let mut token: FungibleToken<u64, u64> = FungibleToken::new();
    let result = token.transfer(&5, &6, 0);
    assert_eq!(result, Ok(()));
    assert_eq!(token.balance_of(&5), 0);
    assert_eq!(token.balance_of(&6), 0);
}
