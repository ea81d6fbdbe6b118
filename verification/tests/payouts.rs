use solana_vault::address::Address;
use solana_vault::distribution::{
    distribute, distribute_100, distribute_50, plan_distribution, Payout, Portion,
    TransferOutcome,
};
use solana_vault::error::ErrorCode;
use solana_vault::funds::{move_funds, Balances};
use solana_vault::ledger::Contributor;
use solana_vault::selection::select_winner;
use solana_vault::vault::{deposit_sol, initialize, Vault};

fn who(k: u8) -> Address {
    Address::new([k; 32])
}

fn vault_with(deposits: &[(u8, u64)]) -> Vault {
    let mut vault = Vault { total_sol: 0, contributors: Vec::new() };
    assert_eq!(initialize(&mut vault), Ok(()));
    for (k, amount) in deposits {
        assert_eq!(deposit_sol(&mut vault, who(*k), *amount, true), Ok(()));
    }
    vault
}

#[test]
fn half_of_101_is_50_and_51_stay() {
    let mut vault = vault_with(&[(1, 101)]);
    let paid = distribute_50(&mut vault, 0, None, TransferOutcome::Completed);
    assert_eq!(paid, Ok(Payout { winner: who(1), amount: 50 }));
    assert_eq!(vault.total_sol, 51);
}

#[test]
fn full_distribution_of_250_empties_the_pool_and_keeps_the_ledger() {
    let mut vault = vault_with(&[(1, 100), (2, 150)]);
    let ledger = vault.contributors.clone();
    let seed = 120;
    let paid = distribute_100(&mut vault, seed, None, TransferOutcome::Completed);
    assert_eq!(paid, Ok(Payout { winner: who(2), amount: 250 }));
    assert_eq!(vault.total_sol, 0);
    assert_eq!(vault.contributors, ledger);
    assert_eq!(
        vault.contributors,
        vec![
            Contributor { address: who(1), amount: 100 },
            Contributor { address: who(2), amount: 150 },
        ]
    );
}

#[test]
fn partial_distribution_keeps_the_ledger() {
    let mut vault = vault_with(&[(1, 7), (2, 8)]);
    let ledger = vault.contributors.clone();
    let paid = distribute_50(&mut vault, 3, None, TransferOutcome::Completed);
    assert_eq!(paid, Ok(Payout { winner: who(1), amount: 7 }));
    assert_eq!(vault.total_sol, 8);
    assert_eq!(vault.contributors, ledger);
}

#[test]
fn empty_pool_is_refused_and_nothing_changes() {
    let mut vault = vault_with(&[]);
    let before = vault.clone();
    for outcome in
        [TransferOutcome::Completed, TransferOutcome::RecipientBelowFloor, TransferOutcome::Failed]
    {
        assert_eq!(distribute_50(&mut vault, 1, None, outcome), Err(ErrorCode::VaultEmpty));
        assert_eq!(distribute_100(&mut vault, 1, None, outcome), Err(ErrorCode::VaultEmpty));
        assert_eq!(vault, before);
    }
    assert_eq!(
        plan_distribution(&vault, Portion::Half, 1, Some(who(1))),
        Err(ErrorCode::VaultEmpty)
    );
    assert_eq!(plan_distribution(&vault, Portion::Full, 1, None), Err(ErrorCode::VaultEmpty));
}

#[test]
fn pool_emptied_by_a_payout_is_refused_with_its_ledger_intact() {
    let mut vault = vault_with(&[(1, 10), (2, 20)]);
    assert!(distribute_100(&mut vault, 5, None, TransferOutcome::Completed).is_ok());
    let before = vault.clone();
    assert_eq!(
        distribute_50(&mut vault, 5, None, TransferOutcome::Completed),
        Err(ErrorCode::VaultEmpty)
    );
    assert_eq!(
        distribute_100(&mut vault, 5, None, TransferOutcome::Completed),
        Err(ErrorCode::VaultEmpty)
    );
    assert_eq!(vault, before);
    assert_eq!(vault.contributors.len(), 2);
}

#[test]
fn pool_without_ledger_has_no_contributors_to_pay() {
    let mut vault = Vault { total_sol: 10, contributors: Vec::new() };
    let before = vault.clone();
    assert_eq!(
        distribute_50(&mut vault, 5, None, TransferOutcome::Completed),
        Err(ErrorCode::NoContributors)
    );
    assert_eq!(vault, before);
}

#[test]
fn failed_transfer_leaves_the_vault_identical() {
    let mut vault = vault_with(&[(1, 10), (2, 30), (3, 60)]);
    let before = vault.clone();
    for seed in [0u64, 15, 99, 12345] {
        assert_eq!(
            distribute_50(&mut vault, seed, None, TransferOutcome::Failed),
            Err(ErrorCode::TransferFailed)
        );
        assert_eq!(vault, before);
        assert_eq!(
            distribute_100(&mut vault, seed, None, TransferOutcome::Failed),
            Err(ErrorCode::TransferFailed)
        );
        assert_eq!(vault, before);
    }
    assert_eq!(vault.total_sol, 100);
}

#[test]
fn recipient_below_floor_is_reported_and_nothing_changes() {
    let mut vault = vault_with(&[(1, 10), (2, 30)]);
    let before = vault.clone();
    assert_eq!(
        distribute_50(&mut vault, 0, None, TransferOutcome::RecipientBelowFloor),
        Err(ErrorCode::InsufficientRecipientBalance)
    );
    assert_eq!(
        distribute_100(&mut vault, 0, None, TransferOutcome::RecipientBelowFloor),
        Err(ErrorCode::InsufficientRecipientBalance)
    );
    assert_eq!(vault, before);
}

#[test]
fn wrong_winner_claim_is_refused_before_the_transfer_counts() {
    let mut vault = vault_with(&[(1, 10), (2, 30), (3, 60)]);
    let before = vault.clone();
    // Seed 5 draws the first party.
    assert_eq!(select_winner(&vault.contributors, 5), Ok(who(1)));
    for outcome in
        [TransferOutcome::Completed, TransferOutcome::RecipientBelowFloor, TransferOutcome::Failed]
    {
        assert_eq!(
            distribute_50(&mut vault, 5, Some(who(2)), outcome),
            Err(ErrorCode::InvalidWinnerClaim)
        );
        assert_eq!(
            distribute_100(&mut vault, 5, Some(who(9)), outcome),
            Err(ErrorCode::InvalidWinnerClaim)
        );
        assert_eq!(vault, before);
    }
}

#[test]
fn right_winner_claim_is_paid() {
    let mut vault = vault_with(&[(1, 10), (2, 30), (3, 60)]);
    let paid = distribute_50(&mut vault, 45, Some(who(3)), TransferOutcome::Completed);
    assert_eq!(paid, Ok(Payout { winner: who(3), amount: 50 }));
    assert_eq!(vault.total_sol, 50);
}

#[test]
fn chances_after_a_payout_still_follow_the_ledger() {
    let mut vault = vault_with(&[(1, 10), (2, 30), (3, 60)]);
    assert!(distribute_50(&mut vault, 0, None, TransferOutcome::Completed).is_ok());
    assert_eq!(vault.total_sol, 50);
    // The draw still ranges over the 100 recorded units, not the 50 pooled.
    let paid = distribute_50(&mut vault, 99, None, TransferOutcome::Completed);
    assert_eq!(paid, Ok(Payout { winner: who(3), amount: 25 }));
    assert_eq!(vault.total_sol, 25);
    let paid = distribute_100(&mut vault, 39, None, TransferOutcome::Completed);
    assert_eq!(paid, Ok(Payout { winner: who(2), amount: 25 }));
    assert_eq!(vault.total_sol, 0);
}

#[test]
fn half_of_a_single_unit_pays_nothing() {
    let mut vault = vault_with(&[(1, 1)]);
    let paid = distribute_50(&mut vault, 0, None, TransferOutcome::Completed);
    assert_eq!(paid, Ok(Payout { winner: who(1), amount: 0 }));
    assert_eq!(vault.total_sol, 1);
}

#[test]
fn plan_names_what_the_commit_pays() {
    let vault = vault_with(&[(1, 10), (2, 30), (3, 61)]);
    for seed in [0u64, 10, 40, 100, 777] {
        for portion in [Portion::Half, Portion::Full] {
            let plan = plan_distribution(&vault, portion, seed, None);
            let mut copy = vault.clone();
            let paid = distribute(&mut copy, portion, seed, None, TransferOutcome::Completed);
            assert_eq!(plan, paid);
            let payout = paid.unwrap();
            assert_eq!(copy.total_sol, 101 - payout.amount);
            assert_eq!(Ok(payout.winner), select_winner(&vault.contributors, seed));
        }
    }
    assert_eq!(
        plan_distribution(&vault, Portion::Half, 0, None),
        Ok(Payout { winner: who(1), amount: 50 })
    );
    assert_eq!(
        plan_distribution(&vault, Portion::Full, 100, None),
        Ok(Payout { winner: who(3), amount: 101 })
    );
    assert_eq!(
        plan_distribution(&vault, Portion::Full, 100, Some(who(1))),
        Err(ErrorCode::InvalidWinnerClaim)
    );
}

#[test]
fn plan_does_not_touch_the_vault() {
    let vault = vault_with(&[(1, 10), (2, 30)]);
    let before = vault.clone();
    assert!(plan_distribution(&vault, Portion::Full, 3, None).is_ok());
    assert_eq!(vault, before);
}

#[test]
fn funds_move_from_custody_to_the_recipient() {
    let mut balances = Balances { custody: 1000, recipient: 5 };
    assert_eq!(move_funds(&mut balances, 400, 0), TransferOutcome::Completed);
    assert_eq!(balances, Balances { custody: 600, recipient: 405 });
    assert_eq!(move_funds(&mut balances, 600, 1005), TransferOutcome::Completed);
    assert_eq!(balances, Balances { custody: 0, recipient: 1005 });
}

#[test]
fn funds_do_not_move_when_custody_is_short() {
    let mut balances = Balances { custody: 10, recipient: 5 };
    assert_eq!(move_funds(&mut balances, 11, 0), TransferOutcome::Failed);
    assert_eq!(balances, Balances { custody: 10, recipient: 5 });
}

#[test]
fn funds_do_not_move_when_the_recipient_would_overflow() {
    let mut balances = Balances { custody: 10, recipient: u64::MAX - 3 };
    assert_eq!(move_funds(&mut balances, 4, 0), TransferOutcome::Failed);
    assert_eq!(balances, Balances { custody: 10, recipient: u64::MAX - 3 });
    assert_eq!(move_funds(&mut balances, 3, 0), TransferOutcome::Completed);
    assert_eq!(balances, Balances { custody: 7, recipient: u64::MAX });
}

#[test]
fn funds_do_not_move_when_the_recipient_stays_under_the_floor() {
    let mut balances = Balances { custody: 1000, recipient: 5 };
    assert_eq!(move_funds(&mut balances, 400, 406), TransferOutcome::RecipientBelowFloor);
    assert_eq!(balances, Balances { custody: 1000, recipient: 5 });
    assert_eq!(move_funds(&mut balances, 400, 405), TransferOutcome::Completed);
    assert_eq!(balances, Balances { custody: 600, recipient: 405 });
}

#[test]
fn shortage_outranks_the_floor() {
    let mut balances = Balances { custody: 1, recipient: 0 };
    assert_eq!(move_funds(&mut balances, 2, 100), TransferOutcome::Failed);
    assert_eq!(balances, Balances { custody: 1, recipient: 0 });
}

#[test]
fn distribution_runs_end_to_end_with_the_host_in_the_middle() {
    let mut vault = vault_with(&[(1, 10), (2, 30), (3, 60)]);
    let mut balances = Balances { custody: 100, recipient: 0 };
    let seed = 12;
    let payout = plan_distribution(&vault, Portion::Half, seed, None).unwrap();
    assert_eq!(payout, Payout { winner: who(2), amount: 50 });
    let outcome = move_funds(&mut balances, payout.amount, 1);
    assert_eq!(outcome, TransferOutcome::Completed);
    assert_eq!(distribute_50(&mut vault, seed, Some(payout.winner), outcome), Ok(payout));
    assert_eq!(vault.total_sol, balances.custody);
    assert_eq!(balances.recipient, 50);

    let payout = plan_distribution(&vault, Portion::Full, seed, None).unwrap();
    let outcome = move_funds(&mut balances, payout.amount, 101);
    assert_eq!(outcome, TransferOutcome::RecipientBelowFloor);
    assert_eq!(
        distribute_100(&mut vault, seed, None, outcome),
        Err(ErrorCode::InsufficientRecipientBalance)
    );
    assert_eq!(vault.total_sol, 50);
    assert_eq!(balances, Balances { custody: 50, recipient: 50 });
}
