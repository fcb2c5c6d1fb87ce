use payobvio_escrow::error::EscrowError;
use payobvio_escrow::identity::Identity;
use payobvio_escrow::ledger::Ledger;
use payobvio_escrow::states::EscrowState;
use payobvio_escrow::structs::{
    AssignContributor, CloseEscrow, DepositFunds, EscrowAccount, InitializeEscrow, RecordHandle,
    Refund, ReleaseFunds,
};
use payobvio_escrow::{
    assign_contributor, close_escrow, deposit_funds, initialize_escrow, refund, release_funds,
};

const BOUNTY: u64 = 250;

fn who(tag: u8) -> Identity {
    Identity::from_bytes([tag; 32])
}

fn maintainer() -> Identity {
    who(0xA1)
}

fn contributor() -> Identity {
    who(0xC7)
}

fn stranger() -> Identity {
    who(0x55)
}

/// A ledger where the maintainer holds 1000 and has opened a record for "org/repo#1".
fn opened() -> (Ledger, RecordHandle) {
    let mut ledger = Ledger::new();
    assert!(ledger.fund_wallet(&maintainer(), 1000));
    let handle = initialize_escrow(
        &mut ledger,
        &InitializeEscrow { maintainer: maintainer() },
        BOUNTY,
        String::from("org/repo#1"),
    )
    .unwrap();
    (ledger, handle)
}

fn deposited() -> (Ledger, RecordHandle) {
    let (mut ledger, handle) = opened();
    let ctx = DepositFunds { maintainer: maintainer(), escrow_account: handle.clone() };
    assert_eq!(deposit_funds(&mut ledger, &ctx, BOUNTY), Ok(()));
    (ledger, handle)
}

fn assigned() -> (Ledger, RecordHandle) {
    let (mut ledger, handle) = deposited();
    let ctx = AssignContributor { maintainer: maintainer(), escrow_account: handle.clone() };
    assert_eq!(assign_contributor(&mut ledger, &ctx, contributor()), Ok(()));
    (ledger, handle)
}

fn snapshot(ledger: &Ledger, handle: &RecordHandle) -> (EscrowState, Option<Identity>, u64, u64) {
    let record = ledger.lookup(handle).unwrap();
    (record.state, record.contributor, record.amount, record.custody)
}

#[test]
fn new_record_is_initialized_and_empty() {
    let (ledger, handle) = opened();
    let record = ledger.lookup(&handle).unwrap();
    assert_eq!(record.state, EscrowState::Initialized);
    assert_eq!(record.contributor, None);
    assert_eq!(record.custody, 0);
    assert_eq!(record.amount, BOUNTY);
    assert_eq!(record.maintainer, maintainer());
    assert_eq!(record.issue_id, "org/repo#1");
    assert_eq!(handle.key, "org/repo#1");
    assert_eq!(ledger.balance_of(&maintainer()), 1000);
}

#[test]
fn one_issue_has_one_record() {
    let (mut ledger, handle) = opened();
    let second = initialize_escrow(
        &mut ledger,
        &InitializeEscrow { maintainer: stranger() },
        BOUNTY + 1,
        String::from("org/repo#1"),
    );
    assert_eq!(second.err(), Some(EscrowError::RecordAlreadyExists));
    let record = ledger.lookup(&handle).unwrap();
    assert_eq!(record.maintainer, maintainer());
    assert_eq!(record.amount, BOUNTY);
}

#[test]
fn issues_do_not_share_records() {
    let (mut ledger, first) = deposited();
    let second = initialize_escrow(
        &mut ledger,
        &InitializeEscrow { maintainer: stranger() },
        9,
        String::from("org/repo#2"),
    )
    .unwrap();
    assert_eq!(snapshot(&ledger, &first), (EscrowState::Funded, None, BOUNTY, BOUNTY));
    assert_eq!(snapshot(&ledger, &second), (EscrowState::Initialized, None, 9, 0));
    let back = Refund { maintainer: maintainer(), escrow_account: first.clone() };
    assert_eq!(refund(&mut ledger, &back), Ok(()));
    assert_eq!(snapshot(&ledger, &second), (EscrowState::Initialized, None, 9, 0));
}

#[test]
fn mismatched_deposit_is_refused_and_changes_nothing() {
    let (mut ledger, handle) = opened();
    let ctx = DepositFunds { maintainer: maintainer(), escrow_account: handle.clone() };
    for wrong in [0, 1, BOUNTY - 1, BOUNTY + 1, u64::MAX] {
        assert_eq!(deposit_funds(&mut ledger, &ctx, wrong), Err(EscrowError::AmountMismatch));
        assert_eq!(snapshot(&ledger, &handle), (EscrowState::Initialized, None, BOUNTY, 0));
        assert_eq!(ledger.balance_of(&maintainer()), 1000);
    }
}

#[test]
fn mismatched_deposit_is_a_mismatch_in_every_state() {
    let (mut ledger, handle) = assigned();
    let ctx = DepositFunds { maintainer: maintainer(), escrow_account: handle.clone() };
    assert_eq!(deposit_funds(&mut ledger, &ctx, BOUNTY + 1), Err(EscrowError::AmountMismatch));
    let release =
        ReleaseFunds { maintainer: maintainer(), contributor: contributor(), escrow_account: handle.clone() };
    assert_eq!(release_funds(&mut ledger, &release), Ok(()));
    assert_eq!(deposit_funds(&mut ledger, &ctx, BOUNTY - 1), Err(EscrowError::AmountMismatch));
    assert_eq!(
        snapshot(&ledger, &handle),
        (EscrowState::Completed, Some(contributor()), BOUNTY, 0)
    );
}

#[test]
fn exact_deposit_funds_the_record() {
    let (ledger, handle) = deposited();
    assert_eq!(snapshot(&ledger, &handle), (EscrowState::Funded, None, BOUNTY, BOUNTY));
    assert_eq!(ledger.balance_of(&maintainer()), 750);
    assert_eq!(ledger.total_value(), 1000);
}

#[test]
fn second_deposit_is_refused_for_the_state() {
    let (mut ledger, handle) = deposited();
    let ctx = DepositFunds { maintainer: maintainer(), escrow_account: handle.clone() };
    assert_eq!(deposit_funds(&mut ledger, &ctx, BOUNTY), Err(EscrowError::InvalidState));
    assert_eq!(snapshot(&ledger, &handle), (EscrowState::Funded, None, BOUNTY, BOUNTY));
    assert_eq!(ledger.balance_of(&maintainer()), 750);

    let (mut ledger, handle) = assigned();
    let ctx = DepositFunds { maintainer: maintainer(), escrow_account: handle.clone() };
    assert_eq!(deposit_funds(&mut ledger, &ctx, BOUNTY), Err(EscrowError::InvalidState));
    let back = Refund { maintainer: maintainer(), escrow_account: handle.clone() };
    assert_eq!(refund(&mut ledger, &back), Ok(()));
    assert_eq!(deposit_funds(&mut ledger, &ctx, BOUNTY), Err(EscrowError::InvalidState));
    assert_eq!(ledger.balance_of(&maintainer()), 1000);
}

#[test]
fn deposit_needs_the_funds() {
    let mut ledger = Ledger::new();
    assert!(ledger.fund_wallet(&maintainer(), BOUNTY - 1));
    let handle = initialize_escrow(
        &mut ledger,
        &InitializeEscrow { maintainer: maintainer() },
        BOUNTY,
        String::from("org/repo#1"),
    )
    .unwrap();
    let ctx = DepositFunds { maintainer: maintainer(), escrow_account: handle.clone() };
    assert_eq!(deposit_funds(&mut ledger, &ctx, BOUNTY), Err(EscrowError::InsufficientFunds));
    assert_eq!(snapshot(&ledger, &handle), (EscrowState::Initialized, None, BOUNTY, 0));
    assert_eq!(ledger.balance_of(&maintainer()), BOUNTY - 1);
    assert!(ledger.fund_wallet(&maintainer(), 1));
    assert_eq!(deposit_funds(&mut ledger, &ctx, BOUNTY), Ok(()));
    assert_eq!(ledger.balance_of(&maintainer()), 0);
}

#[test]
fn deposit_from_a_party_without_wallet_is_refused() {
    let mut ledger = Ledger::new();
    let handle = initialize_escrow(
        &mut ledger,
        &InitializeEscrow { maintainer: maintainer() },
        BOUNTY,
        String::from("org/repo#1"),
    )
    .unwrap();
    let ctx = DepositFunds { maintainer: maintainer(), escrow_account: handle.clone() };
    assert_eq!(deposit_funds(&mut ledger, &ctx, BOUNTY), Err(EscrowError::InsufficientFunds));
    assert_eq!(ledger.total_value(), 0);
}

#[test]
fn assignment_is_only_legal_from_funded() {
    let (mut ledger, handle) = opened();
    let ctx = AssignContributor { maintainer: maintainer(), escrow_account: handle.clone() };
    assert_eq!(
        assign_contributor(&mut ledger, &ctx, contributor()),
        Err(EscrowError::InvalidState)
    );
    assert_eq!(snapshot(&ledger, &handle), (EscrowState::Initialized, None, BOUNTY, 0));

    let (mut ledger, handle) = deposited();
    assert_eq!(assign_contributor(&mut ledger, &ctx, contributor()), Ok(()));
    assert_eq!(
        snapshot(&ledger, &handle),
        (EscrowState::Assigned, Some(contributor()), BOUNTY, BOUNTY)
    );
}

#[test]
fn second_assignment_does_not_overwrite_the_contributor() {
    let (mut ledger, handle) = assigned();
    let ctx = AssignContributor { maintainer: maintainer(), escrow_account: handle.clone() };
    assert_eq!(assign_contributor(&mut ledger, &ctx, stranger()), Err(EscrowError::InvalidState));
    assert_eq!(
        snapshot(&ledger, &handle),
        (EscrowState::Assigned, Some(contributor()), BOUNTY, BOUNTY)
    );
}

#[test]
fn release_to_another_party_is_refused_and_moves_nothing() {
    let (mut ledger, handle) = assigned();
    let ctx =
        ReleaseFunds { maintainer: maintainer(), contributor: stranger(), escrow_account: handle.clone() };
    assert_eq!(release_funds(&mut ledger, &ctx), Err(EscrowError::InvalidAuthority));
    assert_eq!(
        snapshot(&ledger, &handle),
        (EscrowState::Assigned, Some(contributor()), BOUNTY, BOUNTY)
    );
    assert_eq!(ledger.balance_of(&stranger()), 0);
    assert_eq!(ledger.balance_of(&contributor()), 0);
    assert_eq!(ledger.balance_of(&maintainer()), 750);
}

#[test]
fn release_pays_the_contributor_exactly_the_bounty() {
    let (mut ledger, handle) = assigned();
    assert!(ledger.fund_wallet(&contributor(), 40));
    let ctx = ReleaseFunds {
        maintainer: maintainer(),
        contributor: contributor(),
        escrow_account: handle.clone(),
    };
    assert_eq!(release_funds(&mut ledger, &ctx), Ok(()));
    assert_eq!(
        snapshot(&ledger, &handle),
        (EscrowState::Completed, Some(contributor()), BOUNTY, 0)
    );
    assert_eq!(ledger.balance_of(&contributor()), 40 + BOUNTY);
    assert_eq!(ledger.balance_of(&maintainer()), 750);
    assert_eq!(release_funds(&mut ledger, &ctx), Err(EscrowError::InvalidState));
    assert_eq!(ledger.balance_of(&contributor()), 40 + BOUNTY);
}

#[test]
fn release_before_assignment_is_refused_for_the_state() {
    for (mut ledger, handle) in [opened(), deposited()] {
        let before = snapshot(&ledger, &handle);
        let held = ledger.balance_of(&maintainer());
        for payee in [contributor(), stranger(), maintainer()] {
            let ctx = ReleaseFunds {
                maintainer: maintainer(),
                contributor: payee,
                escrow_account: handle.clone(),
            };
            assert_eq!(release_funds(&mut ledger, &ctx), Err(EscrowError::InvalidState));
            assert_eq!(snapshot(&ledger, &handle), before);
            assert_eq!(ledger.balance_of(&payee), if payee == maintainer() { held } else { 0 });
        }
    }
}

#[test]
fn release_after_the_end_is_refused_for_the_state() {
    let (mut ledger, handle) = assigned();
    let back = Refund { maintainer: maintainer(), escrow_account: handle.clone() };
    assert_eq!(refund(&mut ledger, &back), Ok(()));
    for payee in [contributor(), stranger()] {
        let ctx = ReleaseFunds {
            maintainer: maintainer(),
            contributor: payee,
            escrow_account: handle.clone(),
        };
        assert_eq!(release_funds(&mut ledger, &ctx), Err(EscrowError::InvalidState));
        assert_eq!(ledger.balance_of(&payee), 0);
    }
    assert_eq!(
        snapshot(&ledger, &handle),
        (EscrowState::Refunded, Some(contributor()), BOUNTY, 0)
    );

    let (mut ledger, handle) = assigned();
    let pay = ReleaseFunds {
        maintainer: maintainer(),
        contributor: contributor(),
        escrow_account: handle.clone(),
    };
    assert_eq!(release_funds(&mut ledger, &pay), Ok(()));
    let other = ReleaseFunds {
        maintainer: maintainer(),
        contributor: stranger(),
        escrow_account: handle.clone(),
    };
    assert_eq!(release_funds(&mut ledger, &other), Err(EscrowError::InvalidState));
    assert_eq!(ledger.balance_of(&stranger()), 0);
    assert_eq!(ledger.balance_of(&contributor()), BOUNTY);
}

#[test]
fn refund_is_legal_from_funded_and_from_assigned() {
    for (mut ledger, handle) in [deposited(), assigned()] {
        let named = ledger.lookup(&handle).unwrap().contributor;
        let ctx = Refund { maintainer: maintainer(), escrow_account: handle.clone() };
        assert_eq!(refund(&mut ledger, &ctx), Ok(()));
        assert_eq!(snapshot(&ledger, &handle), (EscrowState::Refunded, named, BOUNTY, 0));
        assert_eq!(ledger.balance_of(&maintainer()), 1000);
        assert_eq!(ledger.balance_of(&contributor()), 0);
        assert_eq!(refund(&mut ledger, &ctx), Err(EscrowError::InvalidState));
        assert_eq!(ledger.balance_of(&maintainer()), 1000);
    }
}

#[test]
fn refund_before_funding_is_refused() {
    let (mut ledger, handle) = opened();
    let ctx = Refund { maintainer: maintainer(), escrow_account: handle.clone() };
    assert_eq!(refund(&mut ledger, &ctx), Err(EscrowError::InvalidState));
    assert_eq!(ledger.balance_of(&maintainer()), 1000);
}

#[test]
fn final_states_admit_nothing() {
    let (mut ledger, handle) = assigned();
    let release = ReleaseFunds {
        maintainer: maintainer(),
        contributor: contributor(),
        escrow_account: handle.clone(),
    };
    assert_eq!(release_funds(&mut ledger, &release), Ok(()));
    let before = snapshot(&ledger, &handle);
    let back = Refund { maintainer: maintainer(), escrow_account: handle.clone() };
    let assign = AssignContributor { maintainer: maintainer(), escrow_account: handle.clone() };
    let close = CloseEscrow { maintainer: maintainer(), escrow_account: handle.clone() };
    let deposit = DepositFunds { maintainer: maintainer(), escrow_account: handle.clone() };
    assert_eq!(refund(&mut ledger, &back), Err(EscrowError::InvalidState));
    assert_eq!(assign_contributor(&mut ledger, &assign, stranger()), Err(EscrowError::InvalidState));
    assert_eq!(close_escrow(&mut ledger, &close), Err(EscrowError::InvalidState));
    assert_eq!(deposit_funds(&mut ledger, &deposit, BOUNTY), Err(EscrowError::InvalidState));
    assert_eq!(release_funds(&mut ledger, &release), Err(EscrowError::InvalidState));
    assert_eq!(snapshot(&ledger, &handle), before);
    assert_eq!(ledger.total_value(), 1000);
}

#[test]
fn only_the_maintainer_may_act() {
    let (mut ledger, handle) = opened();
    assert!(ledger.fund_wallet(&stranger(), 1000));
    let deposit = DepositFunds { maintainer: stranger(), escrow_account: handle.clone() };
    assert_eq!(deposit_funds(&mut ledger, &deposit, BOUNTY), Err(EscrowError::InvalidAuthority));
    assert_eq!(deposit_funds(&mut ledger, &deposit, 1), Err(EscrowError::InvalidAuthority));
    let close = CloseEscrow { maintainer: stranger(), escrow_account: handle.clone() };
    assert_eq!(close_escrow(&mut ledger, &close), Err(EscrowError::InvalidAuthority));
    assert_eq!(snapshot(&ledger, &handle), (EscrowState::Initialized, None, BOUNTY, 0));

    let (mut ledger, handle) = deposited();
    let assign = AssignContributor { maintainer: stranger(), escrow_account: handle.clone() };
    assert_eq!(
        assign_contributor(&mut ledger, &assign, stranger()),
        Err(EscrowError::InvalidAuthority)
    );
    let back = Refund { maintainer: contributor(), escrow_account: handle.clone() };
    assert_eq!(refund(&mut ledger, &back), Err(EscrowError::InvalidAuthority));
    assert_eq!(snapshot(&ledger, &handle), (EscrowState::Funded, None, BOUNTY, BOUNTY));

    let (mut ledger, handle) = assigned();
    let release = ReleaseFunds {
        maintainer: contributor(),
        contributor: contributor(),
        escrow_account: handle.clone(),
    };
    assert_eq!(release_funds(&mut ledger, &release), Err(EscrowError::InvalidAuthority));
    assert_eq!(ledger.balance_of(&contributor()), 0);
    assert_eq!(
        snapshot(&ledger, &handle),
        (EscrowState::Assigned, Some(contributor()), BOUNTY, BOUNTY)
    );
}

#[test]
fn unknown_handle_finds_no_record() {
    let (mut ledger, _) = opened();
    let nowhere = RecordHandle { key: String::from("org/repo#404") };
    assert!(ledger.lookup(&nowhere).is_none());
    let m = maintainer();
    assert_eq!(
        deposit_funds(&mut ledger, &DepositFunds { maintainer: m, escrow_account: nowhere.clone() }, BOUNTY),
        Err(EscrowError::RecordNotFound)
    );
    assert_eq!(
        assign_contributor(
            &mut ledger,
            &AssignContributor { maintainer: m, escrow_account: nowhere.clone() },
            contributor()
        ),
        Err(EscrowError::RecordNotFound)
    );
    assert_eq!(
        release_funds(
            &mut ledger,
            &ReleaseFunds { maintainer: m, contributor: contributor(), escrow_account: nowhere.clone() }
        ),
        Err(EscrowError::RecordNotFound)
    );
    assert_eq!(
        refund(&mut ledger, &Refund { maintainer: m, escrow_account: nowhere.clone() }),
        Err(EscrowError::RecordNotFound)
    );
    assert_eq!(
        close_escrow(&mut ledger, &CloseEscrow { maintainer: m, escrow_account: nowhere.clone() }),
        Err(EscrowError::RecordNotFound)
    );
    assert_eq!(ledger.balance_of(&m), 1000);
}

#[test]
fn close_destroys_an_unfunded_record() {
    let (mut ledger, handle) = opened();
    let close = CloseEscrow { maintainer: maintainer(), escrow_account: handle.clone() };
    assert_eq!(close_escrow(&mut ledger, &close), Ok(()));
    assert!(ledger.lookup(&handle).is_none());
    assert_eq!(ledger.balance_of(&maintainer()), 1000);
    assert_eq!(close_escrow(&mut ledger, &close), Err(EscrowError::RecordNotFound));

    let again = initialize_escrow(
        &mut ledger,
        &InitializeEscrow { maintainer: stranger() },
        7,
        String::from("org/repo#1"),
    )
    .unwrap();
    assert_eq!(again.key, handle.key);
    assert_eq!(snapshot(&ledger, &again), (EscrowState::Initialized, None, 7, 0));
    assert_eq!(ledger.lookup(&again).unwrap().maintainer, stranger());
}

#[test]
fn close_is_refused_once_funded() {
    for (mut ledger, handle) in [deposited(), assigned()] {
        let before = snapshot(&ledger, &handle);
        let close = CloseEscrow { maintainer: maintainer(), escrow_account: handle.clone() };
        assert_eq!(close_escrow(&mut ledger, &close), Err(EscrowError::InvalidState));
        assert_eq!(snapshot(&ledger, &handle), before);
        assert_eq!(ledger.balance_of(&maintainer()), 750);
    }
}

#[test]
fn close_hands_back_what_the_record_holds() {
    let mut ledger = Ledger::new();
    let mut record = EscrowAccount::new(maintainer(), BOUNTY, String::from("org/repo#8"));
    record.custody = 13;
    let handle = ledger.restore(record).unwrap();
    let close = CloseEscrow { maintainer: maintainer(), escrow_account: handle.clone() };
    assert_eq!(close_escrow(&mut ledger, &close), Ok(()));
    assert!(ledger.lookup(&handle).is_none());
    assert_eq!(ledger.balance_of(&maintainer()), 13);
    assert_eq!(ledger.total_value(), 13);
}

#[test]
fn payout_beyond_custody_is_refused() {
    let mut ledger = Ledger::new();
    let mut record = EscrowAccount::new(maintainer(), BOUNTY, String::from("org/repo#9"));
    record.state = EscrowState::Assigned;
    record.contributor = Some(contributor());
    record.custody = BOUNTY - 1;
    let handle = ledger.restore(record).unwrap();

    let release = ReleaseFunds {
        maintainer: maintainer(),
        contributor: contributor(),
        escrow_account: handle.clone(),
    };
    assert_eq!(release_funds(&mut ledger, &release), Err(EscrowError::InsufficientCustody));
    let back = Refund { maintainer: maintainer(), escrow_account: handle.clone() };
    assert_eq!(refund(&mut ledger, &back), Err(EscrowError::InsufficientCustody));
    assert_eq!(
        snapshot(&ledger, &handle),
        (EscrowState::Assigned, Some(contributor()), BOUNTY, BOUNTY - 1)
    );
    assert_eq!(ledger.balance_of(&maintainer()), 0);
    assert_eq!(ledger.balance_of(&contributor()), 0);
}

#[test]
fn payout_leaves_what_custody_exceeds_the_bounty() {
    let mut ledger = Ledger::new();
    let mut record = EscrowAccount::new(maintainer(), BOUNTY, String::from("org/repo#9"));
    record.state = EscrowState::Funded;
    record.custody = BOUNTY + 5;
    let handle = ledger.restore(record).unwrap();
    let back = Refund { maintainer: maintainer(), escrow_account: handle.clone() };
    assert_eq!(refund(&mut ledger, &back), Ok(()));
    assert_eq!(snapshot(&ledger, &handle), (EscrowState::Refunded, None, BOUNTY, 5));
    assert_eq!(ledger.balance_of(&maintainer()), BOUNTY);
}

#[test]
fn maintainer_may_be_the_contributor() {
    let (mut ledger, handle) = deposited();
    let assign = AssignContributor { maintainer: maintainer(), escrow_account: handle.clone() };
    assert_eq!(assign_contributor(&mut ledger, &assign, maintainer()), Ok(()));
    let release = ReleaseFunds {
        maintainer: maintainer(),
        contributor: maintainer(),
        escrow_account: handle.clone(),
    };
    assert_eq!(release_funds(&mut ledger, &release), Ok(()));
    assert_eq!(ledger.balance_of(&maintainer()), 1000);
    assert_eq!(
        snapshot(&ledger, &handle),
        (EscrowState::Completed, Some(maintainer()), BOUNTY, 0)
    );
}

#[test]
fn no_value_is_made_or_lost_over_a_lifetime() {
    let (mut ledger, handle) = opened();
    assert!(ledger.fund_wallet(&contributor(), 3));
    let total = ledger.total_value();
    assert_eq!(total, 1003);
    let m0 = ledger.balance_of(&maintainer());
    let c0 = ledger.balance_of(&contributor());

    let deposit = DepositFunds { maintainer: maintainer(), escrow_account: handle.clone() };
    assert_eq!(deposit_funds(&mut ledger, &deposit, BOUNTY), Ok(()));
    assert_eq!(ledger.total_value(), total);
    let assign = AssignContributor { maintainer: maintainer(), escrow_account: handle.clone() };
    assert_eq!(assign_contributor(&mut ledger, &assign, contributor()), Ok(()));
    assert_eq!(ledger.total_value(), total);
    let release = ReleaseFunds {
        maintainer: maintainer(),
        contributor: contributor(),
        escrow_account: handle.clone(),
    };
    assert_eq!(release_funds(&mut ledger, &release), Ok(()));
    assert_eq!(ledger.total_value(), total);

    let dm = ledger.balance_of(&maintainer()) as i128 - m0 as i128;
    let dc = ledger.balance_of(&contributor()) as i128 - c0 as i128;
    assert_eq!(dm, -(BOUNTY as i128));
    assert_eq!(dc, BOUNTY as i128);
    assert_eq!(dm + dc, 0);
    assert_eq!(ledger.lookup(&handle).unwrap().custody, 0);
}

#[test]
fn bounty_may_be_the_largest_amount() {
    let mut ledger = Ledger::new();
    assert!(ledger.fund_wallet(&maintainer(), u64::MAX));
    let handle = initialize_escrow(
        &mut ledger,
        &InitializeEscrow { maintainer: maintainer() },
        u64::MAX,
        String::new(),
    )
    .unwrap();
    assert_eq!(handle.key, "");
    let deposit = DepositFunds { maintainer: maintainer(), escrow_account: handle.clone() };
    assert_eq!(deposit_funds(&mut ledger, &deposit, u64::MAX), Ok(()));
    assert_eq!(ledger.balance_of(&maintainer()), 0);
    assert_eq!(ledger.lookup(&handle).unwrap().custody, u64::MAX);
    let back = Refund { maintainer: maintainer(), escrow_account: handle.clone() };
    assert_eq!(refund(&mut ledger, &back), Ok(()));
    assert_eq!(ledger.balance_of(&maintainer()), u64::MAX);
    assert_eq!(ledger.total_value(), u64::MAX);
}
