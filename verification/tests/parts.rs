use payobvio_escrow::error::EscrowError;
use payobvio_escrow::identity::Identity;
use payobvio_escrow::ledger::Ledger;
use payobvio_escrow::states::EscrowState;
use payobvio_escrow::structs::{EscrowAccount, RecordHandle};

fn who(tag: u8) -> Identity {
    Identity::from_bytes([tag; 32])
}

fn record_in(state: EscrowState, contributor: Option<Identity>) -> EscrowAccount {
    let mut record = EscrowAccount::new(who(1), 10, String::from("a/b#3"));
    record.state = state;
    record.contributor = contributor;
    record
}

const ALL_STATES: [EscrowState; 5] = [
    EscrowState::Initialized,
    EscrowState::Funded,
    EscrowState::Assigned,
    EscrowState::Completed,
    EscrowState::Refunded,
];

#[test]
fn identities_are_the_same_when_all_bytes_agree() {
    let mut bytes = [0u8; 32];
    for (i, b) in bytes.iter_mut().enumerate() {
        *b = i as u8;
    }
    let a = Identity::from_bytes(bytes);
    assert_eq!(a.to_bytes(), bytes);
    assert!(a.same(&Identity::from_bytes(bytes)));
    for i in 0..32 {
        let mut other = bytes;
        other[i] ^= 0x80;
        assert!(!a.same(&Identity::from_bytes(other)));
        assert!(!Identity::from_bytes(other).same(&a));
    }
}

#[test]
fn completed_and_refunded_are_terminal() {
    let terminal: Vec<bool> = ALL_STATES.iter().map(|s| s.is_terminal()).collect();
    assert_eq!(terminal, vec![false, false, false, true, true]);
}

#[test]
fn funded_and_assigned_hold_funds() {
    let holding: Vec<bool> = ALL_STATES.iter().map(|s| s.is_holding_funds()).collect();
    assert_eq!(holding, vec![false, true, true, false, false]);
}

#[test]
fn handle_is_the_issue_key() {
    let issue = String::from("acme/repo#42");
    assert_eq!(RecordHandle::for_issue(&issue).key, "acme/repo#42");
    assert_eq!(RecordHandle::for_issue(&issue).key, RecordHandle::for_issue(&issue).key);
}

#[test]
fn authority_is_checked_before_anything_else() {
    for state in ALL_STATES {
        let record = record_in(state, Some(who(2)));
        assert!(record.is_maintainer(&who(1)));
        assert!(!record.is_maintainer(&who(2)));
        assert_eq!(record.check_deposit(&who(9), 10), Err(EscrowError::InvalidAuthority));
        assert_eq!(record.check_deposit(&who(9), 11), Err(EscrowError::InvalidAuthority));
        assert_eq!(record.check_assign(&who(9), &who(2)), Err(EscrowError::InvalidAuthority));
        assert_eq!(record.check_release(&who(9), &who(2)), Err(EscrowError::InvalidAuthority));
        assert_eq!(record.check_refund(&who(9)), Err(EscrowError::InvalidAuthority));
        assert_eq!(record.check_close(&who(9)), Err(EscrowError::InvalidAuthority));
    }
}

#[test]
fn deposit_amount_is_checked_before_the_state() {
    for state in ALL_STATES {
        let record = record_in(state, Some(who(2)));
        assert_eq!(record.check_deposit(&who(1), 9), Err(EscrowError::AmountMismatch));
        assert_eq!(record.check_deposit(&who(1), 11), Err(EscrowError::AmountMismatch));
    }
}

#[test]
fn release_state_is_checked_before_the_payee() {
    for state in ALL_STATES {
        let expected = if state == EscrowState::Assigned {
            Err(EscrowError::InvalidAuthority)
        } else {
            Err(EscrowError::InvalidState)
        };
        let record = record_in(state, Some(who(2)));
        assert_eq!(record.check_release(&who(1), &who(3)), expected);
        let unnamed = record_in(state, None);
        assert!(!unnamed.names_contributor(&who(2)));
        assert_eq!(unnamed.check_release(&who(1), &who(2)), expected);
    }
}

#[test]
fn release_by_a_stranger_is_refused_before_the_state() {
    for state in ALL_STATES {
        let record = record_in(state, Some(who(2)));
        assert_eq!(record.check_release(&who(2), &who(2)), Err(EscrowError::InvalidAuthority));
    }
}

#[test]
fn each_request_passes_in_the_states_of_its_table_row() {
    let ok = Ok(());
    let bad = Err(EscrowError::InvalidState);
    let expected = [
        // deposit, assign, release, refund, close
        (EscrowState::Initialized, [ok, bad, bad, bad, ok]),
        (EscrowState::Funded, [bad, ok, bad, ok, bad]),
        (EscrowState::Assigned, [bad, bad, ok, ok, bad]),
        (EscrowState::Completed, [bad, bad, bad, bad, bad]),
        (EscrowState::Refunded, [bad, bad, bad, bad, bad]),
    ];
    for (state, row) in expected {
        let record = record_in(state, Some(who(2)));
        assert!(record.names_contributor(&who(2)));
        let got = [
            record.check_deposit(&who(1), 10),
            record.check_assign(&who(1), &who(4)),
            record.check_release(&who(1), &who(2)),
            record.check_refund(&who(1)),
            record.check_close(&who(1)),
        ];
        assert_eq!(got, row);
    }
}

#[test]
fn empty_ledger_holds_nothing() {
    let ledger = Ledger::new();
    assert_eq!(ledger.total_value(), 0);
    assert_eq!(ledger.balance_of(&who(1)), 0);
    assert!(ledger.lookup(&RecordHandle { key: String::new() }).is_none());
}

#[test]
fn wallets_add_up() {
    let mut ledger = Ledger::new();
    assert!(ledger.fund_wallet(&who(1), 5));
    assert!(ledger.fund_wallet(&who(2), 7));
    assert!(ledger.fund_wallet(&who(1), 11));
    assert_eq!(ledger.balance_of(&who(1)), 16);
    assert_eq!(ledger.balance_of(&who(2)), 7);
    assert_eq!(ledger.balance_of(&who(3)), 0);
    assert_eq!(ledger.total_value(), 23);
}

#[test]
fn ledger_never_holds_more_than_it_can_count() {
    let mut ledger = Ledger::new();
    assert!(ledger.fund_wallet(&who(1), u64::MAX - 10));
    assert!(!ledger.fund_wallet(&who(2), 11));
    assert!(!ledger.fund_wallet(&who(1), 11));
    assert_eq!(ledger.balance_of(&who(1)), u64::MAX - 10);
    assert_eq!(ledger.balance_of(&who(2)), 0);

    let mut heavy = EscrowAccount::new(who(1), 11, String::from("a/b#1"));
    heavy.state = EscrowState::Funded;
    heavy.custody = 11;
    assert!(ledger.restore(heavy).is_none());
    assert!(ledger.lookup(&RecordHandle { key: String::from("a/b#1") }).is_none());

    assert!(ledger.fund_wallet(&who(2), 10));
    assert_eq!(ledger.total_value(), u64::MAX);
}

#[test]
fn restore_takes_a_record_as_it_stands() {
    let mut ledger = Ledger::new();
    let mut record = record_in(EscrowState::Assigned, Some(who(2)));
    record.custody = 10;
    let handle = ledger.restore(record).unwrap();
    assert_eq!(handle.key, "a/b#3");
    let found = ledger.lookup(&handle).unwrap();
    assert_eq!(found.state, EscrowState::Assigned);
    assert_eq!(found.contributor, Some(who(2)));
    assert_eq!(found.amount, 10);
    assert_eq!(found.custody, 10);
    assert_eq!(found.maintainer, who(1));
    assert_eq!(ledger.total_value(), 10);

    assert!(ledger.restore(record_in(EscrowState::Initialized, None)).is_none());
    assert_eq!(ledger.lookup(&handle).unwrap().state, EscrowState::Assigned);
}
