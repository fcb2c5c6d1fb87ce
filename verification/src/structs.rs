use vstd::prelude::*;
use crate::error::EscrowError;
use crate::identity::Identity;
use crate::model::{Operation, RecordView, WalletView};
use crate::states::EscrowState;

verus! {

/// The durable entry that tracks one bounty: who funds it, who is to be paid,
/// how much, for which issue, how far it has come, and what it holds.
#[derive(Debug)]
pub struct EscrowAccount {
    pub maintainer: Identity,
    pub contributor: Option<Identity>,
    pub amount: u64,
    pub issue_id: String,
    pub state: EscrowState,
    pub custody: u64,
}

impl View for EscrowAccount {
    type V = RecordView;

    open spec fn view(&self) -> RecordView {
        RecordView {
            maintainer: self.maintainer,
            contributor: self.contributor,
            amount: self.amount as nat,
            issue_id: self.issue_id@,
            state: self.state,
            custody: self.custody as nat,
        }
    }
}

impl Clone for EscrowAccount {
    fn clone(&self) -> (copy: EscrowAccount)
        ensures
            copy == *self,
    {
        EscrowAccount {
            maintainer: self.maintainer,
            contributor: self.contributor,
            amount: self.amount,
            issue_id: self.issue_id.clone(),
            state: self.state,
            custody: self.custody,
        }
    }
}

impl EscrowAccount {
    /// A record as creation leaves it: initialized, with no contributor and
    /// nothing in custody.
    pub fn new(maintainer: Identity, amount: u64, issue_id: String) -> (record: EscrowAccount)
        ensures
            record@ == RecordView::fresh(maintainer, amount as nat, issue_id@),
    {
        EscrowAccount {
            maintainer,
            contributor: None,
            amount,
            issue_id,
            state: EscrowState::Initialized,
            custody: 0,
        }
    }

    /// The authority check that opens every operation on an existing record.
    pub fn is_maintainer(&self, caller: &Identity) -> (r: bool)
        ensures
            r == (*caller == self.maintainer),
    {
        self.maintainer.same(caller)
    }

    /// Whether `target` is the contributor that the record names.
    pub fn names_contributor(&self, target: &Identity) -> (r: bool)
        ensures
            r == (self.contributor == Some(*target)),
    {
        match &self.contributor {
            Some(contributor) => contributor.same(target),
            None => false,
        }
    }

    /// The guards of a deposit of `amount` by `caller`: the caller's
    /// authority, then the amount, then the state.
    pub fn check_deposit(&self, caller: &Identity, amount: u64) -> (r: Result<(), EscrowError>)
        ensures
            r == self@.guard(
                Operation::Deposit { caller: *caller, key: self.issue_id@, amount: amount as nat },
            ),
    {
        if !self.is_maintainer(caller) {
            Err(EscrowError::InvalidAuthority)
        } else if amount != self.amount {
            Err(EscrowError::AmountMismatch)
        } else if self.state != EscrowState::Initialized {
            Err(EscrowError::InvalidState)
        } else {
            Ok(())
        }
    }

    /// The guards of an assignment by `caller`.
    pub fn check_assign(&self, caller: &Identity, contributor: &Identity) -> (r: Result<
        (),
        EscrowError,
    >)
        ensures
            r == self@.guard(
                Operation::Assign {
                    caller: *caller,
                    key: self.issue_id@,
                    contributor: *contributor,
                },
            ),
    {
        if !self.is_maintainer(caller) {
            Err(EscrowError::InvalidAuthority)
        } else if self.state != EscrowState::Funded {
            Err(EscrowError::InvalidState)
        } else {
            Ok(())
        }
    }

    /// The guards of a release to `target` by `caller`: the caller's
    /// authority, then the state, then the payee.
    pub fn check_release(&self, caller: &Identity, target: &Identity) -> (r: Result<
        (),
        EscrowError,
    >)
        ensures
            r == self@.guard(
                Operation::Release { caller: *caller, key: self.issue_id@, target: *target },
            ),
    {
        if !self.is_maintainer(caller) {
            Err(EscrowError::InvalidAuthority)
        } else if self.state != EscrowState::Assigned {
            Err(EscrowError::InvalidState)
        } else if !self.names_contributor(target) {
            Err(EscrowError::InvalidAuthority)
        } else {
            Ok(())
        }
    }

    /// The guards of a refund by `caller`.
    pub fn check_refund(&self, caller: &Identity) -> (r: Result<(), EscrowError>)
        ensures
            r == self@.guard(Operation::Refund { caller: *caller, key: self.issue_id@ }),
    {
        if !self.is_maintainer(caller) {
            Err(EscrowError::InvalidAuthority)
        } else if !self.state.is_holding_funds() {
            Err(EscrowError::InvalidState)
        } else {
            Ok(())
        }
    }

    /// The guards of a closure by `caller`.
    pub fn check_close(&self, caller: &Identity) -> (r: Result<(), EscrowError>)
        ensures
            r == self@.guard(Operation::Close { caller: *caller, key: self.issue_id@ }),
    {
        if !self.is_maintainer(caller) {
            Err(EscrowError::InvalidAuthority)
        } else if self.state != EscrowState::Initialized {
            Err(EscrowError::InvalidState)
        } else {
            Ok(())
        }
    }
}

/// The key under which the ledger keeps the record of one issue.  It is
/// derived from the issue identifier alone, so one issue has one key.
#[derive(Debug)]
pub struct RecordHandle {
    pub key: String,
}

impl View for RecordHandle {
    type V = Seq<char>;

    open spec fn view(&self) -> Seq<char> {
        self.key@
    }
}

impl Clone for RecordHandle {
    fn clone(&self) -> (copy: RecordHandle)
        ensures
            copy == *self,
    {
        RecordHandle { key: self.key.clone() }
    }
}

impl RecordHandle {
    /// The key of `issue_id`: the same issue always gives the same key.
    pub fn for_issue(issue_id: &String) -> (handle: RecordHandle)
        ensures
            handle@ == issue_id@,
    {
        RecordHandle { key: issue_id.clone() }
    }
}

/// The funds of one party outside any escrow.
#[derive(Clone, Copy, Debug)]
pub struct Wallet {
    pub owner: Identity,
    pub balance: u64,
}

impl View for Wallet {
    type V = WalletView;

    open spec fn view(&self) -> WalletView {
        WalletView { owner: self.owner, balance: self.balance as nat }
    }
}

/// The request to create the record of an issue, made by its maintainer.
#[derive(Clone, Copy, Debug)]
pub struct InitializeEscrow {
    pub maintainer: Identity,
}

/// The request to destroy a record that was never funded.
#[derive(Clone, Debug)]
pub struct CloseEscrow {
    pub maintainer: Identity,
    pub escrow_account: RecordHandle,
}

/// The request to fund a record with its bounty.
#[derive(Clone, Debug)]
pub struct DepositFunds {
    pub maintainer: Identity,
    pub escrow_account: RecordHandle,
}

/// The request to name the contributor of a funded record.
#[derive(Clone, Debug)]
pub struct AssignContributor {
    pub maintainer: Identity,
    pub escrow_account: RecordHandle,
}

/// The request to pay the bounty to `contributor`.
#[derive(Clone, Debug)]
pub struct ReleaseFunds {
    pub maintainer: Identity,
    pub contributor: Identity,
    pub escrow_account: RecordHandle,
}

/// The request to return the bounty to the maintainer.
#[derive(Clone, Debug)]
pub struct Refund {
    pub maintainer: Identity,
    pub escrow_account: RecordHandle,
}

impl InitializeEscrow {
    /// The request as the model sees it.
    pub open spec fn operation(&self, bounty_amount: u64, issue_id: Seq<char>) -> Operation {
        Operation::Initialize {
            maintainer: self.maintainer,
            amount: bounty_amount as nat,
            issue_id,
        }
    }
}

impl CloseEscrow {
    /// The request as the model sees it.
    pub open spec fn operation(&self) -> Operation {
        Operation::Close { caller: self.maintainer, key: self.escrow_account@ }
    }
}

impl DepositFunds {
    /// The request as the model sees it.
    pub open spec fn operation(&self, amount: u64) -> Operation {
        Operation::Deposit {
            caller: self.maintainer,
            key: self.escrow_account@,
            amount: amount as nat,
        }
    }
}

impl AssignContributor {
    /// The request as the model sees it.
    pub open spec fn operation(&self, contributor_id: Identity) -> Operation {
        Operation::Assign {
            caller: self.maintainer,
            key: self.escrow_account@,
            contributor: contributor_id,
        }
    }
}

impl ReleaseFunds {
    /// The request as the model sees it.
    pub open spec fn operation(&self) -> Operation {
        Operation::Release {
            caller: self.maintainer,
            key: self.escrow_account@,
            target: self.contributor,
        }
    }
}

impl Refund {
    /// The request as the model sees it.
    pub open spec fn operation(&self) -> Operation {
        Operation::Refund { caller: self.maintainer, key: self.escrow_account@ }
    }
}

} // verus!
