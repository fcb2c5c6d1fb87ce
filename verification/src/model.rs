//! The escrow as mathematics: what a ledger is, what each request does to
//! it, and when a request is refused.  The contracts of the executable
//! operations are stated over these definitions.

use vstd::prelude::*;
use crate::error::EscrowError;
use crate::identity::Identity;
use crate::states::EscrowState;

verus! {

/// What one escrow record is, as a mathematical value.
pub struct RecordView {
    pub maintainer: Identity,
    pub contributor: Option<Identity>,
    pub amount: nat,
    pub issue_id: Seq<char>,
    pub state: EscrowState,
    pub custody: nat,
}

/// The funds that one party holds outside any escrow.
pub struct WalletView {
    pub owner: Identity,
    pub balance: nat,
}

/// The whole ledger as a mathematical value: the records in their slots and
/// the wallets of the parties.
#[verifier::ext_equal]
pub struct LedgerView {
    pub records: Seq<RecordView>,
    pub wallets: Seq<WalletView>,
}

/// A request to the ledger, with the caller that makes it.
pub enum Operation {
    Initialize { maintainer: Identity, amount: nat, issue_id: Seq<char> },
    Deposit { caller: Identity, key: Seq<char>, amount: nat },
    Assign { caller: Identity, key: Seq<char>, contributor: Identity },
    Release { caller: Identity, key: Seq<char>, target: Identity },
    Refund { caller: Identity, key: Seq<char> },
    Close { caller: Identity, key: Seq<char> },
}

/// The sum of `f` over the items of `s`.
pub open spec fn sum_by<T>(s: Seq<T>, f: spec_fn(T) -> nat) -> nat
    decreases s.len(),
{
    if s.len() == 0 {
        0
    } else {
        sum_by(s.drop_last(), f) + f(s.last())
    }
}

impl RecordView {
    /// A record newly created for `issue_id`.
    pub open spec fn fresh(maintainer: Identity, amount: nat, issue_id: Seq<char>) -> RecordView {
        RecordView {
            maintainer,
            contributor: None,
            amount,
            issue_id,
            state: EscrowState::Initialized,
            custody: 0,
        }
    }

    /// The record holds funds exactly while it is funded or assigned, and it
    /// names a contributor once it has been assigned.
    pub open spec fn consistent(self) -> bool {
        &&& self.custody == (if self.state.holds_funds() {
            self.amount
        } else {
            0
        })
        &&& (self.state == EscrowState::Initialized || self.state == EscrowState::Funded
            ==> self.contributor is None)
        &&& (self.state == EscrowState::Assigned || self.state == EscrowState::Completed
            ==> self.contributor is Some)
    }

    /// The guards of `op` on this record, in the order in which they are
    /// evaluated.  The caller's authority comes first.  A deposit is then
    /// held to the bounty before the state is looked at, so that a wrong
    /// amount is a mismatch in every state.  A release is held to the state
    /// first, and only an assigned record goes on to compare the payee with
    /// the contributor it names.
    pub open spec fn guard(self, op: Operation) -> Result<(), EscrowError> {
        match op {
            Operation::Initialize { .. } => Err(EscrowError::RecordAlreadyExists),
            _ => if op.caller() != self.maintainer {
                Err(EscrowError::InvalidAuthority)
            } else if op matches Operation::Deposit { amount, .. } && amount != self.amount {
                Err(EscrowError::AmountMismatch)
            } else if !op.admits(self.state) {
                Err(EscrowError::InvalidState)
            } else if op matches Operation::Release { target, .. } && self.contributor != Some(
                target,
            ) {
                Err(EscrowError::InvalidAuthority)
            } else {
                Ok(())
            },
        }
    }

    /// The record after `op` has passed its guards.
    pub open spec fn after(self, op: Operation) -> RecordView {
        match op {
            Operation::Deposit { amount, .. } => RecordView {
                state: EscrowState::Funded,
                custody: self.custody + amount,
                ..self
            },
            Operation::Assign { contributor, .. } => RecordView {
                state: EscrowState::Assigned,
                contributor: Some(contributor),
                ..self
            },
            Operation::Release { .. } => RecordView {
                state: EscrowState::Completed,
                custody: (self.custody - self.amount) as nat,
                ..self
            },
            Operation::Refund { .. } => RecordView {
                state: EscrowState::Refunded,
                custody: (self.custody - self.amount) as nat,
                ..self
            },
            _ => self,
        }
    }
}

impl Operation {
    /// The party that makes the request.
    pub open spec fn caller(self) -> Identity {
        match self {
            Operation::Initialize { maintainer, .. } => maintainer,
            Operation::Deposit { caller, .. } => caller,
            Operation::Assign { caller, .. } => caller,
            Operation::Release { caller, .. } => caller,
            Operation::Refund { caller, .. } => caller,
            Operation::Close { caller, .. } => caller,
        }
    }

    /// The transition table: the states from which the request may proceed.
    pub open spec fn admits(self, state: EscrowState) -> bool {
        match self {
            Operation::Initialize { .. } => false,
            Operation::Deposit { .. } => state == EscrowState::Initialized,
            Operation::Assign { .. } => state == EscrowState::Funded,
            Operation::Release { .. } => state == EscrowState::Assigned,
            Operation::Refund { .. } => state.holds_funds(),
            Operation::Close { .. } => state == EscrowState::Initialized,
        }
    }

    /// Whether the request, where it succeeds, pays the bounty out of custody.
    pub open spec fn pays_out(self) -> bool {
        self is Release || self is Refund
    }

    /// The issue whose record the request addresses.
    pub open spec fn key(self) -> Seq<char> {
        match self {
            Operation::Initialize { issue_id, .. } => issue_id,
            Operation::Deposit { key, .. } => key,
            Operation::Assign { key, .. } => key,
            Operation::Release { key, .. } => key,
            Operation::Refund { key, .. } => key,
            Operation::Close { key, .. } => key,
        }
    }
}

impl LedgerView {
    /// The ledger with no record and no wallet.
    pub open spec fn empty() -> LedgerView {
        LedgerView { records: Seq::empty(), wallets: Seq::empty() }
    }

    /// Whether the issue `key` has a record.
    pub open spec fn has_record(self, key: Seq<char>) -> bool {
        exists|i: int| 0 <= i < self.records.len() && #[trigger] self.records[i].issue_id == key
    }

    /// The slot of the record for `key`, where there is one.
    pub open spec fn slot(self, key: Seq<char>) -> int {
        choose|i: int| 0 <= i < self.records.len() && #[trigger] self.records[i].issue_id == key
    }

    /// The record for `key`, where there is one.
    pub open spec fn record(self, key: Seq<char>) -> RecordView {
        self.records[self.slot(key)]
    }

    /// Whether `owner` has a wallet.
    pub open spec fn has_wallet(self, owner: Identity) -> bool {
        exists|j: int| 0 <= j < self.wallets.len() && #[trigger] self.wallets[j].owner == owner
    }

    /// The slot of the wallet of `owner`, where it has one.
    pub open spec fn wallet_slot(self, owner: Identity) -> int {
        choose|j: int| 0 <= j < self.wallets.len() && #[trigger] self.wallets[j].owner == owner
    }

    /// What `owner` holds outside any escrow; nothing where it has no wallet.
    pub open spec fn balance(self, owner: Identity) -> nat {
        if self.has_wallet(owner) {
            self.wallets[self.wallet_slot(owner)].balance
        } else {
            0
        }
    }

    /// All value in the ledger: what the wallets hold and what the records
    /// hold in custody.
    pub open spec fn total(self) -> nat {
        sum_by(self.wallets, |w: WalletView| w.balance) + sum_by(
            self.records,
            |r: RecordView| r.custody,
        )
    }

    /// No two records answer to one issue and no two wallets to one owner.
    pub open spec fn distinct(self) -> bool {
        &&& forall|i: int, j: int|
            0 <= i < j < self.records.len() ==> #[trigger] self.records[i].issue_id
                != #[trigger] self.records[j].issue_id
        &&& forall|i: int, j: int|
            0 <= i < j < self.wallets.len() ==> #[trigger] self.wallets[i].owner
                != #[trigger] self.wallets[j].owner
    }

    /// The ledger's own invariant: its keys are distinct and all its value
    /// fits in a `u64`.
    pub open spec fn wf(self) -> bool {
        self.distinct() && self.total() <= u64::MAX
    }

    /// Every record is consistent.
    pub open spec fn consistent(self) -> bool {
        forall|i: int| 0 <= i < self.records.len() ==> (#[trigger] self.records[i]).consistent()
    }

    /// The ledger with `amount` added to what `owner` holds.
    pub open spec fn credit(self, owner: Identity, amount: nat) -> LedgerView {
        if self.has_wallet(owner) {
            let j = self.wallet_slot(owner);
            LedgerView {
                wallets: self.wallets.update(
                    j,
                    WalletView { owner, balance: self.wallets[j].balance + amount },
                ),
                ..self
            }
        } else {
            LedgerView { wallets: self.wallets.push(WalletView { owner, balance: amount }), ..self }
        }
    }

    /// The ledger with `amount` taken from what `owner` holds.
    pub open spec fn debit(self, owner: Identity, amount: nat) -> LedgerView
        recommends
            self.balance(owner) >= amount,
    {
        if self.has_wallet(owner) {
            let j = self.wallet_slot(owner);
            LedgerView {
                wallets: self.wallets.update(
                    j,
                    WalletView { owner, balance: (self.wallets[j].balance - amount) as nat },
                ),
                ..self
            }
        } else {
            self
        }
    }

    /// The ledger after `amount` has moved from the wallet of `from` into the
    /// custody of the record in slot `i`.
    pub open spec fn moved_in(self, from: Identity, i: int, amount: nat) -> LedgerView {
        let r = self.records[i];
        LedgerView {
            records: self.records.update(i, RecordView { custody: r.custody + amount, ..r }),
            ..self
        }.debit(from, amount)
    }

    /// The ledger after `amount` has moved out of the custody of the record in
    /// slot `i` into the wallet of `to`.
    pub open spec fn moved_out(self, i: int, to: Identity, amount: nat) -> LedgerView {
        let r = self.records[i];
        LedgerView {
            records: self.records.update(
                i,
                RecordView { custody: (r.custody - amount) as nat, ..r },
            ),
            ..self
        }.credit(to, amount)
    }

    /// The ledger after the custody move that `op` asks for, the record's
    /// state still as it was.
    pub open spec fn moved(self, op: Operation) -> LedgerView {
        let i = self.slot(op.key());
        let r = self.records[i];
        match op {
            Operation::Deposit { caller, amount, .. } => self.moved_in(caller, i, amount),
            Operation::Release { target, .. } => self.moved_out(i, target, r.amount),
            Operation::Refund { .. } => self.moved_out(i, r.maintainer, r.amount),
            _ => self,
        }
    }

    /// The ledger with the record in slot `i` put in `state`.
    pub open spec fn with_state(self, i: int, state: EscrowState) -> LedgerView {
        LedgerView {
            records: self.records.update(i, RecordView { state, ..self.records[i] }),
            ..self
        }
    }

    /// Whether `op` succeeds on this ledger, and the error where it does not.
    pub open spec fn outcome(self, op: Operation) -> Result<(), EscrowError> {
        match op {
            Operation::Initialize { issue_id, .. } => if self.has_record(issue_id) {
                Err(EscrowError::RecordAlreadyExists)
            } else {
                Ok(())
            },
            _ => if !self.has_record(op.key()) {
                Err(EscrowError::RecordNotFound)
            } else if self.record(op.key()).guard(op) is Err {
                self.record(op.key()).guard(op)
            } else if op matches Operation::Deposit { caller, amount, .. } && self.balance(caller)
                < amount {
                Err(EscrowError::InsufficientFunds)
            } else if op.pays_out() && self.record(op.key()).custody < self.record(
                op.key(),
            ).amount {
                Err(EscrowError::InsufficientCustody)
            } else {
                Ok(())
            },
        }
    }

    /// The ledger after `op`: unchanged where `op` is refused.
    pub open spec fn apply(self, op: Operation) -> LedgerView {
        if self.outcome(op) is Err {
            self
        } else {
            let i = self.slot(op.key());
            let r = self.records[i];
            let stepped = LedgerView { records: self.records.update(i, r.after(op)), ..self };
            match op {
                Operation::Initialize { maintainer, amount, issue_id } => LedgerView {
                    records: self.records.push(RecordView::fresh(maintainer, amount, issue_id)),
                    ..self
                },
                Operation::Deposit { caller, amount, .. } => stepped.debit(caller, amount),
                Operation::Assign { .. } => stepped,
                Operation::Release { target, .. } => stepped.credit(target, r.amount),
                Operation::Refund { .. } => stepped.credit(r.maintainer, r.amount),
                Operation::Close { .. } => LedgerView {
                    records: self.records.remove(i),
                    ..self
                }.credit(r.maintainer, r.custody),
            }
        }
    }

    /// What `op` adds to the balance of `who`; negative where it takes.
    pub open spec fn balance_change(self, op: Operation, who: Identity) -> int {
        if self.outcome(op) is Err {
            0
        } else {
            let r = self.record(op.key());
            match op {
                Operation::Deposit { caller, amount, .. } => if who == caller {
                    -(amount as int)
                } else {
                    0
                },
                Operation::Release { target, .. } => if who == target {
                    r.amount as int
                } else {
                    0
                },
                Operation::Refund { .. } => if who == r.maintainer {
                    r.amount as int
                } else {
                    0
                },
                Operation::Close { .. } => if who == r.maintainer {
                    r.custody as int
                } else {
                    0
                },
                _ => 0,
            }
        }
    }

    /// The ledger after the operations of `ops`, one after the other.
    pub open spec fn run(self, ops: Seq<Operation>) -> LedgerView
        decreases ops.len(),
    {
        if ops.len() == 0 {
            self
        } else {
            self.run(ops.drop_last()).apply(ops.last())
        }
    }
}

} // verus!
