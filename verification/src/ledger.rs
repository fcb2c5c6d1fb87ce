use vstd::prelude::*;
use crate::error::EscrowError;
use crate::identity::Identity;
use crate::lemmas::{lemma_sum_bounds_item, lemma_sum_take, lemma_sum_take_bounded};
use crate::model::{sum_by, LedgerView, RecordView, WalletView};
use crate::structs::{EscrowAccount, RecordHandle, Wallet};

verus! {

/// The records of all escrows and the wallets of all parties.
///
/// Value enters a ledger through [`Ledger::fund_wallet`] and
/// [`Ledger::restore`] only; the escrow operations move it between wallets
/// and records and neither make nor lose any.  A ledger whose records are
/// consistent keeps them so; one that was only ever worked on by the
/// operations and `fund_wallet` has no other.
pub struct Ledger {
    pub(crate) records: Vec<EscrowAccount>,
    pub(crate) wallets: Vec<Wallet>,
}

impl Ledger {
    /// The ledger as a mathematical value.
    pub open(crate) spec fn view(&self) -> LedgerView {
        LedgerView {
            records: self.records@.map_values(|r: EscrowAccount| r@),
            wallets: self.wallets@.map_values(|w: Wallet| w@),
        }
    }

    /// The invariant that every ledger keeps.
    pub open spec fn wf(&self) -> bool {
        self@.wf()
    }

    /// A ledger with no record and no wallet.
    pub fn new() -> (ledger: Ledger)
        ensures
            ledger@ == LedgerView::empty(),
            ledger.wf(),
            ledger@.consistent(),
    {
        let ledger = Ledger { records: Vec::new(), wallets: Vec::new() };
        proof {
            assert(ledger@.records =~= Seq::empty());
            assert(ledger@.wallets =~= Seq::empty());
        }
        ledger
    }

    /// The slot of the record for `key`, where there is one.
    pub(crate) fn find_record(&self, key: &String) -> (found: Option<usize>)
        requires
            self@.distinct(),
        ensures
            match found {
                Some(i) => self@.has_record(key@) && i == self@.slot(key@) && i
                    < self.records.len(),
                None => !self@.has_record(key@),
            },
    {
        let mut i: usize = 0;
        while i < self.records.len()
            invariant
                i <= self.records.len(),
                self@.distinct(),
                forall|j: int| 0 <= j < i ==> (#[trigger] self@.records[j]).issue_id != key@,
            decreases self.records.len() - i,
        {
            if self.records[i].issue_id == *key {
                proof {
                    assert(self@.records[i as int].issue_id == key@);
                    self@.lemma_slot(i as int);
                }
                return Some(i);
            }
            i += 1;
        }
        None
    }

    /// The slot of the wallet of `owner`, where it has one.
    pub(crate) fn find_wallet(&self, owner: &Identity) -> (found: Option<usize>)
        requires
            self@.distinct(),
        ensures
            match found {
                Some(j) => self@.has_wallet(*owner) && j == self@.wallet_slot(*owner) && j
                    < self.wallets.len(),
                None => !self@.has_wallet(*owner),
            },
    {
        let mut j: usize = 0;
        while j < self.wallets.len()
            invariant
                j <= self.wallets.len(),
                self@.distinct(),
                forall|k: int| 0 <= k < j ==> (#[trigger] self@.wallets[k]).owner != *owner,
            decreases self.wallets.len() - j,
        {
            if self.wallets[j].owner.same(owner) {
                proof {
                    assert(self@.wallets[j as int].owner == *owner);
                    self@.lemma_wallet_slot(j as int);
                }
                return Some(j);
            }
            j += 1;
        }
        None
    }

    /// What `owner` holds outside any escrow.
    pub fn balance_of(&self, owner: &Identity) -> (balance: u64)
        requires
            self.wf(),
        ensures
            balance == self@.balance(*owner),
    {
        match self.find_wallet(owner) {
            Some(j) => self.wallets[j].balance,
            None => 0,
        }
    }

    /// The record that answers to `handle`, where there is one.
    pub fn lookup(&self, handle: &RecordHandle) -> (found: Option<&EscrowAccount>)
        requires
            self.wf(),
        ensures
            match found {
                Some(record) => self@.has_record(handle@) && record@ == self@.record(handle@),
                None => !self@.has_record(handle@),
            },
    {
        match self.find_record(&handle.key) {
            Some(i) => Some(&self.records[i]),
            None => None,
        }
    }

    /// Adds `amount` to what `owner` holds.
    pub(crate) fn credit(&mut self, owner: &Identity, amount: u64)
        requires
            old(self)@.distinct(),
            old(self)@.total() + amount <= u64::MAX,
        ensures
            final(self)@ == old(self)@.credit(*owner, amount as nat),
            final(self).records == old(self).records,
    {
        let ghost f = |w: WalletView| w.balance;
        match self.find_wallet(owner) {
            Some(j) => {
                proof {
                    lemma_sum_bounds_item(self@.wallets, f, j as int);
                }
                self.wallets[j].balance = self.wallets[j].balance + amount;
                proof {
                    assert(self@.wallets =~= old(self)@.credit(*owner, amount as nat).wallets);
                    assert(self@.records =~= old(self)@.records);
                }
            },
            None => {
                self.wallets.push(Wallet { owner: *owner, balance: amount });
                proof {
                    assert(self@.wallets =~= old(self)@.credit(*owner, amount as nat).wallets);
                    assert(self@.records =~= old(self)@.records);
                }
            },
        }
    }

    /// Takes `amount` from what `owner` holds.
    pub(crate) fn debit(&mut self, owner: &Identity, amount: u64)
        requires
            old(self)@.distinct(),
            old(self)@.balance(*owner) >= amount,
        ensures
            final(self)@ == old(self)@.debit(*owner, amount as nat),
            final(self).records == old(self).records,
    {
        match self.find_wallet(owner) {
            Some(j) => {
                self.wallets[j].balance = self.wallets[j].balance - amount;
                proof {
                    assert(self@.wallets =~= old(self)@.debit(*owner, amount as nat).wallets);
                    assert(self@.records =~= old(self)@.records);
                }
            },
            None => {},
        }
    }

    /// Moves `amount` from the wallet of `from` into the custody of the record
    /// in `slot`, or nothing at all where `from` holds less than that.
    pub(crate) fn move_in(&mut self, from: &Identity, slot: usize, amount: u64) -> (moved: Result<
        (),
        EscrowError,
    >)
        requires
            old(self).wf(),
            slot < old(self)@.records.len(),
        ensures
            moved is Ok <==> old(self)@.balance(*from) >= amount,
            moved is Err ==> moved == Err::<(), EscrowError>(EscrowError::InsufficientFunds)
                && final(self)@ == old(self)@,
            moved is Ok ==> final(self)@ == old(self)@.moved_in(*from, slot as int, amount as nat),
            final(self).records.len() == old(self).records.len(),
    {
        if self.balance_of(from) < amount {
            return Err(EscrowError::InsufficientFunds);
        }
        proof {
            if self@.has_wallet(*from) {
                let j = self@.wallet_slot(*from);
                self@.lemma_wallet_slot_valid(*from);
                lemma_sum_bounds_item(self@.wallets, |w: WalletView| w.balance, j);
            }
            lemma_sum_bounds_item(self@.records, |r: RecordView| r.custody, slot as int);
        }
        self.records[slot].custody = self.records[slot].custody + amount;
        proof {
            let r = old(self)@.records[slot as int];
            let stepped = LedgerView {
                records: old(self)@.records.update(
                    slot as int,
                    RecordView { custody: r.custody + amount as nat, ..r },
                ),
                ..old(self)@
            };
            assert(self@.records =~= stepped.records);
            assert(self@.wallets =~= stepped.wallets);
            old(self)@.lemma_record_update(
                slot as int,
                RecordView { custody: r.custody + amount as nat, ..r },
            );
        }
        self.debit(from, amount);
        Ok(())
    }

    /// Moves `amount` out of the custody of the record in `slot` into the
    /// wallet of `to`, or nothing at all where the record holds less than that.
    pub(crate) fn move_out(&mut self, slot: usize, to: &Identity, amount: u64) -> (moved: Result<
        (),
        EscrowError,
    >)
        requires
            old(self).wf(),
            slot < old(self)@.records.len(),
        ensures
            moved is Ok <==> old(self)@.records[slot as int].custody >= amount,
            moved is Err ==> moved == Err::<(), EscrowError>(EscrowError::InsufficientCustody)
                && final(self)@ == old(self)@,
            moved is Ok ==> final(self)@ == old(self)@.moved_out(slot as int, *to, amount as nat),
            final(self).records.len() == old(self).records.len(),
    {
        if self.records[slot].custody < amount {
            return Err(EscrowError::InsufficientCustody);
        }
        self.records[slot].custody = self.records[slot].custody - amount;
        proof {
            let r = old(self)@.records[slot as int];
            let lowered = RecordView { custody: (r.custody - amount as nat) as nat, ..r };
            let stepped = LedgerView {
                records: old(self)@.records.update(slot as int, lowered),
                ..old(self)@
            };
            assert(self@.records =~= stepped.records);
            assert(self@.wallets =~= stepped.wallets);
            old(self)@.lemma_record_update(slot as int, lowered);
        }
        self.credit(to, amount);
        Ok(())
    }

    /// All value in the ledger: what the wallets hold and what the records
    /// hold in custody.
    pub fn total_value(&self) -> (total: u64)
        requires
            self.wf(),
        ensures
            total == self@.total(),
    {
        let ghost f = |w: WalletView| w.balance;
        let ghost g = |r: RecordView| r.custody;
        let mut total: u64 = 0;
        let mut j: usize = 0;
        while j < self.wallets.len()
            invariant
                j <= self.wallets.len(),
                self.wf(),
                f == |w: WalletView| w.balance,
                total == sum_by(self@.wallets.take(j as int), f),
            decreases self.wallets.len() - j,
        {
            proof {
                lemma_sum_take(self@.wallets, f, j as int + 1);
                lemma_sum_take_bounded(self@.wallets, f, j as int + 1);
            }
            total = total + self.wallets[j].balance;
            j += 1;
        }
        proof {
            assert(self@.wallets.take(j as int) =~= self@.wallets);
        }
        let mut i: usize = 0;
        while i < self.records.len()
            invariant
                i <= self.records.len(),
                self.wf(),
                g == |r: RecordView| r.custody,
                total == sum_by(self@.wallets, |w: WalletView| w.balance) + sum_by(
                    self@.records.take(i as int),
                    g,
                ),
            decreases self.records.len() - i,
        {
            proof {
                lemma_sum_take(self@.records, g, i as int + 1);
                lemma_sum_take_bounded(self@.records, g, i as int + 1);
            }
            total = total + self.records[i].custody;
            i += 1;
        }
        proof {
            assert(self@.records.take(i as int) =~= self@.records);
        }
        total
    }

    /// Puts `amount` of new value into the wallet of `owner`, unless the
    /// ledger would then hold more than a `u64` can count.
    pub fn fund_wallet(&mut self, owner: &Identity, amount: u64) -> (funded: bool)
        requires
            old(self).wf(),
        ensures
            final(self).wf(),
            funded == (old(self)@.total() + amount <= u64::MAX),
            old(self)@.consistent() ==> final(self)@.consistent(),
            final(self)@ == if funded {
                old(self)@.credit(*owner, amount as nat)
            } else {
                old(self)@
            },
    {
        if amount > u64::MAX - self.total_value() {
            return false;
        }
        proof {
            self@.lemma_credit(*owner, amount as nat);
        }
        self.credit(owner, amount);
        true
    }

    /// Takes in a record as it stands, with what it holds in custody, unless
    /// its issue has a record already or the ledger would then hold more than
    /// a `u64` can count.
    pub fn restore(&mut self, record: EscrowAccount) -> (restored: Option<RecordHandle>)
        requires
            old(self).wf(),
        ensures
            final(self).wf(),
            restored is Some <==> !old(self)@.has_record(record@.issue_id) && old(self)@.total()
                + record.custody <= u64::MAX,
            restored matches Some(handle) ==> handle@ == record@.issue_id,
            old(self)@.consistent() && record@.consistent() ==> final(self)@.consistent(),
            final(self)@ == if restored is Some {
                LedgerView { records: old(self)@.records.push(record@), ..old(self)@ }
            } else {
                old(self)@
            },
    {
        if self.find_record(&record.issue_id).is_some() {
            return None;
        }
        if record.custody > u64::MAX - self.total_value() {
            return None;
        }
        let handle = RecordHandle::for_issue(&record.issue_id);
        proof {
            self@.lemma_record_push(record@);
        }
        self.records.push(record);
        proof {
            let post = LedgerView { records: old(self)@.records.push(record@), ..old(self)@ };
            assert(self@.records =~= post.records);
            assert(self@.wallets =~= post.wallets);
        }
        Some(handle)
    }
}

} // verus!
