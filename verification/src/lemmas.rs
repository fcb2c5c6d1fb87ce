//! Lemmas about sums and about what the steps of the model do, on which the
//! operations and the laws rest.

use vstd::prelude::*;
use crate::identity::Identity;
use crate::model::{sum_by, LedgerView, Operation, RecordView, WalletView};

verus! {

/// Adding an item adds what it counts for.
pub proof fn lemma_sum_push<T>(s: Seq<T>, f: spec_fn(T) -> nat, x: T)
    ensures
        sum_by(s.push(x), f) == sum_by(s, f) + f(x),
{
    assert(s.push(x).drop_last() =~= s);
}

/// Replacing an item takes what it counted for and adds what the new one
/// counts for.
pub proof fn lemma_sum_update<T>(s: Seq<T>, f: spec_fn(T) -> nat, i: int, x: T)
    requires
        0 <= i < s.len(),
    ensures
        sum_by(s.update(i, x), f) == sum_by(s, f) - f(s[i]) + f(x),
    decreases s.len(),
{
    if i == s.len() - 1 {
        assert(s.update(i, x).drop_last() =~= s.drop_last());
    } else {
        lemma_sum_update(s.drop_last(), f, i, x);
        assert(s.update(i, x).drop_last() =~= s.drop_last().update(i, x));
    }
}

/// Removing an item takes what it counted for.
pub proof fn lemma_sum_remove<T>(s: Seq<T>, f: spec_fn(T) -> nat, i: int)
    requires
        0 <= i < s.len(),
    ensures
        sum_by(s.remove(i), f) == sum_by(s, f) - f(s[i]),
    decreases s.len(),
{
    if i == s.len() - 1 {
        assert(s.remove(i) =~= s.drop_last());
    } else {
        lemma_sum_remove(s.drop_last(), f, i);
        assert(s.remove(i).drop_last() =~= s.drop_last().remove(i));
    }
}

/// No item counts for more than the whole sum.
pub proof fn lemma_sum_bounds_item<T>(s: Seq<T>, f: spec_fn(T) -> nat, i: int)
    requires
        0 <= i < s.len(),
    ensures
        f(s[i]) <= sum_by(s, f),
{
    lemma_sum_remove(s, f, i);
}

/// The sum over the first `n` items is the sum over the first `n - 1` and the
/// item that follows them.
pub proof fn lemma_sum_take<T>(s: Seq<T>, f: spec_fn(T) -> nat, n: int)
    requires
        0 < n <= s.len(),
    ensures
        sum_by(s.take(n), f) == sum_by(s.take(n - 1), f) + f(s[n - 1]),
{
    assert(s.take(n).drop_last() =~= s.take(n - 1));
}

/// The sum over a prefix is no more than the sum over the whole.
pub proof fn lemma_sum_take_bounded<T>(s: Seq<T>, f: spec_fn(T) -> nat, n: int)
    requires
        0 <= n <= s.len(),
    ensures
        sum_by(s.take(n), f) <= sum_by(s, f),
    decreases s.len() - n,
{
    if n == s.len() {
        assert(s.take(n) =~= s);
    } else {
        lemma_sum_take(s, f, n + 1);
        lemma_sum_take_bounded(s, f, n + 1);
    }
}

impl LedgerView {
    /// Where keys are distinct, the record found for a key is the one that
    /// carries it.
    pub proof fn lemma_slot(self, i: int)
        requires
            self.distinct(),
            0 <= i < self.records.len(),
        ensures
            self.has_record(self.records[i].issue_id),
            self.slot(self.records[i].issue_id) == i,
    {
        let key = self.records[i].issue_id;
        let j = self.slot(key);
        assert(0 <= j < self.records.len() && self.records[j].issue_id == key);
        if j < i {
            assert(self.records[j].issue_id != self.records[i].issue_id);
        } else if i < j {
            assert(self.records[i].issue_id != self.records[j].issue_id);
        }
    }

    /// Where owners are distinct, the wallet found for an owner is the one
    /// that carries it.
    pub proof fn lemma_wallet_slot(self, j: int)
        requires
            self.distinct(),
            0 <= j < self.wallets.len(),
        ensures
            self.has_wallet(self.wallets[j].owner),
            self.wallet_slot(self.wallets[j].owner) == j,
            self.balance(self.wallets[j].owner) == self.wallets[j].balance,
    {
        let owner = self.wallets[j].owner;
        let k = self.wallet_slot(owner);
        assert(0 <= k < self.wallets.len() && self.wallets[k].owner == owner);
        if k < j {
            assert(self.wallets[k].owner != self.wallets[j].owner);
        } else if j < k {
            assert(self.wallets[j].owner != self.wallets[k].owner);
        }
    }

    /// The slot found for a key that has a record holds a record with that key.
    pub proof fn lemma_slot_valid(self, key: Seq<char>)
        requires
            self.has_record(key),
        ensures
            0 <= self.slot(key) < self.records.len(),
            self.record(key).issue_id == key,
    {
    }

    /// The slot found for an owner that has a wallet holds a wallet of that
    /// owner.
    pub proof fn lemma_wallet_slot_valid(self, owner: Identity)
        requires
            self.has_wallet(owner),
        ensures
            0 <= self.wallet_slot(owner) < self.wallets.len(),
            self.wallets[self.wallet_slot(owner)].owner == owner,
    {
    }
}


impl LedgerView {
    /// What a credit does: the payee holds `amount` more, nobody else's
    /// balance moves, the records stay as they are.
    pub proof fn lemma_credit(self, owner: Identity, amount: nat)
        requires
            self.distinct(),
        ensures
            self.credit(owner, amount).distinct(),
            self.credit(owner, amount).records == self.records,
            self.credit(owner, amount).total() == self.total() + amount,
            self.credit(owner, amount).balance(owner) == self.balance(owner) + amount,
            forall|o: Identity|
                o != owner ==> self.credit(owner, amount).balance(o) == self.balance(o),
    {
        let post = self.credit(owner, amount);
        let f = |w: WalletView| w.balance;
        if self.has_wallet(owner) {
            let j = self.wallet_slot(owner);
            self.lemma_wallet_slot_valid(owner);
            lemma_sum_update(self.wallets, f, j, post.wallets[j]);
            assert(post.distinct());
            post.lemma_wallet_slot(j);
            assert forall|o: Identity| o != owner implies post.balance(o) == self.balance(o) by {
                self.lemma_balance_kept(post, o);
            }
        } else {
            let n = self.wallets.len() as int;
            lemma_sum_push(self.wallets, f, WalletView { owner, balance: amount });
            assert(post.distinct());
            post.lemma_wallet_slot(n);
            assert forall|o: Identity| o != owner implies post.balance(o) == self.balance(o) by {
                self.lemma_balance_kept(post, o);
            }
        }
    }

    /// What a debit does: the payer holds `amount` less, nobody else's balance
    /// moves, the records stay as they are.
    pub proof fn lemma_debit(self, owner: Identity, amount: nat)
        requires
            self.distinct(),
            self.balance(owner) >= amount,
        ensures
            self.debit(owner, amount).distinct(),
            self.debit(owner, amount).records == self.records,
            self.debit(owner, amount).total() == self.total() - amount,
            self.debit(owner, amount).balance(owner) == self.balance(owner) - amount,
            forall|o: Identity|
                o != owner ==> self.debit(owner, amount).balance(o) == self.balance(o),
    {
        let post = self.debit(owner, amount);
        let f = |w: WalletView| w.balance;
        if self.has_wallet(owner) {
            let j = self.wallet_slot(owner);
            self.lemma_wallet_slot_valid(owner);
            lemma_sum_update(self.wallets, f, j, post.wallets[j]);
            assert(post.distinct());
            post.lemma_wallet_slot(j);
            assert forall|o: Identity| o != owner implies post.balance(o) == self.balance(o) by {
                self.lemma_balance_kept(post, o);
            }
        }
    }

    /// A wallet that `post` holds as `self` does keeps its balance.
    pub proof fn lemma_balance_kept(self, post: LedgerView, o: Identity)
        requires
            self.distinct(),
            post.distinct(),
            self.wallets.len() <= post.wallets.len(),
            forall|k: int|
                0 <= k < self.wallets.len() && (#[trigger] self.wallets[k]).owner == o
                    ==> post.wallets[k] == self.wallets[k],
            forall|k: int|
                0 <= k < post.wallets.len() && (#[trigger] post.wallets[k]).owner == o ==> k
                    < self.wallets.len() && self.wallets[k].owner == o,
        ensures
            post.balance(o) == self.balance(o),
    {
        if self.has_wallet(o) {
            let k = self.wallet_slot(o);
            self.lemma_wallet_slot_valid(o);
            assert(post.wallets[k] == self.wallets[k]);
            post.lemma_wallet_slot(k);
        } else if post.has_wallet(o) {
            let k = post.wallet_slot(o);
            post.lemma_wallet_slot_valid(o);
            assert(self.wallets[k].owner == o);
        }
    }
}


impl LedgerView {
    /// Replacing the record in slot `i` by one for the same issue touches no
    /// other record and no wallet.
    pub proof fn lemma_record_update(self, i: int, r: RecordView)
        requires
            self.distinct(),
            0 <= i < self.records.len(),
            r.issue_id == self.records[i].issue_id,
        ensures
            ({
                let post = LedgerView { records: self.records.update(i, r), ..self };
                &&& post.distinct()
                &&& post.total() == self.total() - self.records[i].custody + r.custody
                &&& post.has_record(r.issue_id)
                &&& post.record(r.issue_id) == r
                &&& forall|k: Seq<char>| post.has_record(k) == self.has_record(k)
                &&& forall|k: Seq<char>|
                    k != r.issue_id && self.has_record(k) ==> post.record(k) == self.record(k)
            }),
    {
        let post = LedgerView { records: self.records.update(i, r), ..self };
        lemma_sum_update(self.records, |r: RecordView| r.custody, i, r);
        assert(post.distinct());
        post.lemma_slot(i);
        assert forall|k: Seq<char>| post.has_record(k) == self.has_record(k) by {
            if self.has_record(k) {
                let j = self.slot(k);
                assert(post.records[j].issue_id == k);
            }
            if post.has_record(k) {
                let j = post.slot(k);
                assert(self.records[j].issue_id == k);
            }
        }
        assert forall|k: Seq<char>| k != r.issue_id && self.has_record(k) implies post.record(k)
            == self.record(k) by {
            let j = self.slot(k);
            assert(post.records[j] == self.records[j]);
            post.lemma_slot(j);
        }
    }

    /// Adding a record for an issue that has none touches no other record and
    /// no wallet.
    pub proof fn lemma_record_push(self, r: RecordView)
        requires
            self.distinct(),
            !self.has_record(r.issue_id),
        ensures
            ({
                let post = LedgerView { records: self.records.push(r), ..self };
                &&& post.distinct()
                &&& post.total() == self.total() + r.custody
                &&& post.has_record(r.issue_id)
                &&& post.record(r.issue_id) == r
                &&& forall|k: Seq<char>|
                    k != r.issue_id ==> post.has_record(k) == self.has_record(k)
                &&& forall|k: Seq<char>|
                    k != r.issue_id && self.has_record(k) ==> post.record(k) == self.record(k)
            }),
    {
        let post = LedgerView { records: self.records.push(r), ..self };
        let n = self.records.len() as int;
        lemma_sum_push(self.records, |r: RecordView| r.custody, r);
        assert forall|a: int, b: int| 0 <= a < b < post.records.len() implies (
        #[trigger] post.records[a]).issue_id != (#[trigger] post.records[b]).issue_id by {
            if b == n {
                assert(self.records[a].issue_id != r.issue_id);
            }
        }
        post.lemma_slot(n);
        assert forall|k: Seq<char>| k != r.issue_id implies post.has_record(k) == self.has_record(
            k,
        ) by {
            if self.has_record(k) {
                let j = self.slot(k);
                assert(post.records[j].issue_id == k);
            }
            if post.has_record(k) {
                let j = post.slot(k);
                assert(self.records[j].issue_id == k);
            }
        }
        assert forall|k: Seq<char>| k != r.issue_id && self.has_record(k) implies post.record(k)
            == self.record(k) by {
            let j = self.slot(k);
            assert(post.records[j] == self.records[j]);
            post.lemma_slot(j);
        }
    }

    /// Taking the record out of slot `i` touches no other record and no
    /// wallet.
    pub proof fn lemma_record_remove(self, i: int)
        requires
            self.distinct(),
            0 <= i < self.records.len(),
        ensures
            ({
                let post = LedgerView { records: self.records.remove(i), ..self };
                let key = self.records[i].issue_id;
                &&& post.distinct()
                &&& post.total() == self.total() - self.records[i].custody
                &&& !post.has_record(key)
                &&& forall|k: Seq<char>| k != key ==> post.has_record(k) == self.has_record(k)
                &&& forall|k: Seq<char>|
                    k != key && self.has_record(k) ==> post.record(k) == self.record(k)
            }),
    {
        let post = LedgerView { records: self.records.remove(i), ..self };
        let key = self.records[i].issue_id;
        lemma_sum_remove(self.records, |r: RecordView| r.custody, i);
        assert forall|a: int| 0 <= a < post.records.len() implies #[trigger] post.records[a]
            == self.records[if a < i {
            a
        } else {
            a + 1
        }] by {}
        assert forall|a: int, b: int| 0 <= a < b < post.records.len() implies (
        #[trigger] post.records[a]).issue_id != (#[trigger] post.records[b]).issue_id by {
            let a0 = if a < i { a } else { a + 1 };
            let b0 = if b < i { b } else { b + 1 };
            assert(self.records[a0].issue_id != self.records[b0].issue_id);
        }
        if post.has_record(key) {
            let j = post.slot(key);
            let j0 = if j < i { j } else { j + 1 };
            assert(self.records[j0].issue_id == key);
            if j0 < i {
                assert(self.records[j0].issue_id != self.records[i].issue_id);
            } else {
                assert(self.records[i].issue_id != self.records[j0].issue_id);
            }
        }
        assert forall|k: Seq<char>| k != key implies post.has_record(k) == self.has_record(k) by {
            if self.has_record(k) {
                let j = self.slot(k);
                let j1 = if j < i { j } else { j - 1 };
                assert(post.records[j1].issue_id == k);
            }
            if post.has_record(k) {
                let j = post.slot(k);
                let j0 = if j < i { j } else { j + 1 };
                assert(self.records[j0].issue_id == k);
            }
        }
        assert forall|k: Seq<char>| k != key && self.has_record(k) implies post.record(k)
            == self.record(k) by {
            let j = self.slot(k);
            let j1 = if j < i { j } else { j - 1 };
            assert(post.records[j1] == self.records[j]);
            post.lemma_slot(j1);
        }
    }
}


impl LedgerView {
    /// All that one operation does to a ledger that keeps its invariant.
    pub proof fn lemma_apply(self, op: Operation)
        requires
            self.wf(),
        ensures
            self.apply(op).wf(),
            self.apply(op).total() == self.total(),
            forall|who: Identity|
                self.apply(op).balance(who) == self.balance(who) + self.balance_change(op, who),
            forall|other: Seq<char>|
                other != op.key() ==> self.apply(op).has_record(other) == self.has_record(other),
            forall|other: Seq<char>|
                other != op.key() && self.has_record(other) ==> self.apply(op).record(other)
                    == self.record(other),
            self.outcome(op) is Ok ==> match op {
                Operation::Initialize { maintainer, amount, issue_id } => self.apply(
                    op,
                ).has_record(issue_id) && self.apply(op).record(issue_id) == RecordView::fresh(
                    maintainer,
                    amount,
                    issue_id,
                ),
                Operation::Close { key, .. } => !self.apply(op).has_record(key),
                _ => self.apply(op).has_record(op.key()) && self.apply(op).record(op.key())
                    == self.record(op.key()).after(op),
            },
    {
        let post = self.apply(op);
        if self.outcome(op) is Ok {
            match op {
                Operation::Initialize { maintainer, amount, issue_id } => {
                    self.lemma_record_push(RecordView::fresh(maintainer, amount, issue_id));
                    assert forall|who: Identity| post.balance(who) == self.balance(who) by {}
                },
                Operation::Close { .. } => {
                    let i = self.slot(op.key());
                    let r = self.records[i];
                    self.lemma_record_remove(i);
                    let removed = LedgerView { records: self.records.remove(i), ..self };
                    removed.lemma_credit(r.maintainer, r.custody);
                    assert(post == removed.credit(r.maintainer, r.custody));
                    assert forall|who: Identity|
                        post.balance(who) == self.balance(who) + self.balance_change(
                            op,
                            who,
                        ) by {
                        assert(removed.balance(who) == self.balance(who));
                    }
                },
                _ => {
                    let i = self.slot(op.key());
                    let r = self.records[i];
                    let stepped = LedgerView {
                        records: self.records.update(i, r.after(op)),
                        ..self
                    };
                    self.lemma_record_update(i, r.after(op));
                    assert forall|who: Identity| stepped.balance(who) == self.balance(who) by {}
                    match op {
                        Operation::Deposit { caller, amount, .. } => {
                            assert(stepped.balance(caller) == self.balance(caller));
                            stepped.lemma_debit(caller, amount);
                            assert(post == stepped.debit(caller, amount));
                        },
                        Operation::Release { target, .. } => {
                            stepped.lemma_credit(target, r.amount);
                            assert(post == stepped.credit(target, r.amount));
                        },
                        Operation::Refund { .. } => {
                            stepped.lemma_credit(r.maintainer, r.amount);
                            assert(post == stepped.credit(r.maintainer, r.amount));
                        },
                        _ => {
                            assert(post == stepped);
                        },
                    }
                    assert forall|who: Identity|
                        post.balance(who) == self.balance(who) + self.balance_change(
                            op,
                            who,
                        ) by {
                        assert(stepped.balance(who) == self.balance(who));
                    }
                },
            }
        }
    }

    /// An operation that moves funds does two things: the custody move that
    /// it asks for, and the change of the record's state.
    pub proof fn lemma_move_then_state(self, op: Operation)
        requires
            self.wf(),
            self.outcome(op) is Ok,
            op is Deposit || op is Release || op is Refund,
        ensures
            self.apply(op) == self.moved(op).with_state(
                self.slot(op.key()),
                self.record(op.key()).after(op).state,
            ),
    {
        let i = self.slot(op.key());
        let r = self.records[i];
        let post = self.moved(op).with_state(i, r.after(op).state);
        let held: nat = match op {
            Operation::Deposit { amount, .. } => r.custody + amount,
            _ => (r.custody - r.amount) as nat,
        };
        let stepped = LedgerView {
            records: self.records.update(i, RecordView { custody: held, ..r }),
            ..self
        };
        self.lemma_record_update(i, RecordView { custody: held, ..r });
        match op {
            Operation::Deposit { caller, amount, .. } => {
                assert(stepped.balance(caller) == self.balance(caller));
                stepped.lemma_debit(caller, amount);
            },
            Operation::Release { target, .. } => {
                stepped.lemma_credit(target, r.amount);
            },
            _ => {
                stepped.lemma_credit(r.maintainer, r.amount);
            },
        }
        assert(post.records =~= self.apply(op).records);
        assert(post.wallets =~= self.apply(op).wallets);
    }
}

} // verus!
