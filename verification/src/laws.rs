//! What holds of the escrow whatever is asked of it.  Each law is stated over
//! the model that the operations' own contracts use, so it holds of every
//! ledger that the operations produce.

use vstd::prelude::*;
use crate::error::EscrowError;
use crate::identity::Identity;
use crate::model::{LedgerView, Operation, RecordView};
use crate::states::EscrowState;

verus! {

/// A refused operation leaves the whole ledger as it was.
pub proof fn refusal_changes_nothing(l: LedgerView, op: Operation)
    requires
        l.outcome(op) is Err,
    ensures
        l.apply(op) == l,
{
}

/// Every operation keeps the ledger's invariant, and none mints or destroys
/// value: what the wallets and the records hold together stays the same.
pub proof fn apply_keeps_invariant_and_value(l: LedgerView, op: Operation)
    requires
        l.wf(),
    ensures
        l.apply(op).wf(),
        l.apply(op).total() == l.total(),
{
    l.lemma_apply(op);
}

/// The same of any sequence of operations.
pub proof fn run_keeps_invariant_and_value(l: LedgerView, ops: Seq<Operation>)
    requires
        l.wf(),
    ensures
        l.run(ops).wf(),
        l.run(ops).total() == l.total(),
    decreases ops.len(),
{
    if ops.len() > 0 {
        run_keeps_invariant_and_value(l, ops.drop_last());
        l.run(ops.drop_last()).lemma_apply(ops.last());
    }
}

/// An operation that succeeds on an existing record leaves in its place the
/// record that the transition table gives; creation leaves a fresh record;
/// closure leaves none.
pub proof fn apply_acts_on_its_record(l: LedgerView, op: Operation)
    requires
        l.wf(),
        l.outcome(op) is Ok,
    ensures
        match op {
            Operation::Initialize { maintainer, amount, issue_id } => l.apply(op).has_record(
                issue_id,
            ) && l.apply(op).record(issue_id) == RecordView::fresh(maintainer, amount, issue_id),
            Operation::Close { key, .. } => !l.apply(op).has_record(key),
            _ => l.apply(op).has_record(op.key()) && l.apply(op).record(op.key()) == l.record(
                op.key(),
            ).after(op),
        },
{
    l.lemma_apply(op);
}

/// No operation reads or changes the record of another issue.
pub proof fn apply_leaves_other_records(l: LedgerView, op: Operation, other: Seq<char>)
    requires
        l.wf(),
        other != op.key(),
    ensures
        l.apply(op).has_record(other) == l.has_record(other),
        l.has_record(other) ==> l.apply(op).record(other) == l.record(other),
{
    l.lemma_apply(op);
}

/// An operation moves exactly the funds that its transition names: a deposit
/// takes the bounty from the caller, a release gives it to the contributor, a
/// refund or a closure gives the maintainer what it is owed, and nobody
/// else's balance moves.
pub proof fn apply_moves_only_named_funds(l: LedgerView, op: Operation, who: Identity)
    requires
        l.wf(),
    ensures
        l.apply(op).balance(who) == l.balance(who) + l.balance_change(op, who),
{
    l.lemma_apply(op);
}

/// Records that are consistent stay so: after any operation every record
/// holds its bounty exactly while it is funded or assigned, and nothing
/// otherwise.
pub proof fn apply_keeps_consistency(l: LedgerView, op: Operation)
    requires
        l.wf(),
        l.consistent(),
    ensures
        l.apply(op).consistent(),
{
    let post = l.apply(op);
    if l.outcome(op) is Ok {
        match op {
            Operation::Initialize { .. } => {},
            Operation::Close { .. } => {
                let i = l.slot(op.key());
                assert forall|k: int| 0 <= k < post.records.len() implies (
                #[trigger] post.records[k]).consistent() by {
                    assert(post.records[k] == l.records[if k < i {
                        k
                    } else {
                        k + 1
                    }]);
                }
            },
            _ => {
                let i = l.slot(op.key());
                assert(l.records[i].after(op).consistent());
                assert forall|k: int| 0 <= k < post.records.len() implies (
                #[trigger] post.records[k]).consistent() by {
                    assert(post.records[k] == if k == i {
                        l.records[i].after(op)
                    } else {
                        l.records[k]
                    });
                }
            },
        }
    }
}

/// The same of any sequence of operations.
pub proof fn run_keeps_consistency(l: LedgerView, ops: Seq<Operation>)
    requires
        l.wf(),
        l.consistent(),
    ensures
        l.run(ops).consistent(),
    decreases ops.len(),
{
    if ops.len() > 0 {
        run_keeps_consistency(l, ops.drop_last());
        run_keeps_invariant_and_value(l, ops.drop_last());
        apply_keeps_consistency(l.run(ops.drop_last()), ops.last());
    }
}

/// A consistent record never lacks the custody that a payout asks for.
pub proof fn consistent_record_covers_its_payout(l: LedgerView, op: Operation)
    requires
        l.has_record(op.key()),
        l.record(op.key()).consistent(),
    ensures
        l.outcome(op) != Err::<(), EscrowError>(EscrowError::InsufficientCustody),
{
}

/// A record is created initialized, with no contributor and nothing in
/// custody, and creation succeeds exactly where the issue has no record yet.
pub proof fn creation_yields_fresh_record(
    l: LedgerView,
    maintainer: Identity,
    amount: nat,
    issue_id: Seq<char>,
)
    requires
        l.wf(),
    ensures
        ({
            let op = Operation::Initialize { maintainer, amount, issue_id };
            &&& l.outcome(op) is Ok <==> !l.has_record(issue_id)
            &&& l.has_record(issue_id) ==> l.outcome(op) == Err::<(), EscrowError>(
                EscrowError::RecordAlreadyExists,
            )
            &&& !l.has_record(issue_id) ==> {
                let r = l.apply(op).record(issue_id);
                &&& l.apply(op).has_record(issue_id)
                &&& r.state == EscrowState::Initialized
                &&& r.contributor is None
                &&& r.custody == 0
                &&& r.maintainer == maintainer
                &&& r.amount == amount
                &&& r.issue_id == issue_id
            }
        }),
{
    l.lemma_apply(Operation::Initialize { maintainer, amount, issue_id });
}

/// A deposit of any amount but the bounty is refused as a mismatch, whatever
/// the record's state, and changes nothing.
pub proof fn mismatched_deposit_is_refused(l: LedgerView, key: Seq<char>, amount: nat)
    requires
        l.has_record(key),
        amount != l.record(key).amount,
    ensures
        ({
            let op = Operation::Deposit { caller: l.record(key).maintainer, key, amount };
            &&& l.outcome(op) == Err::<(), EscrowError>(EscrowError::AmountMismatch)
            &&& l.apply(op) == l
        }),
{
}

/// A deposit of exactly the bounty into an initialized record funds it: the
/// record then holds the bounty and the maintainer holds that much less.
pub proof fn exact_deposit_funds_record(l: LedgerView, key: Seq<char>)
    requires
        l.wf(),
        l.has_record(key),
        l.record(key).consistent(),
        l.record(key).state == EscrowState::Initialized,
        l.balance(l.record(key).maintainer) >= l.record(key).amount,
    ensures
        ({
            let r = l.record(key);
            let op = Operation::Deposit { caller: r.maintainer, key, amount: r.amount };
            &&& l.outcome(op) is Ok
            &&& l.apply(op).has_record(key)
            &&& l.apply(op).record(key).state == EscrowState::Funded
            &&& l.apply(op).record(key).custody == r.amount
            &&& l.apply(op).balance(r.maintainer) == l.balance(r.maintainer) - r.amount
        }),
{
    let r = l.record(key);
    l.lemma_apply(Operation::Deposit { caller: r.maintainer, key, amount: r.amount });
}

/// A deposit of the bounty into a record that is past its initial state is
/// refused for the state it is in.
pub proof fn second_deposit_is_refused(l: LedgerView, key: Seq<char>)
    requires
        l.has_record(key),
        l.record(key).state != EscrowState::Initialized,
    ensures
        ({
            let r = l.record(key);
            let op = Operation::Deposit { caller: r.maintainer, key, amount: r.amount };
            &&& l.outcome(op) == Err::<(), EscrowError>(EscrowError::InvalidState)
            &&& l.apply(op) == l
        }),
{
}

/// The maintainer may name a contributor from the funded state and from no
/// other: elsewhere the request is refused for the state, and the
/// contributor that the record names stays.
pub proof fn assignment_only_from_funded(l: LedgerView, key: Seq<char>, contributor: Identity)
    requires
        l.wf(),
        l.has_record(key),
    ensures
        ({
            let r = l.record(key);
            let op = Operation::Assign { caller: r.maintainer, key, contributor };
            &&& l.outcome(op) is Ok <==> r.state == EscrowState::Funded
            &&& r.state != EscrowState::Funded ==> l.outcome(op) == Err::<(), EscrowError>(
                EscrowError::InvalidState,
            ) && l.apply(op) == l
            &&& r.state == EscrowState::Funded ==> {
                &&& l.apply(op).has_record(key)
                &&& l.apply(op).record(key).state == EscrowState::Assigned
                &&& l.apply(op).record(key).contributor == Some(contributor)
            }
        }),
{
    let r = l.record(key);
    l.lemma_apply(Operation::Assign { caller: r.maintainer, key, contributor });
}

/// A contributor is named once: after the maintainer has named one, a second
/// assignment is refused for the state and the first contributor stays.
pub proof fn assignment_is_had_once(
    l: LedgerView,
    key: Seq<char>,
    first: Identity,
    second: Identity,
)
    requires
        l.wf(),
        l.has_record(key),
        l.record(key).state == EscrowState::Funded,
    ensures
        ({
            let m = l.record(key).maintainer;
            let once = l.apply(Operation::Assign { caller: m, key, contributor: first });
            let again = Operation::Assign { caller: m, key, contributor: second };
            &&& l.outcome(Operation::Assign { caller: m, key, contributor: first }) is Ok
            &&& once.outcome(again) == Err::<(), EscrowError>(EscrowError::InvalidState)
            &&& once.apply(again) == once
            &&& once.has_record(key)
            &&& once.record(key).state == EscrowState::Assigned
            &&& once.record(key).contributor == Some(first)
        }),
{
    let m = l.record(key).maintainer;
    l.lemma_apply(Operation::Assign { caller: m, key, contributor: first });
}

/// A release of a record that is not assigned is refused for the state it is
/// in, whoever is named as payee, and moves nothing.
pub proof fn release_outside_assigned_is_refused(l: LedgerView, key: Seq<char>, target: Identity)
    requires
        l.has_record(key),
        l.record(key).state != EscrowState::Assigned,
    ensures
        ({
            let op = Operation::Release { caller: l.record(key).maintainer, key, target };
            &&& l.outcome(op) == Err::<(), EscrowError>(EscrowError::InvalidState)
            &&& l.apply(op) == l
        }),
{
}

/// A release of an assigned record to anyone but the contributor that it
/// names is refused for want of authority, and moves nothing.
pub proof fn release_to_another_is_refused(l: LedgerView, key: Seq<char>, target: Identity)
    requires
        l.has_record(key),
        l.record(key).state == EscrowState::Assigned,
        l.record(key).contributor != Some(target),
    ensures
        ({
            let op = Operation::Release { caller: l.record(key).maintainer, key, target };
            &&& l.outcome(op) == Err::<(), EscrowError>(EscrowError::InvalidAuthority)
            &&& l.apply(op) == l
        }),
{
}

/// A release of an assigned record to its contributor completes it: the
/// record holds nothing any more and the contributor holds the bounty more.
pub proof fn release_pays_contributor(l: LedgerView, key: Seq<char>, target: Identity)
    requires
        l.wf(),
        l.has_record(key),
        l.record(key).consistent(),
        l.record(key).state == EscrowState::Assigned,
        l.record(key).contributor == Some(target),
    ensures
        ({
            let r = l.record(key);
            let op = Operation::Release { caller: r.maintainer, key, target };
            &&& l.outcome(op) is Ok
            &&& l.apply(op).has_record(key)
            &&& l.apply(op).record(key).state == EscrowState::Completed
            &&& l.apply(op).record(key).custody == 0
            &&& l.apply(op).balance(target) == l.balance(target) + r.amount
            &&& forall|who: Identity| who != target ==> l.apply(op).balance(who) == l.balance(who)
        }),
{
    let r = l.record(key);
    l.lemma_apply(Operation::Release { caller: r.maintainer, key, target });
}

/// A refund is open to the maintainer while the record is funded or
/// assigned: it gives the maintainer exactly the bounty back, leaves the
/// record with nothing, and marks it refunded.
pub proof fn refund_returns_bounty(l: LedgerView, key: Seq<char>)
    requires
        l.wf(),
        l.has_record(key),
        l.record(key).consistent(),
        l.record(key).state.holds_funds(),
    ensures
        ({
            let r = l.record(key);
            let op = Operation::Refund { caller: r.maintainer, key };
            &&& l.outcome(op) is Ok
            &&& l.apply(op).has_record(key)
            &&& l.apply(op).record(key).state == EscrowState::Refunded
            &&& l.apply(op).record(key).custody == 0
            &&& l.apply(op).balance(r.maintainer) == l.balance(r.maintainer) + r.amount
            &&& forall|who: Identity|
                who != r.maintainer ==> l.apply(op).balance(who) == l.balance(who)
        }),
{
    let r = l.record(key);
    l.lemma_apply(Operation::Refund { caller: r.maintainer, key });
}

/// A refund is had once: after the maintainer has taken the bounty back from
/// a record that held it, a second refund is refused for the state, the
/// record stays refunded with nothing in custody, and the maintainer has been
/// credited the bounty once.
pub proof fn refund_is_had_once(l: LedgerView, key: Seq<char>)
    requires
        l.wf(),
        l.has_record(key),
        l.record(key).consistent(),
        l.record(key).state.holds_funds(),
    ensures
        ({
            let r = l.record(key);
            let op = Operation::Refund { caller: r.maintainer, key };
            let once = l.apply(op);
            &&& l.outcome(op) is Ok
            &&& once.outcome(op) == Err::<(), EscrowError>(EscrowError::InvalidState)
            &&& once.apply(op) == once
            &&& once.has_record(key)
            &&& once.record(key).state == EscrowState::Refunded
            &&& once.record(key).custody == 0
            &&& once.apply(op).balance(r.maintainer) == l.balance(r.maintainer) + r.amount
        }),
{
    let r = l.record(key);
    l.lemma_apply(Operation::Refund { caller: r.maintainer, key });
}

/// A refund of a record that holds no funds, as after a first refund, is
/// refused for the state it is in.
pub proof fn second_refund_is_refused(l: LedgerView, key: Seq<char>)
    requires
        l.has_record(key),
        !l.record(key).state.holds_funds(),
    ensures
        ({
            let op = Operation::Refund { caller: l.record(key).maintainer, key };
            &&& l.outcome(op) == Err::<(), EscrowError>(EscrowError::InvalidState)
            &&& l.apply(op) == l
        }),
{
}

/// The maintainer may close a record that was never funded, and no other:
/// the record is gone then, and the maintainer holds what it held in custody.
pub proof fn closure_destroys_unfunded_record(l: LedgerView, key: Seq<char>)
    requires
        l.wf(),
        l.has_record(key),
    ensures
        ({
            let r = l.record(key);
            let op = Operation::Close { caller: r.maintainer, key };
            &&& l.outcome(op) is Ok <==> r.state == EscrowState::Initialized
            &&& r.state != EscrowState::Initialized ==> l.outcome(op) == Err::<(), EscrowError>(
                EscrowError::InvalidState,
            ) && l.apply(op) == l
            &&& r.state == EscrowState::Initialized ==> {
                &&& !l.apply(op).has_record(key)
                &&& l.apply(op).balance(r.maintainer) == l.balance(r.maintainer) + r.custody
            }
        }),
{
    let r = l.record(key);
    l.lemma_apply(Operation::Close { caller: r.maintainer, key });
}

/// A completed or refunded record is final: every request that addresses it
/// is refused, whoever makes it.
pub proof fn terminal_records_are_final(l: LedgerView, op: Operation)
    requires
        l.has_record(op.key()),
        l.record(op.key()).state.terminal(),
    ensures
        l.outcome(op) is Err,
        l.apply(op) == l,
{
}

/// No request succeeds for anyone but the record's maintainer.
pub proof fn only_the_maintainer_acts(l: LedgerView, op: Operation)
    requires
        l.has_record(op.key()),
        op.caller() != l.record(op.key()).maintainer,
        !(op is Initialize),
    ensures
        l.outcome(op) == Err::<(), EscrowError>(EscrowError::InvalidAuthority),
        l.apply(op) == l,
{
}

/// A record only moves forward, along the edges of the transition table, and
/// its maintainer, its issue and its bounty never change while it lives.
pub proof fn records_move_forward(l: LedgerView, op: Operation, key: Seq<char>)
    requires
        l.wf(),
        l.has_record(key),
        l.apply(op).has_record(key),
    ensures
        ({
            let before = l.record(key);
            let after = l.apply(op).record(key);
            &&& after.maintainer == before.maintainer
            &&& after.issue_id == before.issue_id
            &&& after.amount == before.amount
            &&& after.state == before.state || match after.state {
                EscrowState::Initialized => false,
                EscrowState::Funded => before.state == EscrowState::Initialized,
                EscrowState::Assigned => before.state == EscrowState::Funded,
                EscrowState::Completed => before.state == EscrowState::Assigned,
                EscrowState::Refunded => before.state.holds_funds(),
            }
            &&& after.contributor == before.contributor || (before.state == EscrowState::Funded
                && after.state == EscrowState::Assigned)
        }),
{
    l.lemma_apply(op);
}

/// What the life of a record so far has added to the balance of `who`: the
/// maintainer is out of the bounty while the record holds it or has paid it
/// out, and the contributor has the bounty once the record is completed.
pub open spec fn lifetime_change(r: RecordView, who: Identity) -> int {
    let paid_in: int = if who == r.maintainer && (r.state.holds_funds() || r.state
        == EscrowState::Completed) {
        r.amount as int
    } else {
        0
    };
    let paid_out: int = if r.contributor == Some(who) && r.state == EscrowState::Completed {
        r.amount as int
    } else {
        0
    };
    paid_out - paid_in
}

/// Through any sequence of requests that address one issue, begun where the
/// issue has no record, the record stays consistent and every balance
/// differs from its first value by exactly what the record's life accounts
/// for.
pub proof fn lifetime_accounts_for_balances(l: LedgerView, ops: Seq<Operation>, key: Seq<char>)
    requires
        l.wf(),
        !l.has_record(key),
        forall|i: int| 0 <= i < ops.len() ==> (#[trigger] ops[i]).key() == key,
    ensures
        l.run(ops).wf(),
        l.run(ops).has_record(key) ==> l.run(ops).record(key).consistent(),
        forall|who: Identity|
            l.run(ops).balance(who) - l.balance(who) == if l.run(ops).has_record(key) {
                lifetime_change(l.run(ops).record(key), who)
            } else {
                0
            },
    decreases ops.len(),
{
    if ops.len() > 0 {
        let before = l.run(ops.drop_last());
        let op = ops.last();
        lifetime_accounts_for_balances(l, ops.drop_last(), key);
        before.lemma_apply(op);
        assert(op.key() == key);
    }
}

/// Over the whole life of a record, from its creation to a final state, no
/// value is made or lost: what the maintainer and the contributor have
/// gained and lost adds up to nothing, and nobody else's balance has moved.
pub proof fn finished_lifetime_sums_to_zero(l: LedgerView, ops: Seq<Operation>, key: Seq<char>)
    requires
        l.wf(),
        !l.has_record(key),
        forall|i: int| 0 <= i < ops.len() ==> (#[trigger] ops[i]).key() == key,
        l.run(ops).has_record(key),
        l.run(ops).record(key).state.terminal(),
    ensures
        ({
            let end = l.run(ops);
            let r = end.record(key);
            let maintainer_delta = end.balance(r.maintainer) - l.balance(r.maintainer);
            &&& forall|who: Identity|
                who != r.maintainer && r.contributor != Some(who) ==> end.balance(who)
                    == l.balance(who)
            &&& match r.contributor {
                Some(c) => if c == r.maintainer {
                    maintainer_delta == 0
                } else {
                    maintainer_delta + (end.balance(c) - l.balance(c)) == 0
                },
                None => maintainer_delta == 0,
            }
        }),
{
    lifetime_accounts_for_balances(l, ops, key);
    let end = l.run(ops);
    let r = end.record(key);
    assert(end.balance(r.maintainer) - l.balance(r.maintainer) == lifetime_change(
        r,
        r.maintainer,
    ));
    match r.contributor {
        Some(c) => {
            assert(end.balance(c) - l.balance(c) == lifetime_change(r, c));
        },
        None => {},
    }
}

} // verus!
