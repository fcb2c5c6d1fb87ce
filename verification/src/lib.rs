//! An escrow for bounties on issues.  A maintainer opens a record for an
//! issue, funds it with the exact bounty, names a contributor, and then
//! either releases the bounty to that contributor or takes it back.
//!
//! Every operation checks its guards before it changes anything, and a
//! refused operation changes nothing.  What each operation does is stated
//! over the mathematical model in [`model`]; the laws that follow from it are
//! proved in [`laws`].

use vstd::prelude::*;

pub mod error;
pub mod identity;
pub mod laws;
pub mod ledger;
pub mod lemmas;
pub mod model;
pub mod states;
pub mod structs;

use crate::error::EscrowError;
use crate::identity::Identity;
use crate::laws::{apply_keeps_consistency, apply_keeps_invariant_and_value};
use crate::ledger::Ledger;
use crate::model::{LedgerView, RecordView};
use crate::states::EscrowState;
use crate::structs::{
    AssignContributor, CloseEscrow, DepositFunds, EscrowAccount, InitializeEscrow, RecordHandle,
    Refund, ReleaseFunds,
};

verus! {

/// Creates the record of `issue_id` for the maintainer that asks.  The new
/// record is initialized, names no contributor and holds nothing, and the
/// handle returned is the key of the issue.
///
/// Refused with `RecordAlreadyExists` where the issue has a record already.
pub fn initialize_escrow(
    ledger: &mut Ledger,
    ctx: &InitializeEscrow,
    bounty_amount: u64,
    issue_id: String,
) -> (result: Result<RecordHandle, EscrowError>)
    requires
        old(ledger).wf(),
        bounty_amount > 0,
    ensures
        final(ledger).wf(),
        old(ledger)@.consistent() ==> final(ledger)@.consistent(),
        final(ledger)@ == old(ledger)@.apply(ctx.operation(bounty_amount, issue_id@)),
        match result {
            Ok(handle) => handle@ == issue_id@ && old(ledger)@.outcome(
                ctx.operation(bounty_amount, issue_id@),
            ) is Ok,
            Err(e) => old(ledger)@.outcome(ctx.operation(bounty_amount, issue_id@)) == Err::<
                (),
                EscrowError,
            >(e),
        },
{
    proof {
        apply_keeps_invariant_and_value(ledger@, ctx.operation(bounty_amount, issue_id@));
        if ledger@.consistent() {
            apply_keeps_consistency(ledger@, ctx.operation(bounty_amount, issue_id@));
        }
    }
    if ledger.find_record(&issue_id).is_some() {
        return Err(EscrowError::RecordAlreadyExists);
    }
    let handle = RecordHandle::for_issue(&issue_id);
    ledger.records.push(EscrowAccount::new(ctx.maintainer, bounty_amount, issue_id));
    proof {
        assert(ledger@.records =~= old(ledger)@.apply(
            ctx.operation(bounty_amount, issue_id@),
        ).records);
        assert(ledger@.wallets =~= old(ledger)@.wallets);
    }
    Ok(handle)
}

/// Destroys a record that was never funded and hands whatever it holds back
/// to its maintainer.
///
/// Refused, in this order, with `RecordNotFound` where the handle finds no
/// record, `InvalidAuthority` where the caller is not its maintainer, and
/// `InvalidState` where the record is past its initial state.
pub fn close_escrow(ledger: &mut Ledger, ctx: &CloseEscrow) -> (result: Result<(), EscrowError>)
    requires
        old(ledger).wf(),
    ensures
        final(ledger).wf(),
        old(ledger)@.consistent() ==> final(ledger)@.consistent(),
        result == old(ledger)@.outcome(ctx.operation()),
        final(ledger)@ == old(ledger)@.apply(ctx.operation()),
{
    proof {
        apply_keeps_invariant_and_value(ledger@, ctx.operation());
        if ledger@.consistent() {
            apply_keeps_consistency(ledger@, ctx.operation());
        }
    }
    let slot: usize = match ledger.find_record(&ctx.escrow_account.key) {
        Some(slot) => slot,
        None => { return Err(EscrowError::RecordNotFound); },
    };
    match ledger.records[slot].check_close(&ctx.maintainer) {
        Ok(()) => {},
        Err(e) => { return Err(e); },
    }
    let record = ledger.records.remove(slot);
    proof {
        let removed = LedgerView {
            records: old(ledger)@.records.remove(slot as int),
            ..old(ledger)@
        };
        assert(ledger@.records =~= removed.records);
        assert(ledger@.wallets =~= removed.wallets);
        old(ledger)@.lemma_record_remove(slot as int);
    }
    ledger.credit(&record.maintainer, record.custody);
    Ok(())
}

/// Funds an initialized record with exactly its bounty, out of the
/// maintainer's wallet.
///
/// Refused, in this order, with `RecordNotFound` where the handle finds no
/// record, `InvalidAuthority` where the caller is not its maintainer,
/// `AmountMismatch` where `amount` is not the bounty, `InvalidState` where the
/// record is past its initial state, and `InsufficientFunds` where the
/// maintainer holds less than the bounty.
pub fn deposit_funds(ledger: &mut Ledger, ctx: &DepositFunds, amount: u64) -> (result: Result<
    (),
    EscrowError,
>)
    requires
        old(ledger).wf(),
    ensures
        final(ledger).wf(),
        old(ledger)@.consistent() ==> final(ledger)@.consistent(),
        result == old(ledger)@.outcome(ctx.operation(amount)),
        final(ledger)@ == old(ledger)@.apply(ctx.operation(amount)),
{
    proof {
        apply_keeps_invariant_and_value(ledger@, ctx.operation(amount));
        if ledger@.consistent() {
            apply_keeps_consistency(ledger@, ctx.operation(amount));
        }
    }
    let slot: usize = match ledger.find_record(&ctx.escrow_account.key) {
        Some(slot) => slot,
        None => { return Err(EscrowError::RecordNotFound); },
    };
    match ledger.records[slot].check_deposit(&ctx.maintainer, amount) {
        Ok(()) => {},
        Err(e) => { return Err(e); },
    }
    match ledger.move_in(&ctx.maintainer, slot, amount) {
        Ok(()) => {},
        Err(e) => { return Err(e); },
    }
    let ghost moved = ledger@;
    ledger.records[slot].state = EscrowState::Funded;
    proof {
        let settled = moved.with_state(slot as int, EscrowState::Funded);
        assert(ledger@.records =~= settled.records);
        assert(ledger@.wallets =~= settled.wallets);
        old(ledger)@.lemma_move_then_state(ctx.operation(amount));
    }
    Ok(())
}

/// Names the contributor of a funded record.
///
/// Refused, in this order, with `RecordNotFound` where the handle finds no
/// record, `InvalidAuthority` where the caller is not its maintainer, and
/// `InvalidState` where the record is not funded, or is assigned already.
pub fn assign_contributor(
    ledger: &mut Ledger,
    ctx: &AssignContributor,
    contributor_id: Identity,
) -> (result: Result<(), EscrowError>)
    requires
        old(ledger).wf(),
    ensures
        final(ledger).wf(),
        old(ledger)@.consistent() ==> final(ledger)@.consistent(),
        result == old(ledger)@.outcome(ctx.operation(contributor_id)),
        final(ledger)@ == old(ledger)@.apply(ctx.operation(contributor_id)),
{
    proof {
        apply_keeps_invariant_and_value(ledger@, ctx.operation(contributor_id));
        if ledger@.consistent() {
            apply_keeps_consistency(ledger@, ctx.operation(contributor_id));
        }
    }
    let slot: usize = match ledger.find_record(&ctx.escrow_account.key) {
        Some(slot) => slot,
        None => { return Err(EscrowError::RecordNotFound); },
    };
    match ledger.records[slot].check_assign(&ctx.maintainer, &contributor_id) {
        Ok(()) => {},
        Err(e) => { return Err(e); },
    }
    ledger.records[slot].contributor = Some(contributor_id);
    ledger.records[slot].state = EscrowState::Assigned;
    proof {
        let post = old(ledger)@.apply(ctx.operation(contributor_id));
        assert(ledger@.records =~= post.records);
        assert(ledger@.wallets =~= post.wallets);
    }
    Ok(())
}

/// Pays the bounty of an assigned record to the contributor it names, and
/// completes the record.
///
/// Refused, in this order, with `RecordNotFound` where the handle finds no
/// record, `InvalidAuthority` where the caller is not its maintainer,
/// `InvalidState` where the record is not assigned, `InvalidAuthority` where
/// the payee is not the contributor that the record names, and
/// `InsufficientCustody` where the record holds less than the bounty.
pub fn release_funds(ledger: &mut Ledger, ctx: &ReleaseFunds) -> (result: Result<(), EscrowError>)
    requires
        old(ledger).wf(),
    ensures
        final(ledger).wf(),
        old(ledger)@.consistent() ==> final(ledger)@.consistent(),
        result == old(ledger)@.outcome(ctx.operation()),
        final(ledger)@ == old(ledger)@.apply(ctx.operation()),
{
    proof {
        apply_keeps_invariant_and_value(ledger@, ctx.operation());
        if ledger@.consistent() {
            apply_keeps_consistency(ledger@, ctx.operation());
        }
    }
    let slot: usize = match ledger.find_record(&ctx.escrow_account.key) {
        Some(slot) => slot,
        None => { return Err(EscrowError::RecordNotFound); },
    };
    match ledger.records[slot].check_release(&ctx.maintainer, &ctx.contributor) {
        Ok(()) => {},
        Err(e) => { return Err(e); },
    }
    let amount: u64 = ledger.records[slot].amount;
    match ledger.move_out(slot, &ctx.contributor, amount) {
        Ok(()) => {},
        Err(e) => { return Err(e); },
    }
    let ghost moved = ledger@;
    ledger.records[slot].state = EscrowState::Completed;
    proof {
        let settled = moved.with_state(slot as int, EscrowState::Completed);
        assert(ledger@.records =~= settled.records);
        assert(ledger@.wallets =~= settled.wallets);
        old(ledger)@.lemma_move_then_state(ctx.operation());
    }
    Ok(())
}

/// Returns the bounty of a funded or assigned record to its maintainer, and
/// marks the record refunded.
///
/// Refused, in this order, with `RecordNotFound` where the handle finds no
/// record, `InvalidAuthority` where the caller is not its maintainer,
/// `InvalidState` where the record holds no funds, and `InsufficientCustody`
/// where it holds less than the bounty.
pub fn refund(ledger: &mut Ledger, ctx: &Refund) -> (result: Result<(), EscrowError>)
    requires
        old(ledger).wf(),
    ensures
        final(ledger).wf(),
        old(ledger)@.consistent() ==> final(ledger)@.consistent(),
        result == old(ledger)@.outcome(ctx.operation()),
        final(ledger)@ == old(ledger)@.apply(ctx.operation()),
{
    proof {
        apply_keeps_invariant_and_value(ledger@, ctx.operation());
        if ledger@.consistent() {
            apply_keeps_consistency(ledger@, ctx.operation());
        }
    }
    let slot: usize = match ledger.find_record(&ctx.escrow_account.key) {
        Some(slot) => slot,
        None => { return Err(EscrowError::RecordNotFound); },
    };
    match ledger.records[slot].check_refund(&ctx.maintainer) {
        Ok(()) => {},
        Err(e) => { return Err(e); },
    }
    let amount: u64 = ledger.records[slot].amount;
    let maintainer = ledger.records[slot].maintainer;
    match ledger.move_out(slot, &maintainer, amount) {
        Ok(()) => {},
        Err(e) => { return Err(e); },
    }
    let ghost moved = ledger@;
    ledger.records[slot].state = EscrowState::Refunded;
    proof {
        let settled = moved.with_state(slot as int, EscrowState::Refunded);
        assert(ledger@.records =~= settled.records);
        assert(ledger@.wallets =~= settled.wallets);
        old(ledger)@.lemma_move_then_state(ctx.operation());
    }
    Ok(())
}

} // verus!
