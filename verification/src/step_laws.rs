//! What holds of a whole apply step: a failed input can be left out,
//! and value is neither made nor lost.
use crate::keys::spec_shard_of;
use crate::laws::{
    lemma_failed_receipt_changes_nothing, lemma_failed_transaction_changes_nothing,
    lemma_receipt_conserves_total, lemma_transaction_conserves_total, spec_amount_of, spec_carried,
    spec_loses_value, spec_settled, spec_total,
};
use crate::receipt_applier::spec_apply_receipt;
use crate::routing::{spec_route_all, Routed};
use crate::runtime::{
    spec_advance, spec_apply, spec_base, spec_flatten, spec_fresh, spec_process_receipt,
    spec_process_transaction, spec_walk_receipts, spec_walk_transactions, Advance, ReceiptRun,
    RunView, Walk,
};
use crate::state::{spec_state_root, StateDb, StateMap};
use crate::transaction::SignedTransactionView;
use crate::tx_applier::spec_apply_signed_transaction;
use crate::types::{BlockIndex, ReceiptView, ShardId, TransactionResultView, TransactionStatus};
use vstd::prelude::*;

verus! {

// ---------------------------------------------------------------------------
// What the rest of a step reads
// ---------------------------------------------------------------------------
/// Two runs agree on what the inputs that follow read: the state and the
/// stake proposals.
pub open spec fn spec_agree(a: RunView, b: RunView) -> bool {
    a.state == b.state && a.proposals == b.proposals
}

/// The run `after` has the results of `before` and then those of `added`.
pub open spec fn spec_records(
    before: RunView,
    after: RunView,
    added: Seq<TransactionResultView>,
) -> bool {
    after.tx_result == before.tx_result + added
}

/// The results `with` are the results `without`, with one more at `at`.
pub open spec fn spec_one_more(
    with: Seq<TransactionResultView>,
    without: Seq<TransactionResultView>,
    at: int,
) -> bool {
    0 <= at < with.len() && with.remove(at) == without
}

/// A transaction does to two runs that agree the same: they agree
/// again, and the same result is recorded.
pub proof fn lemma_transaction_reads_state_only(
    a: RunView,
    b: RunView,
    block_index: BlockIndex,
    transaction: SignedTransactionView,
)
    requires
        spec_agree(a, b),
    ensures
        spec_agree(
            spec_process_transaction(a, block_index, transaction),
            spec_process_transaction(b, block_index, transaction),
        ),
        spec_records(
            a,
            spec_process_transaction(a, block_index, transaction),
            seq![spec_process_transaction(a, block_index, transaction).tx_result.last()],
        ),
        spec_records(
            b,
            spec_process_transaction(b, block_index, transaction),
            seq![spec_process_transaction(a, block_index, transaction).tx_result.last()],
        ),
        a.new_receipts == b.new_receipts ==> spec_process_transaction(
            a,
            block_index,
            transaction,
        ).new_receipts == spec_process_transaction(b, block_index, transaction).new_receipts,
{
    let pa = spec_process_transaction(a, block_index, transaction);
    let pb = spec_process_transaction(b, block_index, transaction);
    assert(pa.tx_result =~= a.tx_result + seq![pa.tx_result.last()]);
    assert(pb.tx_result =~= b.tx_result + seq![pa.tx_result.last()]);
}

/// The results that the transactions from `from` on add to a run.
pub open spec fn spec_results_of_transactions(
    run: RunView,
    transactions: Seq<SignedTransactionView>,
    from: int,
    block_index: BlockIndex,
) -> Seq<TransactionResultView> {
    spec_walk_transactions(run, transactions, from, block_index).tx_result.skip(
        run.tx_result.len() as int,
    )
}

/// The transactions of a step do to two runs that agree the same: the
/// runs agree again, and the same results are recorded, after those
/// that each run had.
pub proof fn lemma_transactions_read_state_only(
    a: RunView,
    b: RunView,
    transactions: Seq<SignedTransactionView>,
    from: int,
    block_index: BlockIndex,
)
    requires
        spec_agree(a, b),
        0 <= from,
    ensures
        spec_agree(
            spec_walk_transactions(a, transactions, from, block_index),
            spec_walk_transactions(b, transactions, from, block_index),
        ),
        spec_records(
            a,
            spec_walk_transactions(a, transactions, from, block_index),
            spec_results_of_transactions(a, transactions, from, block_index),
        ),
        spec_records(
            b,
            spec_walk_transactions(b, transactions, from, block_index),
            spec_results_of_transactions(a, transactions, from, block_index),
        ),
        a.new_receipts == b.new_receipts ==> spec_walk_transactions(
            a,
            transactions,
            from,
            block_index,
        ).new_receipts == spec_walk_transactions(b, transactions, from, block_index).new_receipts,
    decreases transactions.len() - from,
{
    let wa = spec_walk_transactions(a, transactions, from, block_index);
    let wb = spec_walk_transactions(b, transactions, from, block_index);
    if from >= transactions.len() {
        assert(wa.tx_result =~= a.tx_result + wa.tx_result.skip(a.tx_result.len() as int));
        assert(wb.tx_result =~= b.tx_result + wa.tx_result.skip(a.tx_result.len() as int));
    } else {
        let pa = spec_process_transaction(a, block_index, transactions[from]);
        let pb = spec_process_transaction(b, block_index, transactions[from]);
        lemma_transaction_reads_state_only(a, b, block_index, transactions[from]);
        lemma_transactions_read_state_only(pa, pb, transactions, from + 1, block_index);
        let x = pa.tx_result.last();
        let rest = spec_results_of_transactions(pa, transactions, from + 1, block_index);
        assert(wa.tx_result =~= a.tx_result + (seq![x] + rest));
        assert(wb.tx_result =~= b.tx_result + (seq![x] + rest));
        assert(wa.tx_result.skip(a.tx_result.len() as int) =~= seq![x] + rest);
    }
}

// ---------------------------------------------------------------------------
// A failed transaction left out
// ---------------------------------------------------------------------------
/// The run that a step has come to when it reaches the transaction `k`.
pub open spec fn spec_reached_by_transactions(
    run: RunView,
    transactions: Seq<SignedTransactionView>,
    from: int,
    k: int,
    block_index: BlockIndex,
) -> RunView
    decreases k - from,
{
    if from >= k || from < 0 || from >= transactions.len() {
        run
    } else {
        spec_reached_by_transactions(
            spec_process_transaction(run, block_index, transactions[from]),
            transactions,
            from + 1,
            k,
            block_index,
        )
    }
}

/// Walking a list from the place after `k` is walking the list without
/// `k` from the place `k` itself.
proof fn lemma_transactions_shift(
    run: RunView,
    transactions: Seq<SignedTransactionView>,
    k: int,
    i: int,
    block_index: BlockIndex,
)
    requires
        0 <= k <= i,
        k < transactions.len(),
    ensures
        spec_walk_transactions(run, transactions.remove(k), i, block_index)
            == spec_walk_transactions(run, transactions, i + 1, block_index),
    decreases transactions.len() - i,
{
    let removed = transactions.remove(k);
    if i + 1 < transactions.len() {
        assert(removed[i] == transactions[i + 1]);
        lemma_transactions_shift(
            spec_process_transaction(run, block_index, transactions[i + 1]),
            transactions,
            k,
            i + 1,
            block_index,
        );
    }
}

/// Rollback isolation for the transactions of a step. Where the
/// transaction `k` fails when the step reaches it, the step without it
/// comes to the same state, and so to the same root, sends the same
/// receipts and makes the same proposals; the two differ in the result
/// of that transaction only.
pub proof fn lemma_failed_transaction_left_out(
    run: RunView,
    transactions: Seq<SignedTransactionView>,
    from: int,
    k: int,
    block_index: BlockIndex,
)
    requires
        0 <= from <= k < transactions.len(),
        spec_apply_signed_transaction(
            spec_reached_by_transactions(run, transactions, from, k, block_index).state,
            block_index,
            transactions[k].body,
            spec_reached_by_transactions(run, transactions, from, k, block_index).proposals,
        ).result is Err,
    ensures
        spec_walk_transactions(run, transactions, from, block_index).state
            == spec_walk_transactions(run, transactions.remove(k), from, block_index).state,
        spec_state_root(spec_walk_transactions(run, transactions, from, block_index).state)
            == spec_state_root(
            spec_walk_transactions(run, transactions.remove(k), from, block_index).state,
        ),
        spec_walk_transactions(run, transactions, from, block_index).proposals
            == spec_walk_transactions(run, transactions.remove(k), from, block_index).proposals,
        spec_walk_transactions(run, transactions, from, block_index).new_receipts
            == spec_walk_transactions(run, transactions.remove(k), from, block_index).new_receipts,
        spec_one_more(
            spec_walk_transactions(run, transactions, from, block_index).tx_result,
            spec_walk_transactions(run, transactions.remove(k), from, block_index).tx_result,
            run.tx_result.len() + k - from,
        ),
        spec_walk_transactions(run, transactions, from, block_index).tx_result[run.tx_result.len()
            + k - from].status == TransactionStatus::Failed,
    decreases k - from,
{
    let removed = transactions.remove(k);
    let with = spec_walk_transactions(run, transactions, from, block_index);
    let without = spec_walk_transactions(run, removed, from, block_index);
    if from == k {
        let failed = spec_process_transaction(run, block_index, transactions[k]);
        lemma_failed_transaction_changes_nothing(run, block_index, transactions[k]);
        lemma_transactions_shift(run, transactions, k, k, block_index);
        lemma_transactions_read_state_only(failed, run, transactions, k + 1, block_index);
        let x = failed.tx_result.last();
        let rest = spec_results_of_transactions(failed, transactions, k + 1, block_index);
        assert(failed.tx_result =~= run.tx_result + seq![x]);
        assert(with.tx_result =~= run.tx_result + seq![x] + rest);
        assert(without.tx_result =~= run.tx_result + rest);
        assert(with.tx_result.remove(run.tx_result.len() as int) =~= without.tx_result);
    } else {
        let next = spec_process_transaction(run, block_index, transactions[from]);
        assert(removed[from] == transactions[from]);
        lemma_transaction_reads_state_only(run, run, block_index, transactions[from]);
        assert(next.tx_result.len() == run.tx_result.len() + 1);
        lemma_failed_transaction_left_out(next, transactions, from + 1, k, block_index);
    }
}

// ---------------------------------------------------------------------------
// A failed receipt left out
// ---------------------------------------------------------------------------
/// A receipt does to two runs that agree the same: where it gets
/// through, the runs agree again and the same result is recorded; where
/// it waits for a run or ends the step, it does so for both alike.
pub proof fn lemma_receipt_reads_state_only(
    a: RunView,
    b: RunView,
    shard_id: ShardId,
    block_index: BlockIndex,
    receipt: ReceiptView,
)
    requires
        spec_agree(a, b),
    ensures
        match spec_process_receipt(a, shard_id, block_index, receipt) {
            ReceiptRun::Through(pa) => spec_process_receipt(b, shard_id, block_index, receipt)
                is Through && spec_agree(
                pa,
                spec_process_receipt(b, shard_id, block_index, receipt)->Through_0,
            ) && spec_records(a, pa, seq![pa.tx_result.last()]) && spec_records(
                b,
                spec_process_receipt(b, shard_id, block_index, receipt)->Through_0,
                seq![pa.tx_result.last()],
            ),
            other => spec_process_receipt(b, shard_id, block_index, receipt) == other,
        },
{
    match spec_process_receipt(a, shard_id, block_index, receipt) {
        ReceiptRun::Through(pa) => {
            let pb = spec_process_receipt(b, shard_id, block_index, receipt)->Through_0;
            assert(pa.tx_result =~= a.tx_result + seq![pa.tx_result.last()]);
            assert(pb.tx_result =~= b.tx_result + seq![pa.tx_result.last()]);
        },
        _ => {},
    }
}

/// The run that a walk through the receipts has come to where it stops.
pub open spec fn spec_run_of_walk(walk: Walk, otherwise: RunView) -> RunView {
    match walk {
        Walk::Through(run) => run,
        Walk::Suspended { run, at, pending } => run,
        Walk::Fatal { at, error } => otherwise,
    }
}

/// The results that the receipts from `from` on add to a run, up to
/// where the walk stops.
pub open spec fn spec_results_of_receipts(
    run: RunView,
    receipts: Seq<ReceiptView>,
    from: int,
    shard_id: ShardId,
    block_index: BlockIndex,
) -> Seq<TransactionResultView> {
    spec_run_of_walk(
        spec_walk_receipts(run, receipts, from, shard_id, block_index),
        run,
    ).tx_result.skip(run.tx_result.len() as int)
}

/// Two walks stop alike: both get through, or both wait at the same
/// place for the same run, or both end the step at the same place; the
/// runs that they have come to agree, and `added` is what each has
/// recorded on the way.
pub open spec fn spec_walks_alike(
    a: RunView,
    walk_a: Walk,
    b: RunView,
    walk_b: Walk,
    added: Seq<TransactionResultView>,
) -> bool {
    match walk_a {
        Walk::Through(x) => walk_b is Through && spec_agree(x, walk_b->Through_0)
            && spec_records(a, x, added) && spec_records(b, walk_b->Through_0, added),
        Walk::Suspended { run: x, at, pending } => walk_b is Suspended && walk_b->Suspended_at
            == at && walk_b->Suspended_pending == pending && spec_agree(x, walk_b->Suspended_run)
            && spec_records(a, x, added) && spec_records(b, walk_b->Suspended_run, added),
        Walk::Fatal { at, error } => walk_b == walk_a,
    }
}

/// The receipts of a step do to two runs that agree the same.
pub proof fn lemma_receipts_read_state_only(
    a: RunView,
    b: RunView,
    receipts: Seq<ReceiptView>,
    from: int,
    shard_id: ShardId,
    block_index: BlockIndex,
)
    requires
        spec_agree(a, b),
        0 <= from,
    ensures
        spec_walks_alike(
            a,
            spec_walk_receipts(a, receipts, from, shard_id, block_index),
            b,
            spec_walk_receipts(b, receipts, from, shard_id, block_index),
            spec_results_of_receipts(a, receipts, from, shard_id, block_index),
        ),
    decreases receipts.len() - from,
{
    let wa = spec_walk_receipts(a, receipts, from, shard_id, block_index);
    let wb = spec_walk_receipts(b, receipts, from, shard_id, block_index);
    let added = spec_results_of_receipts(a, receipts, from, shard_id, block_index);
    if from >= receipts.len() {
        assert(a.tx_result =~= a.tx_result + added);
        assert(b.tx_result =~= b.tx_result + added);
    } else {
        lemma_receipt_reads_state_only(a, b, shard_id, block_index, receipts[from]);
        match spec_process_receipt(a, shard_id, block_index, receipts[from]) {
            ReceiptRun::Through(pa) => {
                let pb = spec_process_receipt(b, shard_id, block_index, receipts[from])->Through_0;
                lemma_receipts_read_state_only(pa, pb, receipts, from + 1, shard_id, block_index);
                let x = pa.tx_result.last();
                let rest = spec_results_of_receipts(pa, receipts, from + 1, shard_id, block_index);
                match wa {
                    Walk::Fatal { .. } => {},
                    _ => {
                        let ra = spec_run_of_walk(wa, a);
                        let rb = spec_run_of_walk(wb, b);
                        assert(ra.tx_result =~= a.tx_result + (seq![x] + rest));
                        assert(rb.tx_result =~= b.tx_result + (seq![x] + rest));
                        assert(ra.tx_result.skip(a.tx_result.len() as int) =~= seq![x] + rest);
                    },
                }
            },
            ReceiptRun::Suspended(_) => {
                assert(a.tx_result =~= a.tx_result + added);
                assert(b.tx_result =~= b.tx_result + added);
            },
            ReceiptRun::Fatal(_) => {},
        }
    }
}

/// The run that a step has come to when it reaches the receipt `k`, if
/// it gets that far.
pub open spec fn spec_reached_by_receipts(
    run: RunView,
    receipts: Seq<ReceiptView>,
    from: int,
    k: int,
    shard_id: ShardId,
    block_index: BlockIndex,
) -> Option<RunView>
    decreases k - from,
{
    if from >= k || from < 0 || from >= receipts.len() {
        Some(run)
    } else {
        match spec_process_receipt(run, shard_id, block_index, receipts[from]) {
            ReceiptRun::Through(next) => spec_reached_by_receipts(
                next,
                receipts,
                from + 1,
                k,
                shard_id,
                block_index,
            ),
            _ => None,
        }
    }
}

/// A walk that stopped at a place, seen from the list without an
/// earlier receipt: the place is one lower.
pub open spec fn spec_shifted(walk: Walk) -> Walk {
    match walk {
        Walk::Through(run) => walk,
        Walk::Suspended { run, at, pending } => Walk::Suspended { run, at: at - 1, pending },
        Walk::Fatal { at, error } => Walk::Fatal { at: at - 1, error },
    }
}

proof fn lemma_receipts_shift(
    run: RunView,
    receipts: Seq<ReceiptView>,
    k: int,
    i: int,
    shard_id: ShardId,
    block_index: BlockIndex,
)
    requires
        0 <= k <= i,
        k < receipts.len(),
    ensures
        spec_walk_receipts(run, receipts.remove(k), i, shard_id, block_index) == spec_shifted(
            spec_walk_receipts(run, receipts, i + 1, shard_id, block_index),
        ),
    decreases receipts.len() - i,
{
    let removed = receipts.remove(k);
    if i + 1 < receipts.len() {
        assert(removed[i] == receipts[i + 1]);
        match spec_process_receipt(run, shard_id, block_index, receipts[i + 1]) {
            ReceiptRun::Through(next) => {
                lemma_receipts_shift(next, receipts, k, i + 1, shard_id, block_index);
            },
            _ => {},
        }
    }
}

/// The walk `with` a failed receipt at `k` and the walk `without` it stop
/// alike: the runs that they have come to hold the same state, and so
/// the same root, and the same proposals, and `with` has one result
/// more, at `at`.
pub open spec fn spec_left_out(with: Walk, without: Walk, k: int, at: int) -> bool {
    match with {
        Walk::Through(x) => without is Through && spec_agree(x, without->Through_0)
            && spec_state_root(x.state) == spec_state_root(without->Through_0.state)
            && spec_one_more(x.tx_result, without->Through_0.tx_result, at),
        Walk::Suspended { run: x, at: place, pending } => place > k && without is Suspended
            && without->Suspended_at == place - 1 && without->Suspended_pending == pending
            && spec_agree(x, without->Suspended_run) && spec_one_more(
            x.tx_result,
            without->Suspended_run.tx_result,
            at,
        ),
        Walk::Fatal { at: place, error } => place > k && without == (Walk::Fatal {
            at: place - 1,
            error,
        }),
    }
}

/// Rollback isolation for the receipts of a step. Where the receipt `k`
/// fails without a run when the step reaches it, the step without it
/// goes the same way: it comes to the same state, and so to the same
/// root, with the same proposals, and stops where the other stops; the
/// two differ in the result of that receipt and in the receipts that it
/// sent in compensation.
pub proof fn lemma_failed_receipt_left_out(
    run: RunView,
    receipts: Seq<ReceiptView>,
    from: int,
    k: int,
    shard_id: ShardId,
    block_index: BlockIndex,
)
    requires
        0 <= from <= k < receipts.len(),
        spec_reached_by_receipts(run, receipts, from, k, shard_id, block_index) is Some,
        spec_process_receipt(
            spec_reached_by_receipts(run, receipts, from, k, shard_id, block_index).unwrap(),
            shard_id,
            block_index,
            receipts[k],
        ) is Through,
        spec_process_receipt(
            spec_reached_by_receipts(run, receipts, from, k, shard_id, block_index).unwrap(),
            shard_id,
            block_index,
            receipts[k],
        )->Through_0.tx_result.last().status == TransactionStatus::Failed,
    ensures
        spec_left_out(
            spec_walk_receipts(run, receipts, from, shard_id, block_index),
            spec_walk_receipts(run, receipts.remove(k), from, shard_id, block_index),
            k,
            run.tx_result.len() + k - from,
        ),
    decreases k - from,
{
    let removed = receipts.remove(k);
    let with = spec_walk_receipts(run, receipts, from, shard_id, block_index);
    let without = spec_walk_receipts(run, removed, from, shard_id, block_index);
    if from == k {
        let failed = spec_process_receipt(run, shard_id, block_index, receipts[k])->Through_0;
        lemma_failed_receipt_changes_nothing(run, shard_id, block_index, receipts[k]);
        lemma_receipt_reads_state_only(run, run, shard_id, block_index, receipts[k]);
        lemma_receipts_shift(run, receipts, k, k, shard_id, block_index);
        lemma_receipts_read_state_only(failed, run, receipts, k + 1, shard_id, block_index);
        crate::laws::lemma_results_of_receipts(failed, receipts, k + 1, shard_id, block_index);
        let x = failed.tx_result.last();
        let rest = spec_results_of_receipts(failed, receipts, k + 1, shard_id, block_index);
        assert(failed.tx_result =~= run.tx_result + seq![x]);
        match with {
            Walk::Fatal { .. } => {},
            _ => {
                let ra = spec_run_of_walk(with, run);
                let rb = spec_run_of_walk(without, run);
                assert(ra.tx_result =~= run.tx_result + seq![x] + rest);
                assert(rb.tx_result =~= run.tx_result + rest);
                assert(ra.tx_result.remove(run.tx_result.len() as int) =~= rb.tx_result);
            },
        }
    } else {
        let next = spec_process_receipt(run, shard_id, block_index, receipts[from])->Through_0;
        assert(removed[from] == receipts[from]);
        lemma_receipt_reads_state_only(run, run, shard_id, block_index, receipts[from]);
        assert(next.tx_result.len() == run.tx_result.len() + 1);
        lemma_failed_receipt_left_out(next, receipts, from + 1, k, shard_id, block_index);
    }
}

// ---------------------------------------------------------------------------
// The step as a whole
// ---------------------------------------------------------------------------
/// Rollback isolation for a step, transactions. Where the receipts of a
/// step get through and the transaction `k` fails when the step reaches
/// it, the step without that transaction finishes with the same state,
/// and so with the same root, the same receipts and the same
/// proposals: the two differ in the result of that transaction only.
pub proof fn lemma_step_without_failed_transaction(
    run: RunView,
    receipts: Seq<ReceiptView>,
    from: int,
    transactions: Seq<SignedTransactionView>,
    k: int,
    shard_id: ShardId,
    block_index: BlockIndex,
    opened_root: Seq<u8>,
    base: StateMap,
)
    requires
        0 <= k < transactions.len(),
        spec_walk_receipts(run, receipts, from, shard_id, block_index) is Through,
        spec_apply_signed_transaction(
            spec_reached_by_transactions(
                spec_walk_receipts(run, receipts, from, shard_id, block_index)->Through_0,
                transactions,
                0,
                k,
                block_index,
            ).state,
            block_index,
            transactions[k].body,
            spec_reached_by_transactions(
                spec_walk_receipts(run, receipts, from, shard_id, block_index)->Through_0,
                transactions,
                0,
                k,
                block_index,
            ).proposals,
        ).result is Err,
    ensures
        ({
            let with = spec_advance(
                run,
                receipts,
                from,
                transactions,
                shard_id,
                block_index,
                opened_root,
                base,
            );
            let without = spec_advance(
                run,
                receipts,
                from,
                transactions.remove(k),
                shard_id,
                block_index,
                opened_root,
                base,
            );
            &&& with is Finished
            &&& without is Finished
            &&& with->Finished_0.state == without->Finished_0.state
            &&& spec_state_root(with->Finished_0.state) == spec_state_root(
                without->Finished_0.state,
            )
            &&& with->Finished_0.proposals == without->Finished_0.proposals
            &&& with->Finished_0.new_receipts == without->Finished_0.new_receipts
            &&& spec_one_more(
                with->Finished_0.tx_result,
                without->Finished_0.tx_result,
                spec_walk_receipts(
                    run,
                    receipts,
                    from,
                    shard_id,
                    block_index,
                )->Through_0.tx_result.len() + k,
            )
        }),
{
    let after = spec_walk_receipts(run, receipts, from, shard_id, block_index)->Through_0;
    lemma_failed_transaction_left_out(after, transactions, 0, k, block_index);
}

/// Two steps stop alike, one with a failed receipt at `k` and one
/// without it: both finish, or both wait for the same run, or both end
/// on the same error; the runs that they have come to hold the same
/// state, and so the same root, and the same proposals, and the first
/// has one result more, at `at`.
pub open spec fn spec_steps_alike(with: Advance, without: Advance, at: int) -> bool {
    match with {
        Advance::Finished(x) => without is Finished && spec_agree(x, without->Finished_0)
            && spec_state_root(x.state) == spec_state_root(without->Finished_0.state)
            && spec_one_more(x.tx_result, without->Finished_0.tx_result, at),
        Advance::Suspended(x) => without is Suspended && without->Suspended_0.at == x.at - 1
            && without->Suspended_0.pending == x.pending && without->Suspended_0.staged == x.staged
            && spec_agree(x.run, without->Suspended_0.run) && spec_one_more(
            x.run.tx_result,
            without->Suspended_0.run.tx_result,
            at,
        ),
        Advance::Aborted(e) => without == with,
    }
}

/// Rollback isolation for a step, receipts. Where the receipt `k` fails
/// without a run when the step reaches it, the step without that
/// receipt goes the same way and comes to the same state, and so to the
/// same root, with the same proposals. The two differ in the result of
/// that receipt and in the receipts that it sent in compensation.
pub proof fn lemma_step_without_failed_receipt(
    run: RunView,
    receipts: Seq<ReceiptView>,
    from: int,
    k: int,
    transactions: Seq<SignedTransactionView>,
    shard_id: ShardId,
    block_index: BlockIndex,
    opened_root: Seq<u8>,
    base: StateMap,
)
    requires
        0 <= from <= k < receipts.len(),
        spec_reached_by_receipts(run, receipts, from, k, shard_id, block_index) is Some,
        spec_process_receipt(
            spec_reached_by_receipts(run, receipts, from, k, shard_id, block_index).unwrap(),
            shard_id,
            block_index,
            receipts[k],
        ) is Through,
        spec_process_receipt(
            spec_reached_by_receipts(run, receipts, from, k, shard_id, block_index).unwrap(),
            shard_id,
            block_index,
            receipts[k],
        )->Through_0.tx_result.last().status == TransactionStatus::Failed,
    ensures
        spec_steps_alike(
            spec_advance(
                run,
                receipts,
                from,
                transactions,
                shard_id,
                block_index,
                opened_root,
                base,
            ),
            spec_advance(
                run,
                receipts.remove(k),
                from,
                transactions,
                shard_id,
                block_index,
                opened_root,
                base,
            ),
            run.tx_result.len() + k - from,
        ),
{
    let at = run.tx_result.len() + k - from;
    lemma_failed_receipt_left_out(run, receipts, from, k, shard_id, block_index);
    match spec_walk_receipts(run, receipts, from, shard_id, block_index) {
        Walk::Through(x) => {
            let y = spec_walk_receipts(
                run,
                receipts.remove(k),
                from,
                shard_id,
                block_index,
            )->Through_0;
            lemma_transactions_read_state_only(x, y, transactions, 0, block_index);
            let added = spec_results_of_transactions(x, transactions, 0, block_index);
            let fx = spec_walk_transactions(x, transactions, 0, block_index);
            let fy = spec_walk_transactions(y, transactions, 0, block_index);
            assert(fx.tx_result.remove(at) =~= x.tx_result.remove(at) + added);
            assert(fx.tx_result.remove(at) =~= fy.tx_result);
        },
        _ => {},
    }
}

// ---------------------------------------------------------------------------
// Value over a whole step
// ---------------------------------------------------------------------------
/// Two lists of receipts carry together what each carries.
pub proof fn lemma_carried_concat(a: Seq<ReceiptView>, b: Seq<ReceiptView>)
    ensures
        spec_carried(a + b) == spec_carried(a) + spec_carried(b),
    decreases b.len(),
{
    if b.len() == 0 {
        assert(a + b =~= a);
    } else {
        lemma_carried_concat(a, b.drop_last());
        assert((a + b).drop_last() =~= a + b.drop_last());
        assert((a + b).last() == b.last());
    }
}

/// Sending one list of receipts and then another is sending the two
/// as one.
pub proof fn lemma_route_all_concat(m: Routed, a: Seq<ReceiptView>, b: Seq<ReceiptView>)
    ensures
        spec_route_all(spec_route_all(m, a), b) == spec_route_all(m, a + b),
    decreases b.len(),
{
    if b.len() == 0 {
        assert(a + b =~= a);
    } else {
        lemma_route_all_concat(m, a, b.drop_last());
        assert((a + b).drop_last() =~= a + b.drop_last());
        assert((a + b).last() == b.last());
    }
}

/// What the receipts from `from` on that are addressed to this shard
/// carry.
pub open spec fn spec_carried_in(receipts: Seq<ReceiptView>, from: int, shard_id: ShardId) -> int
    decreases receipts.len() - from,
{
    if from < 0 || from >= receipts.len() {
        0
    } else {
        (if spec_shard_of(receipts[from].receiver) == shard_id {
            spec_amount_of(receipts[from])
        } else {
            0
        }) + spec_carried_in(receipts, from + 1, shard_id)
    }
}

/// The receipts that a receipt sends when it is processed.
pub open spec fn spec_sent_by_receipt(
    run: RunView,
    shard_id: ShardId,
    block_index: BlockIndex,
    receipt: ReceiptView,
) -> Seq<ReceiptView> {
    if spec_shard_of(receipt.receiver) != shard_id {
        Seq::empty()
    } else {
        spec_apply_receipt(run.state, receipt, Seq::empty(), block_index).new_receipts
    }
}

/// The receipts that the receipts from `from` on send, in their order,
/// where they all get through.
pub open spec fn spec_sent_by_receipts(
    run: RunView,
    receipts: Seq<ReceiptView>,
    from: int,
    shard_id: ShardId,
    block_index: BlockIndex,
) -> Seq<ReceiptView>
    decreases receipts.len() - from,
{
    if from < 0 || from >= receipts.len() {
        Seq::empty()
    } else {
        match spec_process_receipt(run, shard_id, block_index, receipts[from]) {
            ReceiptRun::Through(next) => spec_sent_by_receipt(
                run,
                shard_id,
                block_index,
                receipts[from],
            ) + spec_sent_by_receipts(next, receipts, from + 1, shard_id, block_index),
            _ => Seq::empty(),
        }
    }
}

/// The receipts that a transaction sends when it is processed.
pub open spec fn spec_sent_by_transaction(
    run: RunView,
    block_index: BlockIndex,
    transaction: SignedTransactionView,
) -> Seq<ReceiptView> {
    match spec_apply_signed_transaction(
        run.state,
        block_index,
        transaction.body,
        run.proposals,
    ).result {
        Ok(receipts) => receipts,
        Err(_) => Seq::empty(),
    }
}

/// The receipts that the transactions from `from` on send, in their order.
pub open spec fn spec_sent_by_transactions(
    run: RunView,
    transactions: Seq<SignedTransactionView>,
    from: int,
    block_index: BlockIndex,
) -> Seq<ReceiptView>
    decreases transactions.len() - from,
{
    if from < 0 || from >= transactions.len() {
        Seq::empty()
    } else {
        spec_sent_by_transaction(run, block_index, transactions[from])
            + spec_sent_by_transactions(
            spec_process_transaction(run, block_index, transactions[from]),
            transactions,
            from + 1,
            block_index,
        )
    }
}

/// The receipts from `from` on get through without a run, none of those
/// for this shard is one whose value the runtime does not account for,
/// and the accounts `ids` hold the receiver of each.
pub open spec fn spec_receipts_keep_value(
    run: RunView,
    receipts: Seq<ReceiptView>,
    from: int,
    shard_id: ShardId,
    block_index: BlockIndex,
    ids: Seq<Seq<char>>,
) -> bool
    decreases receipts.len() - from,
{
    if from < 0 || from >= receipts.len() {
        true
    } else {
        match spec_process_receipt(run, shard_id, block_index, receipts[from]) {
            ReceiptRun::Through(next) => {
                &&& spec_shard_of(receipts[from].receiver) == shard_id ==> !spec_loses_value(
                    run.state,
                    receipts[from],
                ) && ids.contains(receipts[from].receiver)
                &&& spec_receipts_keep_value(
                    next,
                    receipts,
                    from + 1,
                    shard_id,
                    block_index,
                    ids,
                )
            },
            _ => false,
        }
    }
}

/// The accounts `ids` hold the originator of each transaction from
/// `from` on that succeeds.
pub open spec fn spec_transactions_keep_value(
    run: RunView,
    transactions: Seq<SignedTransactionView>,
    from: int,
    block_index: BlockIndex,
    ids: Seq<Seq<char>>,
) -> bool
    decreases transactions.len() - from,
{
    if from < 0 || from >= transactions.len() {
        true
    } else {
        &&& spec_apply_signed_transaction(
            run.state,
            block_index,
            transactions[from].body,
            run.proposals,
        ).result is Ok ==> ids.contains(transactions[from].body.originator())
        &&& spec_transactions_keep_value(
            spec_process_transaction(run, block_index, transactions[from]),
            transactions,
            from + 1,
            block_index,
            ids,
        )
    }
}

/// Value conservation for the receipts of a step. Where the receipts
/// from `from` on get through under `spec_receipts_keep_value`, the
/// value of the accounts after them, with what the receipts that they
/// send carry, is the value before them with what they carried in; and
/// the receipts of the run are those that it had and those that they
/// sent.
pub proof fn lemma_receipts_conserve_value(
    run: RunView,
    receipts: Seq<ReceiptView>,
    from: int,
    shard_id: ShardId,
    block_index: BlockIndex,
    ids: Seq<Seq<char>>,
)
    requires
        0 <= from,
        ids.no_duplicates(),
        spec_receipts_keep_value(run, receipts, from, shard_id, block_index, ids),
    ensures
        spec_walk_receipts(run, receipts, from, shard_id, block_index) is Through,
        spec_total(
            spec_walk_receipts(run, receipts, from, shard_id, block_index)->Through_0.state,
            ids,
        ) + spec_carried(spec_sent_by_receipts(run, receipts, from, shard_id, block_index))
            == spec_total(run.state, ids) + spec_carried_in(receipts, from, shard_id),
        spec_walk_receipts(run, receipts, from, shard_id, block_index)->Through_0.new_receipts
            == spec_route_all(
            run.new_receipts,
            spec_sent_by_receipts(run, receipts, from, shard_id, block_index),
        ),
    decreases receipts.len() - from,
{
    if from < receipts.len() {
        let receipt = receipts[from];
        let next = spec_process_receipt(run, shard_id, block_index, receipt)->Through_0;
        let sent = spec_sent_by_receipt(run, shard_id, block_index, receipt);
        let rest = spec_sent_by_receipts(next, receipts, from + 1, shard_id, block_index);
        lemma_receipts_conserve_value(next, receipts, from + 1, shard_id, block_index, ids);
        lemma_carried_concat(sent, rest);
        lemma_route_all_concat(run.new_receipts, sent, rest);
        if spec_shard_of(receipt.receiver) == shard_id {
            assert(next.state == spec_settled(run.state, receipt, block_index));
            lemma_receipt_conserves_total(run.state, receipt, block_index, ids);
        }
    }
}

/// Value conservation for the transactions of a step. Where the
/// accounts `ids` hold the originator of each transaction that
/// succeeds, the value of the accounts after the transactions, with
/// what the receipts that they send carry, is the value before them;
/// and the receipts of the run are those that it had and those that
/// they sent.
pub proof fn lemma_transactions_conserve_value(
    run: RunView,
    transactions: Seq<SignedTransactionView>,
    from: int,
    block_index: BlockIndex,
    ids: Seq<Seq<char>>,
)
    requires
        0 <= from,
        ids.no_duplicates(),
        spec_transactions_keep_value(run, transactions, from, block_index, ids),
    ensures
        spec_total(spec_walk_transactions(run, transactions, from, block_index).state, ids)
            + spec_carried(spec_sent_by_transactions(run, transactions, from, block_index))
            == spec_total(run.state, ids),
        spec_walk_transactions(run, transactions, from, block_index).new_receipts
            == spec_route_all(
            run.new_receipts,
            spec_sent_by_transactions(run, transactions, from, block_index),
        ),
    decreases transactions.len() - from,
{
    if from < transactions.len() {
        let transaction = transactions[from];
        let next = spec_process_transaction(run, block_index, transaction);
        let sent = spec_sent_by_transaction(run, block_index, transaction);
        let rest = spec_sent_by_transactions(next, transactions, from + 1, block_index);
        lemma_transactions_conserve_value(next, transactions, from + 1, block_index, ids);
        lemma_carried_concat(sent, rest);
        lemma_route_all_concat(run.new_receipts, sent, rest);
        if spec_apply_signed_transaction(
            run.state,
            block_index,
            transaction.body,
            run.proposals,
        ).result is Ok {
            lemma_transaction_conserves_total(
                run.state,
                block_index,
                transaction.body,
                run.proposals,
                ids,
            );
        }
    }
}

/// Value conservation for a step. Where no receipt of the step needs a
/// run or ends it, none is one whose value the runtime does not account
/// for, and the accounts `ids` hold every account that the step
/// touches, the step finishes, and the value of the accounts in the
/// state that it comes to, with what the receipts that it sends carry,
/// is the value of the accounts in the state that it started from with
/// what the receipts for this shard carried in. The receipts of the
/// result are those that the run had and those that the step sent.
pub proof fn lemma_step_conserves_value(
    run: RunView,
    receipts: Seq<ReceiptView>,
    from: int,
    transactions: Seq<SignedTransactionView>,
    shard_id: ShardId,
    block_index: BlockIndex,
    opened_root: Seq<u8>,
    base: StateMap,
    ids: Seq<Seq<char>>,
)
    requires
        0 <= from,
        ids.no_duplicates(),
        spec_receipts_keep_value(run, receipts, from, shard_id, block_index, ids),
        spec_transactions_keep_value(
            spec_walk_receipts(run, receipts, from, shard_id, block_index)->Through_0,
            transactions,
            0,
            block_index,
            ids,
        ),
    ensures
        ({
            let step = spec_advance(
                run,
                receipts,
                from,
                transactions,
                shard_id,
                block_index,
                opened_root,
                base,
            );
            let sent = spec_sent_by_receipts(run, receipts, from, shard_id, block_index)
                + spec_sent_by_transactions(
                spec_walk_receipts(run, receipts, from, shard_id, block_index)->Through_0,
                transactions,
                0,
                block_index,
            );
            &&& step is Finished
            &&& spec_total(step->Finished_0.state, ids) + spec_carried(sent) == spec_total(
                run.state,
                ids,
            ) + spec_carried_in(receipts, from, shard_id)
            &&& step->Finished_0.new_receipts == spec_route_all(run.new_receipts, sent)
        }),
{
    let after = spec_walk_receipts(run, receipts, from, shard_id, block_index)->Through_0;
    let sent_by_receipts = spec_sent_by_receipts(run, receipts, from, shard_id, block_index);
    let sent_by_transactions = spec_sent_by_transactions(after, transactions, 0, block_index);
    lemma_receipts_conserve_value(run, receipts, from, shard_id, block_index, ids);
    lemma_transactions_conserve_value(after, transactions, 0, block_index, ids);
    lemma_carried_concat(sent_by_receipts, sent_by_transactions);
    lemma_route_all_concat(run.new_receipts, sent_by_receipts, sent_by_transactions);
}

// ---------------------------------------------------------------------------
// The step from its start
// ---------------------------------------------------------------------------
/// With one shard, the receipts sent from nothing are one list under
/// that shard, in the order in which they were sent.
pub proof fn lemma_routed_is_one_list(sent: Seq<ReceiptView>)
    ensures
        spec_route_all(Map::empty(), sent) == if sent.len() == 0 {
            Routed::empty()
        } else {
            Routed::empty().insert(spec_shard_of(sent[0].receiver), sent)
        },
    decreases sent.len(),
{
    if sent.len() > 0 {
        let rest = sent.drop_last();
        lemma_routed_is_one_list(rest);
        let shard = spec_shard_of(sent[0].receiver);
        if rest.len() == 0 {
            assert(Seq::<ReceiptView>::empty().push(sent.last()) =~= sent);
        } else {
            assert(rest.push(sent.last()) =~= sent);
        }
        assert(spec_route_all(Map::empty(), sent) =~= Routed::empty().insert(shard, sent));
    }
}

/// Rollback isolation for an apply step, transactions: as
/// `lemma_step_without_failed_transaction`, for the step from its start.
pub proof fn lemma_apply_without_failed_transaction(
    db: &StateDb,
    root: Seq<u8>,
    shard_id: ShardId,
    block_index: BlockIndex,
    prev_receipts: Seq<Seq<ReceiptView>>,
    transactions: Seq<SignedTransactionView>,
    k: int,
)
    requires
        0 <= k < transactions.len(),
        spec_walk_receipts(
            spec_fresh(spec_base(db, root)),
            spec_flatten(prev_receipts),
            0,
            shard_id,
            block_index,
        ) is Through,
        spec_apply_signed_transaction(
            spec_reached_by_transactions(
                spec_walk_receipts(
                    spec_fresh(spec_base(db, root)),
                    spec_flatten(prev_receipts),
                    0,
                    shard_id,
                    block_index,
                )->Through_0,
                transactions,
                0,
                k,
                block_index,
            ).state,
            block_index,
            transactions[k].body,
            spec_reached_by_transactions(
                spec_walk_receipts(
                    spec_fresh(spec_base(db, root)),
                    spec_flatten(prev_receipts),
                    0,
                    shard_id,
                    block_index,
                )->Through_0,
                transactions,
                0,
                k,
                block_index,
            ).proposals,
        ).result is Err,
    ensures
        ({
            let with = spec_apply(db, root, shard_id, block_index, prev_receipts, transactions);
            let without = spec_apply(
                db,
                root,
                shard_id,
                block_index,
                prev_receipts,
                transactions.remove(k),
            );
            &&& with is Finished
            &&& without is Finished
            &&& spec_state_root(with->Finished_0.state) == spec_state_root(
                without->Finished_0.state,
            )
            &&& with->Finished_0.state == without->Finished_0.state
            &&& with->Finished_0.proposals == without->Finished_0.proposals
            &&& with->Finished_0.new_receipts == without->Finished_0.new_receipts
            &&& spec_one_more(
                with->Finished_0.tx_result,
                without->Finished_0.tx_result,
                spec_flatten(prev_receipts).len() + k,
            )
        }),
{
    let start = spec_fresh(spec_base(db, root));
    let receipts = spec_flatten(prev_receipts);
    lemma_step_without_failed_transaction(
        start,
        receipts,
        0,
        transactions,
        k,
        shard_id,
        block_index,
        root,
        spec_base(db, root),
    );
    crate::laws::lemma_results_of_receipts(start, receipts, 0, shard_id, block_index);
}

/// Rollback isolation for an apply step, receipts: as
/// `lemma_step_without_failed_receipt`, for the step from its start.
/// `prev_without` holds the receipts of `prev_receipts` but for the
/// one at the place `k` of them all.
pub proof fn lemma_apply_without_failed_receipt(
    db: &StateDb,
    root: Seq<u8>,
    shard_id: ShardId,
    block_index: BlockIndex,
    prev_receipts: Seq<Seq<ReceiptView>>,
    prev_without: Seq<Seq<ReceiptView>>,
    transactions: Seq<SignedTransactionView>,
    k: int,
)
    requires
        0 <= k < spec_flatten(prev_receipts).len(),
        spec_flatten(prev_without) == spec_flatten(prev_receipts).remove(k),
        spec_reached_by_receipts(
            spec_fresh(spec_base(db, root)),
            spec_flatten(prev_receipts),
            0,
            k,
            shard_id,
            block_index,
        ) is Some,
        spec_process_receipt(
            spec_reached_by_receipts(
                spec_fresh(spec_base(db, root)),
                spec_flatten(prev_receipts),
                0,
                k,
                shard_id,
                block_index,
            ).unwrap(),
            shard_id,
            block_index,
            spec_flatten(prev_receipts)[k],
        ) is Through,
        spec_process_receipt(
            spec_reached_by_receipts(
                spec_fresh(spec_base(db, root)),
                spec_flatten(prev_receipts),
                0,
                k,
                shard_id,
                block_index,
            ).unwrap(),
            shard_id,
            block_index,
            spec_flatten(prev_receipts)[k],
        )->Through_0.tx_result.last().status == TransactionStatus::Failed,
    ensures
        spec_steps_alike(
            spec_apply(db, root, shard_id, block_index, prev_receipts, transactions),
            spec_apply(db, root, shard_id, block_index, prev_without, transactions),
            k,
        ),
{
    lemma_step_without_failed_receipt(
        spec_fresh(spec_base(db, root)),
        spec_flatten(prev_receipts),
        0,
        k,
        transactions,
        shard_id,
        block_index,
        root,
        spec_base(db, root),
    );
}

/// Value conservation for an apply step. Where no receipt of the step
/// needs a run or ends it, none is one whose value the runtime does not
/// account for, and the accounts `ids` hold every account that the
/// step touches, the step finishes, and the value of the accounts in
/// the state that it comes to, with what the receipts of its result
/// carry, is the value of the accounts in the state that it started
/// from with what the receipts for this shard carried in.
pub proof fn lemma_apply_conserves_value(
    db: &StateDb,
    root: Seq<u8>,
    shard_id: ShardId,
    block_index: BlockIndex,
    prev_receipts: Seq<Seq<ReceiptView>>,
    transactions: Seq<SignedTransactionView>,
    ids: Seq<Seq<char>>,
)
    requires
        ids.no_duplicates(),
        spec_receipts_keep_value(
            spec_fresh(spec_base(db, root)),
            spec_flatten(prev_receipts),
            0,
            shard_id,
            block_index,
            ids,
        ),
        spec_transactions_keep_value(
            spec_walk_receipts(
                spec_fresh(spec_base(db, root)),
                spec_flatten(prev_receipts),
                0,
                shard_id,
                block_index,
            )->Through_0,
            transactions,
            0,
            block_index,
            ids,
        ),
    ensures
        ({
            let step = spec_apply(db, root, shard_id, block_index, prev_receipts, transactions);
            let start = spec_fresh(spec_base(db, root));
            let receipts = spec_flatten(prev_receipts);
            let sent = spec_sent_by_receipts(start, receipts, 0, shard_id, block_index)
                + spec_sent_by_transactions(
                spec_walk_receipts(start, receipts, 0, shard_id, block_index)->Through_0,
                transactions,
                0,
                block_index,
            );
            &&& step is Finished
            &&& spec_total(step->Finished_0.state, ids) + spec_carried(sent) == spec_total(
                spec_base(db, root),
                ids,
            ) + spec_carried_in(receipts, 0, shard_id)
            &&& step->Finished_0.new_receipts == if sent.len() == 0 {
                Routed::empty()
            } else {
                Routed::empty().insert(spec_shard_of(sent[0].receiver), sent)
            }
        }),
{
    let start = spec_fresh(spec_base(db, root));
    let receipts = spec_flatten(prev_receipts);
    lemma_step_conserves_value(
        start,
        receipts,
        0,
        transactions,
        shard_id,
        block_index,
        root,
        spec_base(db, root),
        ids,
    );
    let sent = spec_sent_by_receipts(start, receipts, 0, shard_id, block_index)
        + spec_sent_by_transactions(
        spec_walk_receipts(start, receipts, 0, shard_id, block_index)->Through_0,
        transactions,
        0,
        block_index,
    );
    lemma_routed_is_one_list(sent);
}

} // verus!
