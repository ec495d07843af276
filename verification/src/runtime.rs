//! The apply step: incoming receipts first, then transactions, each
//! committed or rolled back on its own, and at the end the root of the
//! state that they lead to.
//!
//! The runtime does not run contract code. Where a receipt needs a method
//! run, `Runtime::apply` hands out an `ApplySession`: it holds what is to
//! be run and is the host interface of the run. `ApplySession::resume`
//! takes the result of the run and goes on.
use crate::bytes::opt_bytes;
use crate::error::{spec_about, spec_plain, ErrorKind, RuntimeError, RuntimeErrorView};
use crate::executor::{
    execution_view, ExecutionOutcomeView, ExecutionRequest, ExecutionResult, PromiseId,
    PromiseIdView,
};
use crate::ext::ExtError;
use crate::hash::{hash, spec_hash, CryptoHash};
use crate::keys::{account_to_shard_id, spec_shard_of, spec_storage_key};
use crate::mana::spec_general;
use crate::receipt_applier::{
    apply_receipt, resume_receipt, spec_apply_receipt, spec_resume_receipt, PendingExecution,
    PendingView, ReceiptProgress, ReceiptProgressView,
};
use crate::records::{
    decode_public_key, get_account, set_account, set_code, set_tx_stake, spec_decode_public_key,
    spec_get_account, spec_new_account, spec_set_account, spec_set_code, spec_set_tx_stake,
    Account, AccountView,
};
use crate::routing::{
    by_shard, record, route_all, spec_recorded, spec_route_all, spec_wrong_shard, wrong_shard,
    Routed,
};
use crate::state::{
    only_staged, same_base, spec_diff, spec_state_root, stored, DBChanges, StateDb, StateDbUpdate,
    StateMap,
};
use crate::transaction::{SignedTransaction, SignedTransactionView};
use crate::tx_applier::{apply_signed_transaction, spec_apply_signed_transaction};
use crate::tx_stakes::TxTotalStake;
use crate::types::{
    lemma_views_push, no_receipts, views, AccountId, AccountingInfo, AuthorityStake,
    AuthorityStakeView, Balance, BlockIndex, Mana, MerkleHash, PublicKey, ReceiptBlock,
    ReceiptTransaction, ReceiptView, ShardId, TransactionResult, TransactionResultView,
};
use std::collections::HashMap;
use vstd::prelude::*;

verus! {

broadcast use vstd::std_specs::hash::group_hash_axioms;

/// What an apply step starts from.
#[derive(Clone, Debug, PartialEq, Eq)]
pub struct ApplyState {
    pub root: MerkleHash,
    pub shard_id: ShardId,
    pub block_index: u64,
    pub parent_block_hash: CryptoHash,
}

/// What an apply step gives.
#[derive(Clone, Debug, PartialEq, Eq)]
pub struct ApplyResult {
    pub root: MerkleHash,
    pub shard_id: ShardId,
    pub db_changes: DBChanges,
    pub authority_proposals: Vec<AuthorityStake>,
    pub new_receipts: HashMap<ShardId, Vec<ReceiptTransaction>>,
    pub tx_result: Vec<TransactionResult>,
}

/// What an apply step has come to between two inputs: the committed
/// state, the receipts sent, the stake proposals, and one result for
/// each input so far.
pub ghost struct RunView {
    pub state: StateMap,
    pub new_receipts: Routed,
    pub proposals: Seq<AuthorityStakeView>,
    pub tx_result: Seq<TransactionResultView>,
}

/// An input is settled: its receipts are sent and its result is recorded;
/// the state is what the input staged if it succeeded, and what was kept
/// before if it failed.
pub open spec fn spec_settle(
    run: RunView,
    kept: StateMap,
    staged: StateMap,
    result: Result<(), RuntimeErrorView>,
    sent: Seq<ReceiptView>,
    logs: Seq<Seq<char>>,
    proposals: Seq<AuthorityStakeView>,
) -> RunView {
    RunView {
        state: if result is Ok {
            staged
        } else {
            kept
        },
        new_receipts: spec_route_all(run.new_receipts, sent),
        proposals,
        tx_result: run.tx_result.push(spec_recorded(result, sent, logs)),
    }
}

/// A transaction is applied to what is staged and settled. A transaction
/// that fails sends nothing.
pub open spec fn spec_process_transaction_from(
    run: RunView,
    staged: StateMap,
    block_index: BlockIndex,
    transaction: SignedTransactionView,
) -> RunView {
    let outcome = spec_apply_signed_transaction(
        staged,
        block_index,
        transaction.body,
        run.proposals,
    );
    match outcome.result {
        Ok(receipts) => spec_settle(
            run,
            run.state,
            outcome.state,
            Ok(()),
            receipts,
            Seq::empty(),
            outcome.proposals,
        ),
        Err(e) => spec_settle(
            run,
            run.state,
            outcome.state,
            Err(e),
            Seq::empty(),
            Seq::empty(),
            outcome.proposals,
        ),
    }
}

/// A transaction is processed between two inputs, where nothing is staged.
pub open spec fn spec_process_transaction(
    run: RunView,
    block_index: BlockIndex,
    transaction: SignedTransactionView,
) -> RunView {
    spec_process_transaction_from(run, run.state, block_index, transaction)
}

/// Where the processing of a receipt stands: through, waiting for a
/// run, or at an end because the state is corrupt.
pub ghost enum ReceiptRun {
    Through(RunView),
    Suspended(PendingView),
    Fatal(RuntimeErrorView),
}

/// A receipt for another shard fails and changes nothing. A receipt for
/// this shard is applied to what is staged and settled, unless a method
/// has to run first or the state is found corrupt.
pub open spec fn spec_process_receipt_from(
    run: RunView,
    staged: StateMap,
    shard_id: ShardId,
    block_index: BlockIndex,
    receipt: ReceiptView,
) -> ReceiptRun {
    if spec_shard_of(receipt.receiver) != shard_id {
        ReceiptRun::Through(RunView { tx_result: run.tx_result.push(spec_wrong_shard()), ..run })
    } else {
        let outcome = spec_apply_receipt(staged, receipt, Seq::empty(), block_index);
        match outcome.progress {
            ReceiptProgressView::Applied(result) => ReceiptRun::Through(
                spec_settle(
                    run,
                    run.state,
                    outcome.state,
                    result,
                    outcome.new_receipts,
                    outcome.logs,
                    run.proposals,
                ),
            ),
            ReceiptProgressView::Suspended(pending) => ReceiptRun::Suspended(pending),
            ReceiptProgressView::Fatal(e) => ReceiptRun::Fatal(e),
        }
    }
}

/// A receipt is processed between two inputs, where nothing is staged.
pub open spec fn spec_process_receipt(
    run: RunView,
    shard_id: ShardId,
    block_index: BlockIndex,
    receipt: ReceiptView,
) -> ReceiptRun {
    spec_process_receipt_from(run, run.state, shard_id, block_index, receipt)
}

/// A receipt that waited for a run is applied with the result of the run
/// and settled. `staged` is the state as the run left it.
pub open spec fn spec_resume_processing(
    run: RunView,
    staged: StateMap,
    receipt: ReceiptView,
    pending: PendingView,
    outcome: Result<ExecutionOutcomeView, Seq<char>>,
) -> RunView {
    let resumed = spec_resume_receipt(staged, run.state, receipt, pending, outcome, Seq::empty());
    spec_settle(
        run,
        resumed.committed,
        resumed.state,
        resumed.result,
        resumed.new_receipts,
        resumed.logs,
        run.proposals,
    )
}

/// The receipts of the blocks, block after block.
pub open spec fn spec_flatten(blocks: Seq<Seq<ReceiptView>>) -> Seq<ReceiptView>
    decreases blocks.len(),
{
    if blocks.len() == 0 {
        Seq::empty()
    } else {
        spec_flatten(blocks.drop_last()) + blocks.last()
    }
}

/// Where the walk through the receipts stands.
pub ghost enum Walk {
    Through(RunView),
    Suspended { run: RunView, at: int, pending: PendingView },
    Fatal { at: int, error: RuntimeErrorView },
}

/// The receipts from `from` on are processed in their order, up to the
/// first that needs a method run or finds the state corrupt.
pub open spec fn spec_walk_receipts(
    run: RunView,
    receipts: Seq<ReceiptView>,
    from: int,
    shard_id: ShardId,
    block_index: BlockIndex,
) -> Walk
    decreases receipts.len() - from,
{
    if from < 0 || from >= receipts.len() {
        Walk::Through(run)
    } else {
        match spec_process_receipt(run, shard_id, block_index, receipts[from]) {
            ReceiptRun::Through(next) => spec_walk_receipts(
                next,
                receipts,
                from + 1,
                shard_id,
                block_index,
            ),
            ReceiptRun::Suspended(pending) => Walk::Suspended { run, at: from, pending },
            ReceiptRun::Fatal(error) => Walk::Fatal { at: from, error },
        }
    }
}

/// The transactions from `from` on are processed in their order.
pub open spec fn spec_walk_transactions(
    run: RunView,
    transactions: Seq<SignedTransactionView>,
    from: int,
    block_index: BlockIndex,
) -> RunView
    decreases transactions.len() - from,
{
    if from < 0 || from >= transactions.len() {
        run
    } else {
        spec_walk_transactions(
            spec_process_transaction(run, block_index, transactions[from]),
            transactions,
            from + 1,
            block_index,
        )
    }
}

/// An apply step that waits for a run.
pub ghost struct SessionView {
    /// What the step had come to before the receipt that waits.
    pub run: RunView,
    /// The state as the run has left it so far.
    pub staged: StateMap,
    pub receipts: Seq<ReceiptView>,
    /// The place of the receipt that waits.
    pub at: int,
    pub transactions: Seq<SignedTransactionView>,
    pub shard_id: ShardId,
    pub block_index: BlockIndex,
    pub pending: PendingView,
    /// The root that the step was opened on, and the state under it.
    pub opened_root: Seq<u8>,
    pub base: StateMap,
}

/// Where an apply step stands.
pub ghost enum Advance {
    Finished(RunView),
    Suspended(SessionView),
    Aborted(RuntimeErrorView),
}

/// The step goes on from the receipt `from`: through the receipts, up to
/// the first that needs a run, and then through the transactions. It
/// ends without a result where a receipt finds the state corrupt.
pub open spec fn spec_advance(
    run: RunView,
    receipts: Seq<ReceiptView>,
    from: int,
    transactions: Seq<SignedTransactionView>,
    shard_id: ShardId,
    block_index: BlockIndex,
    opened_root: Seq<u8>,
    base: StateMap,
) -> Advance {
    match spec_walk_receipts(run, receipts, from, shard_id, block_index) {
        Walk::Through(after) => Advance::Finished(
            spec_walk_transactions(after, transactions, 0, block_index),
        ),
        Walk::Suspended { run, at, pending } => Advance::Suspended(
            SessionView {
                run,
                staged: run.state,
                receipts,
                at,
                transactions,
                shard_id,
                block_index,
                pending,
                opened_root,
                base,
            },
        ),
        Walk::Fatal { at, error } => Advance::Aborted(error),
    }
}

/// The step starts on the state `base`, with nothing sent or recorded.
pub open spec fn spec_fresh(base: StateMap) -> RunView {
    RunView {
        state: base,
        new_receipts: Map::empty(),
        proposals: Seq::empty(),
        tx_result: Seq::empty(),
    }
}

/// The step goes on with the result of the run that it waited for.
pub open spec fn spec_resume(session: SessionView, outcome: Result<ExecutionOutcomeView, Seq<char>>) -> Advance {
    if 0 <= session.at < session.receipts.len() {
        spec_advance(
            spec_resume_processing(
                session.run,
                session.staged,
                session.receipts[session.at],
                session.pending,
                outcome,
            ),
            session.receipts,
            session.at + 1,
            session.transactions,
            session.shard_id,
            session.block_index,
            session.opened_root,
            session.base,
        )
    } else {
        Advance::Suspended(session)
    }
}

/// `result` is what the finished step `run` gives: the root of the state
/// that it came to, the writes that lead from the state under
/// `opened_root` to that state, and what was sent, proposed and recorded.
pub open spec fn spec_is_result(
    result: &ApplyResult,
    run: RunView,
    shard_id: ShardId,
    opened_root: Seq<u8>,
    base: StateMap,
) -> bool {
    &&& result.root@ == spec_state_root(run.state)
    &&& result.shard_id == shard_id
    &&& result.db_changes.wf()
    &&& result.db_changes.base_root() == opened_root
    &&& result.db_changes.changes() == spec_diff(base, run.state)
    &&& views(result.authority_proposals@) == run.proposals
    &&& by_shard(result.new_receipts@) == run.new_receipts
    &&& views(result.tx_result@) == run.tx_result
}

/// Sends the receipts of an input, commits or rolls back what it staged,
/// and records its result.
fn settle(
    state_update: &mut StateDbUpdate,
    outcome: Result<(), RuntimeError>,
    sent: Vec<ReceiptTransaction>,
    result: TransactionResult,
    new_receipts: &mut HashMap<ShardId, Vec<ReceiptTransaction>>,
) -> (r: TransactionResult)
    requires
        old(state_update).wf(),
        result@.receipts.len() == 0,
    ensures
        same_base(old(state_update), final(state_update)),
        final(state_update)@ == final(state_update).committed(),
        final(state_update)@ == if outcome is Ok {
            old(state_update)@
        } else {
            old(state_update).committed()
        },
        by_shard(final(new_receipts)@) == spec_route_all(by_shard(old(new_receipts)@), views(sent@)),
        r@ == spec_recorded(
            match outcome {
                Ok(()) => Ok(()),
                Err(e) => Err(e@),
            },
            views(sent@),
            result@.logs,
        ),
{
    let mut result = result;
    route_all(new_receipts, sent, &mut result);
    assert(result@.receipts =~= crate::routing::spec_nonces(views(sent@)));
    match &outcome {
        Ok(()) => {
            state_update.commit();
        },
        Err(_) => {
            state_update.rollback();
        },
    }
    record(&mut result, &outcome);
    result
}

/// The run as the parts of a step stand for it.
pub open spec fn run_of(
    state_update: &StateDbUpdate,
    new_receipts: Map<ShardId, Vec<ReceiptTransaction>>,
    authority_proposals: Seq<AuthorityStake>,
    tx_result: Seq<TransactionResultView>,
) -> RunView {
    RunView {
        state: state_update.committed(),
        new_receipts: by_shard(new_receipts),
        proposals: views(authority_proposals),
        tx_result,
    }
}

/// Applies a transaction, sends its receipts, and commits what it staged
/// if it succeeded and rolls it back if it failed.
pub fn process_transaction(
    state_update: &mut StateDbUpdate,
    block_index: BlockIndex,
    transaction: &SignedTransaction,
    new_receipts: &mut HashMap<ShardId, Vec<ReceiptTransaction>>,
    authority_proposals: &mut Vec<AuthorityStake>,
) -> (r: TransactionResult)
    requires
        old(state_update).wf(),
    ensures
        same_base(old(state_update), final(state_update)),
        final(state_update)@ == final(state_update).committed(),
        ({
            let before = run_of(
                old(state_update),
                old(new_receipts)@,
                old(authority_proposals)@,
                Seq::empty(),
            );
            run_of(final(state_update), final(new_receipts)@, final(authority_proposals)@, seq![r@])
                == spec_process_transaction_from(
                before,
                old(state_update)@,
                block_index,
                transaction@,
            )
        }),
{
    let result = TransactionResult::default();
    let applied = apply_signed_transaction(
        state_update,
        block_index,
        transaction,
        authority_proposals,
    );
    let r = match applied {
        Ok(receipts) => settle(state_update, Ok(()), receipts, result, new_receipts),
        Err(e) => settle(state_update, Err(e), no_receipts(), result, new_receipts),
    };
    assert(Seq::<TransactionResultView>::empty().push(r@) =~= seq![r@]);
    r
}

/// Where the processing of a receipt stands.
#[derive(Clone, Debug, PartialEq, Eq)]
pub enum ReceiptProcessing {
    /// The receipt is processed: this is its result.
    Processed(TransactionResult),
    /// A method has to be run; `resume_processing` takes its result.
    Suspended(PendingExecution),
    /// The state is corrupt: the apply step cannot go on.
    Fatal(RuntimeError),
}

/// Processes a receipt: one for another shard fails; one for this shard
/// is applied, its receipts are sent, and what it staged is committed if
/// it succeeded and rolled back if it failed. Mana accounting for a
/// bucket that is not in the state is fatal: nothing is done with the
/// receipt, and the caller has to end the step.
pub fn process_receipt(
    state_update: &mut StateDbUpdate,
    shard_id: ShardId,
    block_index: BlockIndex,
    receipt: &ReceiptTransaction,
    new_receipts: &mut HashMap<ShardId, Vec<ReceiptTransaction>>,
) -> (r: ReceiptProcessing)
    requires
        old(state_update).wf(),
    ensures
        same_base(old(state_update), final(state_update)),
        ({
            let proposals = Seq::<AuthorityStake>::empty();
            let before = run_of(old(state_update), old(new_receipts)@, proposals, Seq::empty());
            match spec_process_receipt_from(
                before,
                old(state_update)@,
                shard_id,
                block_index,
                receipt@,
            ) {
                ReceiptRun::Through(after) => r is Processed && after == run_of(
                    final(state_update),
                    final(new_receipts)@,
                    proposals,
                    seq![r->Processed_0@],
                ) && final(state_update)@ == if spec_shard_of(receipt@.receiver) == shard_id {
                    final(state_update).committed()
                } else {
                    old(state_update)@
                },
                ReceiptRun::Suspended(pending) => r is Suspended && r->Suspended_0@ == pending
                    && final(state_update)@ == old(state_update)@
                    && final(state_update).committed() == old(state_update).committed()
                    && final(new_receipts)@ == old(new_receipts)@,
                ReceiptRun::Fatal(e) => r is Fatal && r->Fatal_0@ == e
                    && final(state_update)@ == old(state_update)@
                    && final(state_update).committed() == old(state_update).committed()
                    && final(new_receipts)@ == old(new_receipts)@,
            }
        }),
{
    if account_to_shard_id(&receipt.receiver) != shard_id {
        let r = wrong_shard();
        assert(Seq::<TransactionResultView>::empty().push(r@) =~= seq![r@]);
        return ReceiptProcessing::Processed(r);
    }
    let mut result = TransactionResult::default();
    let mut sent = no_receipts();
    let ghost empty_logs = views(result.logs@);
    match apply_receipt(state_update, receipt, &mut sent, block_index, &mut result.logs) {
        ReceiptProgress::Applied(outcome) => {
            proof {
                let o = spec_apply_receipt(
                    old(state_update)@,
                    receipt@,
                    Seq::empty(),
                    block_index,
                );
                assert(empty_logs + o.logs =~= o.logs);
            }
            let r = settle(state_update, outcome, sent, result, new_receipts);
            assert(Seq::<TransactionResultView>::empty().push(r@) =~= seq![r@]);
            ReceiptProcessing::Processed(r)
        },
        ReceiptProgress::Suspended(pending) => {
            proof {
                lemma_run_stages_nothing(old(state_update)@, receipt@, block_index);
            }
            ReceiptProcessing::Suspended(pending)
        },
        ReceiptProgress::Fatal(e) => {
            proof {
                lemma_run_stages_nothing(old(state_update)@, receipt@, block_index);
            }
            ReceiptProcessing::Fatal(e)
        },
    }
}

/// A receipt that waits for a run, or that ends the step, has staged
/// nothing, sent nothing and logged nothing.
pub proof fn lemma_run_stages_nothing(state: StateMap, receipt: ReceiptView, block_index: BlockIndex)
    ensures
        !(spec_apply_receipt(state, receipt, Seq::empty(), block_index).progress is Applied) ==> {
            &&& spec_apply_receipt(state, receipt, Seq::empty(), block_index).state == state
            &&& spec_apply_receipt(state, receipt, Seq::empty(), block_index).new_receipts
                == Seq::<ReceiptView>::empty()
            &&& spec_apply_receipt(state, receipt, Seq::empty(), block_index).logs == Seq::<
                Seq<char>,
            >::empty()
        },
{
    reveal(spec_apply_receipt);
}

/// Completes the processing of a receipt with the result of its run.
pub fn resume_processing(
    state_update: &mut StateDbUpdate,
    receipt: &ReceiptTransaction,
    pending: PendingExecution,
    outcome: ExecutionResult,
    new_receipts: &mut HashMap<ShardId, Vec<ReceiptTransaction>>,
) -> (r: TransactionResult)
    requires
        old(state_update).wf(),
    ensures
        same_base(old(state_update), final(state_update)),
        final(state_update)@ == final(state_update).committed(),
        ({
            let proposals = Seq::<AuthorityStake>::empty();
            let before = run_of(old(state_update), old(new_receipts)@, proposals, Seq::empty());
            run_of(final(state_update), final(new_receipts)@, proposals, seq![r@])
                == spec_resume_processing(
                before,
                old(state_update)@,
                receipt@,
                pending@,
                execution_view(outcome),
            )
        }),
{
    let mut result = TransactionResult::default();
    let mut sent = no_receipts();
    let ghost empty_logs = views(result.logs@);
    let applied = resume_receipt(
        state_update,
        receipt,
        pending,
        outcome,
        &mut sent,
        &mut result.logs,
    );
    proof {
        let o = spec_resume_receipt(
            old(state_update)@,
            old(state_update).committed(),
            receipt@,
            pending@,
            execution_view(outcome),
            Seq::empty(),
        );
        assert(empty_logs + o.logs =~= o.logs);
    }
    let r = settle(state_update, applied, sent, result, new_receipts);
    assert(Seq::<TransactionResultView>::empty().push(r@) =~= seq![r@]);
    r
}

// ---------------------------------------------------------------------------
// The apply step
// ---------------------------------------------------------------------------
/// The runtime of a shard, over the committed state of the shard.
#[derive(Clone, Debug, PartialEq, Eq)]
pub struct Runtime {
    pub state_db: StateDb,
}

/// An apply step that waits for a method to be run.
#[derive(Debug)]
pub struct ApplySession<'a> {
    state_update: StateDbUpdate<'a>,
    receipts: Vec<&'a ReceiptTransaction>,
    at: usize,
    transactions: &'a [SignedTransaction],
    shard_id: ShardId,
    block_index: BlockIndex,
    new_receipts: HashMap<ShardId, Vec<ReceiptTransaction>>,
    authority_proposals: Vec<AuthorityStake>,
    tx_result: Vec<TransactionResult>,
    pending: PendingExecution,
}

/// Where an apply step stands.
#[derive(Debug)]
pub enum ApplyProgress<'a> {
    /// The step is done.
    Finished(ApplyResult),
    /// A method has to be run; `ApplySession::resume` takes its result.
    Suspended(ApplySession<'a>),
    /// The state is corrupt, and the step has ended without a result:
    /// a receipt accounts for a run whose bucket is not in the state.
    Aborted(RuntimeError),
}

impl<'a> View for ApplySession<'a> {
    type V = SessionView;

    closed spec fn view(&self) -> SessionView {
        SessionView {
            run: run_of(
                &self.state_update,
                self.new_receipts@,
                self.authority_proposals@,
                views(self.tx_result@),
            ),
            staged: self.state_update@,
            receipts: views(self.receipts@),
            at: self.at as int,
            transactions: views(self.transactions@),
            shard_id: self.shard_id,
            block_index: self.block_index,
            pending: self.pending@,
            opened_root: self.state_update.opened_root(),
            base: self.state_update.base(),
        }
    }
}

#[verifier::loop_isolation(false)]
fn advance<'a>(
    state_update: StateDbUpdate<'a>,
    receipts: Vec<&'a ReceiptTransaction>,
    from: usize,
    transactions: &'a [SignedTransaction],
    shard_id: ShardId,
    block_index: BlockIndex,
    new_receipts: HashMap<ShardId, Vec<ReceiptTransaction>>,
    authority_proposals: Vec<AuthorityStake>,
    tx_result: Vec<TransactionResult>,
) -> (r: ApplyProgress<'a>)
    requires
        state_update.wf(),
        state_update@ == state_update.committed(),
        from <= receipts@.len(),
    ensures
        ({
            let advance = spec_advance(
                run_of(&state_update, new_receipts@, authority_proposals@, views(tx_result@)),
                views(receipts@),
                from as int,
                views(transactions@),
                shard_id,
                block_index,
                state_update.opened_root(),
                state_update.base(),
            );
            match advance {
                Advance::Finished(run) => r is Finished && spec_is_result(
                    &r->Finished_0,
                    run,
                    shard_id,
                    state_update.opened_root(),
                    state_update.base(),
                ),
                Advance::Suspended(session) => r is Suspended && r->Suspended_0.wf()
                    && r->Suspended_0@ == session && r->Suspended_0.db() == state_update.db(),
                Advance::Aborted(e) => r is Aborted && r->Aborted_0@ == e,
            }
        }),
{
    let ghost start = run_of(&state_update, new_receipts@, authority_proposals@, views(tx_result@));
    let ghost opened_root = state_update.opened_root();
    let ghost base = state_update.base();
    let ghost db = state_update.db();
    let ghost all = views(receipts@);
    let ghost txs = views(transactions@);
    let mut state_update = state_update;
    let mut new_receipts = new_receipts;
    let mut authority_proposals = authority_proposals;
    let mut tx_result = tx_result;
    let mut at: usize = from;
    while at < receipts.len()
        invariant
            at <= receipts@.len(),
            all == views(receipts@),
            state_update.wf(),
            state_update@ == state_update.committed(),
            state_update.opened_root() == opened_root,
            state_update.base() == base,
            state_update.db() == db,
            spec_walk_receipts(start, all, from as int, shard_id, block_index)
                == spec_walk_receipts(
                run_of(&state_update, new_receipts@, authority_proposals@, views(tx_result@)),
                all,
                at as int,
                shard_id,
                block_index,
            ),
        decreases receipts@.len() - at,
    {
        let receipt: &ReceiptTransaction = receipts[at];
        let ghost run = run_of(
            &state_update,
            new_receipts@,
            authority_proposals@,
            views(tx_result@),
        );
        let ghost bare = run_of(&state_update, new_receipts@, Seq::empty(), Seq::empty());
        assert(receipt@ == all[at as int]);
        match process_receipt(&mut state_update, shard_id, block_index, receipt, &mut new_receipts) {
            ReceiptProcessing::Processed(result) => {
                proof {
                    let through = spec_process_receipt(bare, shard_id, block_index, receipt@);
                    assert(seq![result@][0] == result@);
                    lemma_views_push(tx_result@, result);
                }
                tx_result.push(result);
            },
            ReceiptProcessing::Suspended(pending) => {
                proof {
                    assert(spec_process_receipt(bare, shard_id, block_index, receipt@)
                        == ReceiptRun::Suspended(pending@));
                    assert(spec_process_receipt(run, shard_id, block_index, receipt@)
                        == ReceiptRun::Suspended(pending@));
                    assert(run_of(
                        &state_update,
                        new_receipts@,
                        authority_proposals@,
                        views(tx_result@),
                    ) == run);
                    assert(spec_walk_receipts(run, all, at as int, shard_id, block_index)
                        == (Walk::Suspended { run, at: at as int, pending: pending@ }));
                }
                return ApplyProgress::Suspended(
                    ApplySession {
                        state_update,
                        receipts,
                        at,
                        transactions,
                        shard_id,
                        block_index,
                        new_receipts,
                        authority_proposals,
                        tx_result,
                        pending,
                    },
                );
            },
            ReceiptProcessing::Fatal(e) => {
                proof {
                    assert(spec_process_receipt(bare, shard_id, block_index, receipt@)
                        == ReceiptRun::Fatal(e@));
                    assert(spec_process_receipt(run, shard_id, block_index, receipt@)
                        == ReceiptRun::Fatal(e@));
                    assert(spec_walk_receipts(run, all, at as int, shard_id, block_index)
                        == (Walk::Fatal { at: at as int, error: e@ }));
                }
                return ApplyProgress::Aborted(e);
            },
        }
        at += 1;
    }
    let ghost after = run_of(&state_update, new_receipts@, authority_proposals@, views(tx_result@));
    let mut next: usize = 0;
    while next < transactions.len()
        invariant
            next <= transactions@.len(),
            txs == views(transactions@),
            state_update.wf(),
            state_update@ == state_update.committed(),
            state_update.opened_root() == opened_root,
            state_update.base() == base,
            state_update.db() == db,
            spec_walk_transactions(after, txs, 0, block_index) == spec_walk_transactions(
                run_of(&state_update, new_receipts@, authority_proposals@, views(tx_result@)),
                txs,
                next as int,
                block_index,
            ),
        decreases transactions@.len() - next,
    {
        let transaction = &transactions[next];
        assert(transaction@ == txs[next as int]);
        let ghost bare = run_of(&state_update, new_receipts@, authority_proposals@, Seq::empty());
        let result = process_transaction(
            &mut state_update,
            block_index,
            transaction,
            &mut new_receipts,
            &mut authority_proposals,
        );
        proof {
            let through = spec_process_transaction(bare, block_index, transaction@);
            assert(seq![result@][0] == result@);
            lemma_views_push(tx_result@, result);
        }
        tx_result.push(result);
        next += 1;
    }
    let (db_changes, root) = state_update.finalize();
    ApplyProgress::Finished(
        ApplyResult { root, shard_id, db_changes, authority_proposals, new_receipts, tx_result },
    )
}

fn flatten<'a>(prev_receipts: &'a [ReceiptBlock]) -> (r: Vec<&'a ReceiptTransaction>)
    ensures
        views(r@) == spec_flatten(views(prev_receipts@)),
{
    let mut r: Vec<&'a ReceiptTransaction> = Vec::new();
    let ghost blocks = views(prev_receipts@);
    let mut b: usize = 0;
    assert(blocks.take(0) =~= Seq::empty());
    assert(views(r@) =~= Seq::empty());
    while b < prev_receipts.len()
        invariant
            b <= prev_receipts@.len(),
            blocks == views(prev_receipts@),
            views(r@) == spec_flatten(blocks.take(b as int)),
        decreases prev_receipts@.len() - b,
    {
        let block = &prev_receipts[b];
        let ghost before = views(r@);
        let mut i: usize = 0;
        assert(block@.take(0) =~= Seq::empty());
        assert(before + block@.take(0) =~= before);
        while i < block.receipts.len()
            invariant
                i <= block.receipts@.len(),
                views(r@) == before + block@.take(i as int),
            decreases block.receipts@.len() - i,
        {
            let receipt = &block.receipts[i];
            proof {
                lemma_views_push(r@, receipt);
                assert(block@.take(i + 1) =~= block@.take(i as int).push(receipt@));
                assert((before + block@.take(i as int)).push(receipt@) =~= before + block@.take(
                    i + 1,
                ));
            }
            r.push(receipt);
            i += 1;
        }
        proof {
            assert(block@.take(block.receipts@.len() as int) =~= block@);
            assert(blocks.take(b + 1).drop_last() =~= blocks.take(b as int));
            assert(blocks.take(b + 1).last() == block@);
        }
        b += 1;
    }
    assert(blocks.take(prev_receipts@.len() as int) =~= blocks);
    r
}

/// The state that an apply step on `root` starts from: that of the
/// database, if `root` is its root, and the empty state otherwise.
pub open spec fn spec_base(db: &StateDb, root: Seq<u8>) -> StateMap {
    if root == db.spec_root() {
        db@
    } else {
        StateMap::empty()
    }
}

/// The apply step from its start on.
pub open spec fn spec_apply(
    db: &StateDb,
    root: Seq<u8>,
    shard_id: ShardId,
    block_index: BlockIndex,
    prev_receipts: Seq<Seq<ReceiptView>>,
    transactions: Seq<SignedTransactionView>,
) -> Advance {
    spec_advance(
        spec_fresh(spec_base(db, root)),
        spec_flatten(prev_receipts),
        0,
        transactions,
        shard_id,
        block_index,
        root,
        spec_base(db, root),
    )
}

impl Runtime {
    /// A runtime over the database `state_db`.
    pub fn new(state_db: StateDb) -> (r: Self)
        ensures
            r.state_db == state_db,
    {
        Runtime { state_db }
    }

    /// Applies the receipts of the previous blocks and then the
    /// transactions of this block to the state with the root
    /// `apply_state.root`. Stops where a receipt needs a method run.
    pub fn apply<'a>(
        &'a self,
        apply_state: &ApplyState,
        prev_receipts: &'a [ReceiptBlock],
        transactions: &'a [SignedTransaction],
    ) -> (r: ApplyProgress<'a>)
        requires
            self.state_db.wf(),
        ensures
            match spec_apply(
                &self.state_db,
                apply_state.root@,
                apply_state.shard_id,
                apply_state.block_index,
                views(prev_receipts@),
                views(transactions@),
            ) {
                Advance::Finished(run) => r is Finished && spec_is_result(
                    &r->Finished_0,
                    run,
                    apply_state.shard_id,
                    apply_state.root@,
                    spec_base(&self.state_db, apply_state.root@),
                ),
                Advance::Suspended(session) => r is Suspended && r->Suspended_0.wf()
                    && r->Suspended_0@ == session && r->Suspended_0.db() == &self.state_db,
                Advance::Aborted(e) => r is Aborted && r->Aborted_0@ == e,
            },
    {
        let state_update = StateDbUpdate::new(&self.state_db, apply_state.root.as_slice());
        let receipts = flatten(prev_receipts);
        let new_receipts: HashMap<ShardId, Vec<ReceiptTransaction>> = HashMap::new();
        let authority_proposals: Vec<AuthorityStake> = Vec::new();
        let tx_result: Vec<TransactionResult> = Vec::new();
        proof {
            assert(by_shard(new_receipts@) =~= Map::empty());
            assert(views(authority_proposals@) =~= Seq::empty());
            assert(views(tx_result@) =~= Seq::empty());
        }
        advance(
            state_update,
            receipts,
            0,
            transactions,
            apply_state.shard_id,
            apply_state.block_index,
            new_receipts,
            authority_proposals,
            tx_result,
        )
    }
}

impl<'a> ApplySession<'a> {
    /// The session waits for the run of one of its receipts.
    pub closed spec fn wf(&self) -> bool {
        &&& self.state_update.wf()
        &&& self.at < self.receipts@.len()
    }

    /// The database that the step reads.
    pub closed spec fn db(&self) -> &'a StateDb {
        self.state_update.db()
    }

    /// The method to run.
    pub fn request(&self) -> (r: &ExecutionRequest)
        ensures
            r@ == self@.pending.request,
    {
        &self.pending.request
    }

    /// Host interface: writes `value` under `key` in the storage of the
    /// account that runs the method.
    pub fn storage_set(&mut self, key: &[u8], value: &[u8])
        requires
            old(self).wf(),
        ensures
            final(self).wf(),
            final(self).db() == old(self).db(),
            final(self)@ == (SessionView {
                staged: old(self)@.staged.insert(
                    spec_storage_key(old(self)@.pending.ext.account_id, key@),
                    value@,
                ),
                ..old(self)@
            }),
    {
        self.pending.ext.storage_set(&mut self.state_update, key, value);
    }

    /// Host interface: reads what is under `key` in the storage of the
    /// account that runs the method.
    pub fn storage_get(&self, key: &[u8]) -> (r: Option<Vec<u8>>)
        requires
            self.wf(),
        ensures
            opt_bytes(r) == stored(
                self@.staged,
                spec_storage_key(self@.pending.ext.account_id, key@),
            ),
    {
        self.pending.ext.storage_get(&self.state_update, key)
    }

    /// Host interface: registers a call to `method_name` of `account_id`
    /// and names its result.
    pub fn promise_create(
        &mut self,
        account_id: AccountId,
        method_name: Vec<u8>,
        arguments: Vec<u8>,
        mana: Mana,
        amount: Balance,
    ) -> (r: PromiseId)
        requires
            old(self).wf(),
        ensures
            final(self).wf(),
            final(self).db() == old(self).db(),
            final(self)@ == (SessionView {
                pending: PendingView {
                    ext: old(self)@.pending.ext.promise_create(
                        account_id@,
                        method_name@,
                        arguments@,
                        mana,
                        amount,
                    ),
                    ..old(self)@.pending
                },
                ..old(self)@
            }),
            r@ == PromiseIdView::Receipt(old(self)@.pending.ext.next_id()),
    {
        self.pending.ext.promise_create(account_id, method_name, arguments, mana, amount)
    }

    /// Host interface: registers a callback that runs `method_name` on the
    /// results of `promise_id` and names its result.
    pub fn promise_then(
        &mut self,
        promise_id: PromiseId,
        method_name: Vec<u8>,
        arguments: Vec<u8>,
        mana: Mana,
    ) -> (r: Result<PromiseId, ExtError>)
        requires
            old(self).wf(),
        ensures
            final(self).wf(),
            final(self).db() == old(self).db(),
            ({
                let (ext, told) = old(self)@.pending.ext.promise_then(
                    promise_id@,
                    method_name@,
                    arguments@,
                    mana,
                );
                &&& final(self)@ == (SessionView {
                    pending: PendingView { ext, ..old(self)@.pending },
                    ..old(self)@
                })
                &&& match r {
                    Ok(p) => told == Ok::<PromiseIdView, ExtError>(p@),
                    Err(e) => told == Err::<PromiseIdView, ExtError>(e),
                }
            }),
    {
        self.pending.ext.promise_then(promise_id, method_name, arguments, mana)
    }

    /// Takes the result of the run that the step waited for and goes on
    /// with the step.
    pub fn resume(self, outcome: ExecutionResult) -> (r: ApplyProgress<'a>)
        requires
            self.wf(),
        ensures
            match spec_resume(self@, execution_view(outcome)) {
                Advance::Finished(run) => r is Finished && spec_is_result(
                    &r->Finished_0,
                    run,
                    self@.shard_id,
                    self@.opened_root,
                    self@.base,
                ),
                Advance::Suspended(session) => r is Suspended && r->Suspended_0.wf()
                    && r->Suspended_0@ == session && r->Suspended_0.db() == self.db(),
                Advance::Aborted(e) => r is Aborted && r->Aborted_0@ == e,
            },
    {
        let ApplySession {
            state_update,
            receipts,
            at,
            transactions,
            shard_id,
            block_index,
            new_receipts,
            authority_proposals,
            tx_result,
            pending,
        } = self;
        let mut state_update = state_update;
        let mut new_receipts = new_receipts;
        let mut tx_result = tx_result;
        assert(at < receipts.len());
        let receipt: &ReceiptTransaction = receipts[at];
        assert(receipt@ == views(receipts@)[at as int]);
        let result = resume_processing(
            &mut state_update,
            receipt,
            pending,
            outcome,
            &mut new_receipts,
        );
        proof {
            assert(seq![result@][0] == result@);
            lemma_views_push(tx_result@, result);
        }
        tx_result.push(result);
        advance(
            state_update,
            receipts,
            at + 1,
            transactions,
            shard_id,
            block_index,
            new_receipts,
            authority_proposals,
            tx_result,
        )
    }
}

// ---------------------------------------------------------------------------
// Genesis
// ---------------------------------------------------------------------------
/// An initial account: its id, its public key, its balance and the
/// active stake of its mana bucket.
pub type InitialBalance = (AccountId, PublicKey, Balance, Balance);

/// An initial authority: its account, its public key and its stake.
pub type InitialAuthority = (AccountId, PublicKey, Balance);

/// An initial account as contracts speak of it.
pub type InitialBalanceView = (Seq<char>, Seq<u8>, Balance, Balance);

/// An initial authority as contracts speak of it.
pub type InitialAuthorityView = (Seq<char>, Seq<u8>, Balance);

/// The initial balances as contracts speak of them.
pub open spec fn balance_views(a: Seq<InitialBalance>) -> Seq<InitialBalanceView> {
    Seq::new(a.len(), |i: int| (a[i].0@, a[i].1@, a[i].2, a[i].3))
}

/// The initial authorities as contracts speak of them.
pub open spec fn authority_views(a: Seq<InitialAuthority>) -> Seq<InitialAuthorityView> {
    Seq::new(a.len(), |i: int| (a[i].0@, a[i].1@, a[i].2))
}

/// The state with one initial account installed: the account with its
/// key, its balance and the hash of the code, the code, and the
/// account's general mana bucket.
pub open spec fn spec_install(state: StateMap, item: InitialBalanceView, wasm_binary: Seq<u8>) -> StateMap {
    spec_set_tx_stake(
        spec_set_code(
            spec_set_account(
                state,
                item.0,
                spec_new_account(seq![item.1], item.2, spec_hash(wasm_binary)),
            ),
            item.0,
            wasm_binary,
        ),
        spec_general(item.0),
        TxTotalStake::spec_new(0).spec_add_active_stake(item.3),
    )
}

/// The state with the first `upto` initial accounts installed, in their
/// order. A key that is no public key fails the whole.
pub open spec fn spec_genesis_balances(
    state: StateMap,
    balances: Seq<InitialBalanceView>,
    upto: int,
    wasm_binary: Seq<u8>,
) -> Result<StateMap, RuntimeErrorView>
    decreases upto,
{
    if upto <= 0 {
        Ok(state)
    } else {
        match spec_genesis_balances(state, balances, upto - 1, wasm_binary) {
            Err(e) => Err(e),
            Ok(installed) => if spec_decode_public_key(balances[upto - 1].1) is None {
                Err(spec_plain(ErrorKind::BadPublicKey))
            } else {
                Ok(spec_install(installed, balances[upto - 1], wasm_binary))
            },
        }
    }
}

/// The state with the stakes of the first `upto` initial authorities
/// set, in their order. An authority without an account fails the whole.
pub open spec fn spec_genesis_authorities(
    state: StateMap,
    authorities: Seq<InitialAuthorityView>,
    upto: int,
) -> Result<StateMap, RuntimeErrorView>
    decreases upto,
{
    if upto <= 0 {
        Ok(state)
    } else {
        match spec_genesis_authorities(state, authorities, upto - 1) {
            Err(e) => Err(e),
            Ok(staked) => match spec_get_account(staked, authorities[upto - 1].0) {
                None => Err(spec_about(ErrorKind::AuthorityNotFound, authorities[upto - 1].0)),
                Some(account) => Ok(
                    spec_set_account(
                        staked,
                        authorities[upto - 1].0,
                        AccountView { staked: authorities[upto - 1].2, ..account },
                    ),
                ),
            },
        }
    }
}

/// The genesis state over `base`: the initial accounts, then the stakes
/// of the initial authorities.
pub open spec fn spec_genesis(
    base: StateMap,
    balances: Seq<InitialBalanceView>,
    wasm_binary: Seq<u8>,
    authorities: Seq<InitialAuthorityView>,
) -> Result<StateMap, RuntimeErrorView> {
    match spec_genesis_balances(base, balances, balances.len() as int, wasm_binary) {
        Err(e) => Err(e),
        Ok(installed) => spec_genesis_authorities(installed, authorities, authorities.len() as int),
    }
}

/// The genesis state for the database `db`: the database must stand at
/// the empty root, and the state is built over what it holds there.
pub open spec fn spec_apply_genesis_state(
    db: &StateDb,
    balances: Seq<InitialBalanceView>,
    wasm_binary: Seq<u8>,
    authorities: Seq<InitialAuthorityView>,
) -> Result<StateMap, RuntimeErrorView> {
    if db.spec_root() != crate::state::spec_empty_root() {
        Err(spec_plain(ErrorKind::DatabaseNotEmpty))
    } else {
        spec_genesis(db@, balances, wasm_binary, authorities)
    }
}

fn install_balances(
    state_update: &mut StateDbUpdate,
    balances: &[InitialBalance],
    wasm_binary: &[u8],
) -> (r: Result<(), RuntimeError>)
    requires
        old(state_update).wf(),
    ensures
        only_staged(old(state_update), final(state_update)),
        match spec_genesis_balances(
            old(state_update)@,
            balance_views(balances@),
            balances@.len() as int,
            wasm_binary@,
        ) {
            Ok(state) => r is Ok && final(state_update)@ == state,
            Err(e) => r is Err && r->Err_0@ == e,
        },
{
    let ghost items = balance_views(balances@);
    let ghost start = state_update@;
    let code_hash = hash(wasm_binary);
    let mut i: usize = 0;
    while i < balances.len()
        invariant
            i <= balances@.len(),
            items == balance_views(balances@),
            start == old(state_update)@,
            code_hash@ == spec_hash(wasm_binary@),
            only_staged(old(state_update), state_update),
            spec_genesis_balances(start, items, i as int, wasm_binary@) == Ok::<
                StateMap,
                RuntimeErrorView,
            >(state_update@),
        ensures
            i == balances@.len(),
        decreases balances@.len() - i,
    {
        let item = &balances[i];
        assert(items[i as int] == (item.0@, item.1@, item.2, item.3));
        let public_key = match decode_public_key(item.1.as_slice()) {
            Some(k) => k,
            None => {
                proof {
                    lemma_genesis_balances_fail(start, items, i as int + 1, wasm_binary@);
                }
                return Err(RuntimeError::plain(ErrorKind::BadPublicKey));
            },
        };
        let keys = vec![public_key];
        assert(crate::bytes::bytes_list(keys@) =~= seq![item.1@]);
        let account = Account::new(keys, item.2, code_hash.clone());
        set_account(state_update, &item.0, &account);
        set_code(state_update, &item.0, wasm_binary);
        let mut tx_total_stake = TxTotalStake::new(0);
        tx_total_stake.add_active_stake(item.3);
        let info = AccountingInfo { originator: item.0.clone(), contract_id: None };
        set_tx_stake(state_update, &info, &tx_total_stake);
        i += 1;
    }
    Ok(())
}

/// Once an initial account fails, the whole fails with the same error.
pub proof fn lemma_genesis_balances_fail(
    state: StateMap,
    balances: Seq<InitialBalanceView>,
    at: int,
    wasm_binary: Seq<u8>,
)
    requires
        0 <= at <= balances.len(),
        spec_genesis_balances(state, balances, at, wasm_binary) is Err,
    ensures
        spec_genesis_balances(state, balances, balances.len() as int, wasm_binary)
            == spec_genesis_balances(state, balances, at, wasm_binary),
    decreases balances.len() - at,
{
    if at < balances.len() {
        lemma_genesis_balances_fail(state, balances, at + 1, wasm_binary);
    }
}

/// Once an initial authority fails, the whole fails with the same error.
pub proof fn lemma_genesis_authorities_fail(
    state: StateMap,
    authorities: Seq<InitialAuthorityView>,
    at: int,
)
    requires
        0 <= at <= authorities.len(),
        spec_genesis_authorities(state, authorities, at) is Err,
    ensures
        spec_genesis_authorities(state, authorities, authorities.len() as int)
            == spec_genesis_authorities(state, authorities, at),
    decreases authorities.len() - at,
{
    if at < authorities.len() {
        lemma_genesis_authorities_fail(state, authorities, at + 1);
    }
}

fn install_authorities(state_update: &mut StateDbUpdate, authorities: &[InitialAuthority]) -> (r: Result<
    (),
    RuntimeError,
>)
    requires
        old(state_update).wf(),
    ensures
        only_staged(old(state_update), final(state_update)),
        match spec_genesis_authorities(
            old(state_update)@,
            authority_views(authorities@),
            authorities@.len() as int,
        ) {
            Ok(state) => r is Ok && final(state_update)@ == state,
            Err(e) => r is Err && r->Err_0@ == e,
        },
{
    let ghost items = authority_views(authorities@);
    let ghost start = state_update@;
    let mut i: usize = 0;
    while i < authorities.len()
        invariant
            i <= authorities@.len(),
            items == authority_views(authorities@),
            start == old(state_update)@,
            only_staged(old(state_update), state_update),
            spec_genesis_authorities(start, items, i as int) == Ok::<StateMap, RuntimeErrorView>(
                state_update@,
            ),
        ensures
            i == authorities@.len(),
        decreases authorities@.len() - i,
    {
        let item = &authorities[i];
        assert(items[i as int] == (item.0@, item.1@, item.2));
        let mut account = match get_account(state_update, &item.0) {
            Some(a) => a,
            None => {
                proof {
                    lemma_genesis_authorities_fail(start, items, i as int + 1);
                }
                return Err(RuntimeError::about(ErrorKind::AuthorityNotFound, &item.0));
            },
        };
        account.staked = item.2;
        set_account(state_update, &item.0, &account);
        i += 1;
    }
    Ok(())
}

impl Runtime {
    /// Installs the genesis state and commits it: for each initial
    /// balance an account with its key, its balance and the code, and a
    /// mana bucket with the given active stake; then, for each initial
    /// authority, the stake of its account. Returns the root of the
    /// genesis state. The database must stand at the empty root, and it
    /// stays as it is where the genesis state cannot be built.
    pub fn apply_genesis_state(
        &mut self,
        balances: &[InitialBalance],
        wasm_binary: &[u8],
        initial_authorities: &[InitialAuthority],
    ) -> (r: Result<MerkleHash, RuntimeError>)
        requires
            old(self).state_db.wf(),
        ensures
            final(self).state_db.wf(),
            match spec_apply_genesis_state(
                &old(self).state_db,
                balance_views(balances@),
                wasm_binary@,
                authority_views(initial_authorities@),
            ) {
                Ok(state) => r is Ok && r->Ok_0@ == spec_state_root(state) && final(self).state_db@
                    == state && final(self).state_db.spec_root() == r->Ok_0@,
                Err(e) => r is Err && r->Err_0@ == e && final(self).state_db == old(self).state_db,
            },
    {
        let empty = crate::state::empty_root();
        let root = self.state_db.root();
        if !crate::bytes::same_bytes(root.as_slice(), empty.as_slice()) {
            return Err(RuntimeError::plain(ErrorKind::DatabaseNotEmpty));
        }
        let (db_changes, genesis_root) = {
            let mut state_db_update = StateDbUpdate::new(&self.state_db, empty.as_slice());
            match install_balances(&mut state_db_update, balances, wasm_binary) {
                Ok(()) => {},
                Err(e) => {
                    return Err(e);
                },
            }
            match install_authorities(&mut state_db_update, initial_authorities) {
                Ok(()) => {},
                Err(e) => {
                    return Err(e);
                },
            }
            state_db_update.finalize()
        };
        proof {
            crate::state::lemma_diff_leads(self.state_db@, spec_genesis(
                self.state_db@,
                balance_views(balances@),
                wasm_binary@,
                authority_views(initial_authorities@),
            )->Ok_0);
        }
        match self.state_db.commit(db_changes) {
            Ok(()) => Ok(genesis_root),
            Err(_) => Err(RuntimeError::plain(ErrorKind::DatabaseNotEmpty)),
        }
    }
}

} // verus!
