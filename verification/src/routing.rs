//! Outgoing receipts by the shard of their receiver, and the result
//! that is recorded for each input.
use crate::error::{spec_failure_log, RuntimeError, RuntimeErrorView};
use crate::keys::{account_to_shard_id, spec_shard_of};
use crate::types::{
    lemma_views_push, views, ReceiptTransaction, ReceiptView, ShardId, TransactionResult,
    TransactionResultView, TransactionStatus,
};
use std::collections::HashMap;
use vstd::prelude::*;

verus! {

broadcast use vstd::std_specs::hash::group_hash_axioms;

/// Receipts by shard, each shard's in the order in which they were sent.
pub type Routed = Map<ShardId, Seq<ReceiptView>>;

/// The view of a table of receipts by shard.
pub open spec fn by_shard(m: Map<ShardId, Vec<ReceiptTransaction>>) -> Routed {
    Map::new(|k: ShardId| m.contains_key(k), |k: ShardId| views(m[k]@))
}

/// The table with `receipt` added at the end of the list of its shard.
pub open spec fn spec_route(m: Routed, receipt: ReceiptView) -> Routed {
    let shard = spec_shard_of(receipt.receiver);
    m.insert(
        shard,
        (if m.contains_key(shard) {
            m[shard]
        } else {
            Seq::empty()
        }).push(receipt),
    )
}

/// The table with `receipts` added, in their order.
pub open spec fn spec_route_all(m: Routed, receipts: Seq<ReceiptView>) -> Routed
    decreases receipts.len(),
{
    if receipts.len() == 0 {
        m
    } else {
        spec_route(spec_route_all(m, receipts.drop_last()), receipts.last())
    }
}

/// The identifiers of `receipts`, in their order.
pub open spec fn spec_nonces(receipts: Seq<ReceiptView>) -> Seq<Seq<u8>> {
    Seq::new(receipts.len(), |i: int| receipts[i].nonce)
}

/// Adds `receipt` to the list of the shard of its receiver.
pub fn route(new_receipts: &mut HashMap<ShardId, Vec<ReceiptTransaction>>, receipt: ReceiptTransaction)
    ensures
        by_shard(final(new_receipts)@) == spec_route(by_shard(old(new_receipts)@), receipt@),
{
    let shard = account_to_shard_id(&receipt.receiver);
    let mut list = match new_receipts.remove(&shard) {
        Some(list) => list,
        None => Vec::new(),
    };
    proof {
        lemma_views_push(list@, receipt);
        if !old(new_receipts)@.contains_key(shard) {
            assert(views(list@) =~= Seq::empty());
        }
    }
    list.push(receipt);
    new_receipts.insert(shard, list);
    assert(by_shard(new_receipts@) =~= spec_route(by_shard(old(new_receipts)@), receipt@));
}

/// Records the identifiers of `receipts` in `result`, after those that it
/// holds, and adds the receipts to the lists of their shards, in their
/// order.
pub fn route_all(
    new_receipts: &mut HashMap<ShardId, Vec<ReceiptTransaction>>,
    receipts: Vec<ReceiptTransaction>,
    result: &mut TransactionResult,
)
    ensures
        by_shard(final(new_receipts)@) == spec_route_all(
            by_shard(old(new_receipts)@),
            views(receipts@),
        ),
        final(result)@ == (TransactionResultView {
            receipts: old(result)@.receipts + spec_nonces(views(receipts@)),
            ..old(result)@
        }),
{
    let ghost all = views(receipts@);
    let ghost held = result@.receipts;
    let mut receipts = receipts;
    let ghost start = by_shard(new_receipts@);
    let mut i: usize = 0;
    let n = receipts.len();
    assert(all.take(0) =~= Seq::empty());
    assert(result@.receipts =~= held + spec_nonces(all.take(0)));
    while i < n
        invariant
            i <= n,
            n == all.len(),
            held == old(result)@.receipts,
            views(receipts@) == all.skip(i as int),
            by_shard(new_receipts@) == spec_route_all(start, all.take(i as int)),
            result@ == (TransactionResultView {
                receipts: held + spec_nonces(all.take(i as int)),
                ..old(result)@
            }),
        decreases n - i,
    {
        assert(views(receipts@).len() == receipts@.len());
        let ghost before = receipts@;
        let receipt = receipts.remove(0);
        let nonce = receipt.nonce.clone();
        proof {
            assert(receipt@ == views(before)[0]);
            assert forall|k: int| 0 <= k < receipts@.len() implies views(receipts@)[k] == all.skip(
                i + 1,
            )[k] by {
                assert(receipts@[k] == before[k + 1]);
                assert(views(before)[k + 1] == all.skip(i as int)[k + 1]);
            }
            assert(views(receipts@) =~= all.skip(i + 1));
            assert(all.take(i + 1).drop_last() =~= all.take(i as int));
            lemma_views_push(result.receipts@, nonce);
            assert((held + spec_nonces(all.take(i as int))).push(receipt@.nonce) =~= held
                + spec_nonces(all.take(i + 1)));
        }
        result.receipts.push(nonce);
        route(new_receipts, receipt);
        i += 1;
    }
    assert(all.take(n as int) =~= all);
}

/// The result recorded for an input: completed with its logs, or failed
/// with its logs and the message of the failure; and in both cases the
/// identifiers of the receipts that it sent.
pub open spec fn spec_recorded(
    result: Result<(), RuntimeErrorView>,
    sent: Seq<ReceiptView>,
    logs: Seq<Seq<char>>,
) -> TransactionResultView {
    match result {
        Ok(()) => TransactionResultView {
            status: TransactionStatus::Completed,
            logs,
            receipts: spec_nonces(sent),
        },
        Err(e) => TransactionResultView {
            status: TransactionStatus::Failed,
            logs: logs.push(spec_failure_log(e)),
            receipts: spec_nonces(sent),
        },
    }
}

/// The log entry of a receipt whose receiver lives on another shard.
pub open spec fn spec_wrong_shard_log() -> Seq<char> {
    "receipt sent to the wrong shard"@
}

/// The result recorded for a receipt whose receiver lives on another shard.
pub open spec fn spec_wrong_shard() -> TransactionResultView {
    TransactionResultView {
        status: TransactionStatus::Failed,
        logs: seq![spec_wrong_shard_log()],
        receipts: Seq::empty(),
    }
}

/// The result for a receipt whose receiver lives on another shard.
pub fn wrong_shard() -> (r: TransactionResult)
    ensures
        r@ == spec_wrong_shard(),
{
    let mut r = TransactionResult::default();
    r.status = TransactionStatus::Failed;
    let entry = String::from_str("receipt sent to the wrong shard");
    proof {
        lemma_views_push(r.logs@, entry);
    }
    r.logs.push(entry);
    assert(r@.logs =~= seq![spec_wrong_shard_log()]);
    r
}

/// Records what became of an input in `result`, whose logs are those of
/// the input.
pub fn record(result: &mut TransactionResult, outcome: &Result<(), RuntimeError>)
    ensures
        final(result)@ == (TransactionResultView {
            status: if outcome is Ok {
                TransactionStatus::Completed
            } else {
                TransactionStatus::Failed
            },
            logs: if outcome is Ok {
                old(result)@.logs
            } else {
                old(result)@.logs.push(spec_failure_log(outcome->Err_0@))
            },
            ..old(result)@
        }),
{
    match outcome {
        Ok(()) => {
            result.status = TransactionStatus::Completed;
        },
        Err(e) => {
            let entry = e.failure_log();
            proof {
                lemma_views_push(result.logs@, entry);
            }
            result.logs.push(entry);
            result.status = TransactionStatus::Failed;
        },
    }
}

} // verus!
